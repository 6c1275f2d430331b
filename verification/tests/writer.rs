use std::collections::BTreeMap;

use nocta_core::writer::{
    ensure_change_record, find_existing_files, needs_snapshot, rollback_file_changes,
    write_component_files, writer_step, ComponentFileWithContent, FileAction, FileChange,
    WriterAction, WriterEvent, WriterState,
};

fn file(path: &str, content: &str) -> ComponentFileWithContent {
    ComponentFileWithContent {
        workspace_id: "primary".to_string(),
        absolute_path: format!("/repo/{}", path),
        display_path: path.to_string(),
        content: content.to_string(),
        component_name: "Button".to_string(),
        component_slug: "button".to_string(),
        file_type: "component".to_string(),
    }
}

fn apply(files: &mut BTreeMap<String, Vec<u8>>, action: &FileAction) {
    match action {
        FileAction::Write { path, contents } => {
            files.insert(path.clone(), contents.clone());
        }
        FileAction::Remove { path } => {
            files.remove(path);
        }
    }
}

fn run_writes(
    files: &mut BTreeMap<String, Vec<u8>>,
    planned: &[ComponentFileWithContent],
    changes: &mut Vec<FileChange>,
) {
    for action in write_component_files(&planned.to_vec(), false) {
        if let FileAction::Write { path, .. } = &action {
            if needs_snapshot(path, changes) {
                ensure_change_record(path, files.get(path).cloned(), changes);
            }
        }
        apply(files, &action);
    }
}

#[test]
fn dry_run_reports_conflicts_and_writes_nothing() {
    let planned = vec![file("components/ui/button.tsx", "new"), file("components/ui/icon.tsx", "new")];
    let conflicts = find_existing_files(&planned, &vec![true, false]);
    assert_eq!(conflicts, vec!["components/ui/button.tsx"]);
    assert!(write_component_files(&planned, true).is_empty());
    let (state, action) = writer_step(WriterState::Planning, WriterEvent::Planned, true);
    assert_eq!((state, action), (WriterState::ConflictCheck, WriterAction::CheckConflicts));
    let (state, action) = writer_step(state, WriterEvent::Checked(conflicts.len()), true);
    assert_eq!((state, action), (WriterState::CleanWrite, WriterAction::ReportWouldOverwrite));
    let (state, action) = writer_step(state, WriterEvent::Written, true);
    assert_eq!((state, action), (WriterState::Done, WriterAction::Complete));
}

#[test]
fn live_run_asks_before_overwriting() {
    let (state, action) = writer_step(WriterState::ConflictCheck, WriterEvent::Checked(2), false);
    assert_eq!((state, action), (WriterState::AwaitConfirmation, WriterAction::AskConfirmation));
    assert_eq!(
        writer_step(state, WriterEvent::Declined, false),
        (WriterState::Done, WriterAction::Cancel)
    );
    assert_eq!(
        writer_step(state, WriterEvent::Confirmed, false),
        (WriterState::CleanWrite, WriterAction::Write)
    );
    assert_eq!(
        writer_step(WriterState::ConflictCheck, WriterEvent::Checked(0), false),
        (WriterState::CleanWrite, WriterAction::Write)
    );
}

#[test]
fn failure_rolls_back_only_what_was_written() {
    assert_eq!(
        writer_step(WriterState::CleanWrite, WriterEvent::Failed(3), false),
        (WriterState::RolledBack, WriterAction::Rollback)
    );
    assert_eq!(
        writer_step(WriterState::CleanWrite, WriterEvent::Failed(0), false),
        (WriterState::Done, WriterAction::Fail)
    );
    assert_eq!(
        writer_step(WriterState::CleanWrite, WriterEvent::Failed(3), true),
        (WriterState::Done, WriterAction::Fail)
    );
    assert_eq!(
        writer_step(WriterState::Done, WriterEvent::Failed(3), false),
        (WriterState::Done, WriterAction::Ignore)
    );
    assert_eq!(
        writer_step(WriterState::Planning, WriterEvent::Written, false),
        (WriterState::Planning, WriterAction::Ignore)
    );
}

#[test]
fn writes_carry_the_bytes_of_the_content() {
    let planned = vec![file("a.tsx", "héllo")];
    assert_eq!(
        write_component_files(&planned, false),
        vec![FileAction::Write { path: "/repo/a.tsx".to_string(), contents: "héllo".as_bytes().to_vec() }]
    );
}

#[test]
fn first_touch_wins_in_the_change_log() {
    let mut changes: Vec<FileChange> = Vec::new();
    assert!(needs_snapshot("/repo/a", &changes));
    ensure_change_record("/repo/a", Some(b"old".to_vec()), &mut changes);
    assert!(!needs_snapshot("/repo/a", &changes));
    ensure_change_record("/repo/a", Some(b"newer".to_vec()), &mut changes);
    ensure_change_record("/repo/b", None, &mut changes);
    assert_eq!(
        changes,
        vec![
            FileChange { path: "/repo/a".to_string(), previous_contents: Some(b"old".to_vec()) },
            FileChange { path: "/repo/b".to_string(), previous_contents: None },
        ]
    );
}

#[test]
fn rollback_undoes_the_log_in_reverse() {
    let changes = vec![
        FileChange { path: "/repo/a".to_string(), previous_contents: Some(b"old".to_vec()) },
        FileChange { path: "/repo/b".to_string(), previous_contents: None },
    ];
    assert_eq!(
        rollback_file_changes(&changes),
        vec![
            FileAction::Remove { path: "/repo/b".to_string() },
            FileAction::Write { path: "/repo/a".to_string(), contents: b"old".to_vec() },
        ]
    );
    assert!(rollback_file_changes(&Vec::new()).is_empty());
}

#[test]
fn writing_then_rolling_back_restores_the_files() {
    let mut files: BTreeMap<String, Vec<u8>> = BTreeMap::new();
    files.insert("/repo/components/ui/button.tsx".to_string(), b"mine".to_vec());
    files.insert("/repo/other.txt".to_string(), vec![0, 159, 146, 150]);
    let before = files.clone();
    let mut changes: Vec<FileChange> = Vec::new();
    let planned = vec![
        file("components/ui/button.tsx", "first"),
        file("components/ui/icon.tsx", "icon"),
        file("components/ui/button.tsx", "second"),
    ];
    run_writes(&mut files, &planned, &mut changes);
    assert_eq!(files.get("/repo/components/ui/button.tsx"), Some(&b"second".to_vec()));
    assert_eq!(files.get("/repo/components/ui/icon.tsx"), Some(&b"icon".to_vec()));
    assert_eq!(changes.len(), 2);
    for action in rollback_file_changes(&changes) {
        apply(&mut files, &action);
    }
    assert_eq!(files, before);
}
