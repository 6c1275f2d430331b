//! Writing the files of a run so that all of it can be undone: what to
//! write, what to remember of the files that are overwritten, and how to
//! put them back.

use vstd::prelude::*;
use vstd::string::StrSliceExecFns;
use crate::chars;
use crate::string_map::same_text;

verus! {

/// A file with its content, bound for a workspace.
#[derive(Clone, Debug)]
pub struct ComponentFileWithContent {
    pub workspace_id: String,
    pub absolute_path: String,
    pub display_path: String,
    pub content: String,
    pub component_name: String,
    pub component_slug: String,
    pub file_type: String,
}

/// What a path held before the run first touched it: its bytes, or nothing.
#[derive(Clone, Debug, PartialEq, Eq)]
pub struct FileChange {
    pub path: String,
    pub previous_contents: Option<Vec<u8>>,
}

/// One thing to do to the files of the project.
#[derive(Clone, Debug, PartialEq, Eq)]
pub enum FileAction {
    /// Make the directories above `path` and write `contents` to it.
    Write { path: String, contents: Vec<u8> },
    /// Remove the file at `path` if there is one.
    Remove { path: String },
}

/// The files of a project: the bytes at each path that holds a file.
pub type Files = Map<Seq<char>, Seq<u8>>;

/// What a `FileAction` says.
pub enum FileActionView {
    Write { path: Seq<char>, contents: Seq<u8> },
    Remove { path: Seq<char> },
}

impl View for FileAction {
    type V = FileActionView;

    open spec fn view(&self) -> FileActionView {
        match self {
            FileAction::Write { path, contents } => FileActionView::Write {
                path: path@,
                contents: contents@,
            },
            FileAction::Remove { path } => FileActionView::Remove { path: path@ },
        }
    }
}

/// An entry of the change log: a path and what it held.
pub type LogEntry = (Seq<char>, Option<Seq<u8>>);

impl View for FileChange {
    type V = LogEntry;

    open spec fn view(&self) -> LogEntry {
        (
            self.path@,
            match self.previous_contents {
                Some(bytes) => Some(bytes@),
                None => None,
            },
        )
    }
}

/// What the files hold at `path`.
pub open spec fn content_at(files: Files, path: Seq<char>) -> Option<Seq<u8>> {
    if files.dom().contains(path) {
        Some(files[path])
    } else {
        None
    }
}

/// The files after one action.
pub open spec fn apply(files: Files, action: FileActionView) -> Files {
    match action {
        FileActionView::Write { path, contents } => files.insert(path, contents),
        FileActionView::Remove { path } => files.remove(path),
    }
}

/// The files after the first `n` of `actions`, in order.
pub open spec fn apply_all(files: Files, actions: Seq<FileActionView>, n: int) -> Files
    decreases n,
{
    if n <= 0 {
        files
    } else {
        apply(apply_all(files, actions, n - 1), actions[n - 1])
    }
}

/// Whether the log has an entry for `path`.
pub open spec fn is_logged(log: Seq<LogEntry>, path: Seq<char>) -> bool {
    exists|i: int| 0 <= i < log.len() && (#[trigger] log[i]).0 == path
}

/// The log after `path` is touched: on first touch what the path holds is
/// appended, later touches leave the log as it is.
pub open spec fn touched(log: Seq<LogEntry>, files: Files, path: Seq<char>) -> Seq<LogEntry> {
    if is_logged(log, path) {
        log
    } else {
        log.push((path, content_at(files, path)))
    }
}

/// The files and the log after the first `n` of `writes`, each write
/// logged before it is made.
pub open spec fn written(
    files: Files,
    log: Seq<LogEntry>,
    writes: Seq<(Seq<char>, Seq<u8>)>,
    n: int,
) -> (Files, Seq<LogEntry>)
    decreases n,
{
    if n <= 0 {
        (files, log)
    } else {
        let (before, logged) = written(files, log, writes, n - 1);
        (
            before.insert(writes[n - 1].0, writes[n - 1].1),
            touched(logged, before, writes[n - 1].0),
        )
    }
}

/// The action that undoes a logged change.
pub open spec fn undo_action(entry: LogEntry) -> FileActionView {
    match entry.1 {
        Some(bytes) => FileActionView::Write { path: entry.0, contents: bytes },
        None => FileActionView::Remove { path: entry.0 },
    }
}

/// The actions that undo a log: one for each entry, the last entry first.
pub open spec fn undo_actions(log: Seq<LogEntry>) -> Seq<FileActionView> {
    Seq::new(log.len(), |i: int| undo_action(log[log.len() - 1 - i]))
}

/// The files after a log is undone.
pub open spec fn rolled_back(files: Files, log: Seq<LogEntry>) -> Files {
    apply_all(files, undo_actions(log), log.len() as int)
}

/// Whether the planned file at `i` is in the way of a file that exists.
pub open spec fn conflicts_at(exists: Seq<bool>, i: int) -> bool {
    0 <= i < exists.len() && exists[i]
}

/// The display paths of the first `n` files that exist already.
pub open spec fn conflicts(files: Seq<ComponentFileWithContent>, exists: Seq<bool>, n: int) -> Seq<
    Seq<char>,
>
    decreases n,
{
    if n <= 0 {
        seq![]
    } else {
        let before = conflicts(files, exists, n - 1);
        if conflicts_at(exists, n - 1) {
            before.push(files[n - 1].display_path@)
        } else {
            before
        }
    }
}

/// The planned files that are in the way of files that exist, by their
/// display paths. `exists[i]` says whether there is a file at the absolute
/// path of `files[i]`.
pub fn find_existing_files(files: &Vec<ComponentFileWithContent>, exists: &Vec<bool>) -> (r: Vec<
    String,
>)
    ensures
        chars::views(r@) == conflicts(files@, exists@, files@.len() as int),
{
    let mut found: Vec<String> = Vec::new();
    let mut i: usize = 0;
    assert(chars::views(found@) =~= conflicts(files@, exists@, 0));
    while i < files.len()
        invariant
            i <= files.len(),
            chars::views(found@) == conflicts(files@, exists@, i as int),
        decreases files.len() - i,
    {
        let ghost before = chars::views(found@);
        if i < exists.len() && exists[i] {
            found.push(files[i].display_path.clone());
            assert(chars::views(found@) =~= before.push(files@[i as int].display_path@));
        }
        i += 1;
    }
    found
}

/// The writes that install `files`: for each file its bytes at its
/// absolute path, in order; none in a dry run.
pub open spec fn planned_writes(files: Seq<ComponentFileWithContent>, dry_run: bool) -> Seq<
    FileActionView,
> {
    if dry_run {
        seq![]
    } else {
        Seq::new(
            files.len(),
            |i: int|
                FileActionView::Write {
                    path: files[i].absolute_path@,
                    contents: vstd::utf8::encode_utf8(files[i].content@),
                },
        )
    }
}

/// The writes that install `files`. A dry run writes nothing.
pub fn write_component_files(files: &Vec<ComponentFileWithContent>, dry_run: bool) -> (r: Vec<
    FileAction,
>)
    ensures
        chars::views(r@) == planned_writes(files@, dry_run),
        dry_run ==> r@.len() == 0,
{
    let mut actions: Vec<FileAction> = Vec::new();
    if dry_run {
        assert(chars::views(actions@) =~= planned_writes(files@, dry_run));
        return actions;
    }
    let mut i: usize = 0;
    while i < files.len()
        invariant
            i <= files.len(),
            !dry_run,
            chars::views(actions@) == planned_writes(files@, dry_run).take(i as int),
        decreases files.len() - i,
    {
        let ghost before = chars::views(actions@);
        let action = FileAction::Write {
            path: files[i].absolute_path.clone(),
            contents: files[i].content.as_str().as_bytes_vec(),
        };
        actions.push(action);
        assert(chars::views(actions@) =~= before.push(planned_writes(files@, dry_run)[i as int]));
        assert(planned_writes(files@, dry_run).take(i + 1) =~= before.push(
            planned_writes(files@, dry_run)[i as int],
        ));
        i += 1;
    }
    assert(planned_writes(files@, dry_run).take(files@.len() as int) =~= planned_writes(
        files@,
        dry_run,
    ));
    actions
}

/// Whether `path` is touched for the first time: the log has no entry for
/// it, so what it holds must be remembered before it is written.
pub fn needs_snapshot(path: &str, changes: &Vec<FileChange>) -> (r: bool)
    ensures
        r == !is_logged(chars::views(changes@), path@),
{
    let mut i: usize = 0;
    while i < changes.len()
        invariant
            i <= changes.len(),
            forall|j: int| 0 <= j < i ==> (#[trigger] chars::views(changes@)[j]).0 != path@,
        decreases changes.len() - i,
    {
        if same_text(changes[i].path.as_str(), path) {
            assert(chars::views(changes@)[i as int].0 == path@);
            return false;
        }
        i += 1;
    }
    true
}

/// Remembers what `path` held before the run, unless the log has an entry
/// for it already: the first touch wins.
pub fn ensure_change_record(path: &str, previous_contents: Option<Vec<u8>>, changes: &mut Vec<
    FileChange,
>)
    ensures
        chars::views(final(changes)@) == if is_logged(chars::views(old(changes)@), path@) {
            chars::views(old(changes)@)
        } else {
            chars::views(old(changes)@).push(
                (
                    path@,
                    match previous_contents {
                        Some(bytes) => Some(bytes@),
                        None => None,
                    },
                ),
            )
        },
{
    if !needs_snapshot(path, changes) {
        return ;
    }
    let ghost before = chars::views(changes@);
    let change = FileChange { path: path.to_owned(), previous_contents };
    changes.push(change);
    assert(chars::views(changes@) =~= before.push(change@));
}

/// The actions that undo the changes of a run: for each logged path, the
/// last first, its bytes written back, or the file removed where there was
/// none.
pub fn rollback_file_changes(changes: &Vec<FileChange>) -> (r: Vec<FileAction>)
    ensures
        chars::views(r@) == undo_actions(chars::views(changes@)),
{
    let ghost log = chars::views(changes@);
    let mut actions: Vec<FileAction> = Vec::new();
    let mut n: usize = changes.len();
    while n > 0
        invariant
            n <= changes.len(),
            log == chars::views(changes@),
            chars::views(actions@) == undo_actions(log).take(changes.len() - n),
        decreases n,
    {
        let ghost before = chars::views(actions@);
        let change = &changes[n - 1];
        let action = match &change.previous_contents {
            Some(bytes) => FileAction::Write { path: change.path.clone(), contents: bytes.clone() },
            None => FileAction::Remove { path: change.path.clone() },
        };
        assert(action@ == undo_action(log[n - 1]));
        actions.push(action);
        assert(chars::views(actions@) =~= before.push(undo_action(log[n - 1])));
        assert(undo_actions(log).take(changes.len() - n + 1) =~= before.push(
            undo_action(log[n - 1]),
        ));
        n -= 1;
    }
    assert(undo_actions(log).take(changes.len() as int) =~= undo_actions(log));
    actions
}

// ---------------------------------------------------------------------------
// The round trip
// ---------------------------------------------------------------------------

/// The log holds, for each of its paths once, what the path held in
/// `initial`; every path that is not logged holds now what it held then.
pub open spec fn log_sound(initial: Files, now: Files, log: Seq<LogEntry>) -> bool {
    &&& forall|i: int, j: int| 0 <= i < j < log.len() ==> log[i].0 != log[j].0
    &&& forall|i: int| 0 <= i < log.len() ==> (#[trigger] log[i]).1 == content_at(initial, log[i].0)
    &&& forall|path: Seq<char>|
        !is_logged(log, path) ==> content_at(now, path) == content_at(initial, path)
}

/// Writing keeps the log sound.
pub proof fn lemma_written_sound(
    initial: Files,
    files: Files,
    log: Seq<LogEntry>,
    writes: Seq<(Seq<char>, Seq<u8>)>,
    n: int,
)
    requires
        0 <= n <= writes.len(),
        log_sound(initial, files, log),
    ensures
        log_sound(initial, written(files, log, writes, n).0, written(files, log, writes, n).1),
    decreases n,
{
    if n > 0 {
        lemma_written_sound(initial, files, log, writes, n - 1);
        let (before, logged) = written(files, log, writes, n - 1);
        let path = writes[n - 1].0;
        let after = before.insert(path, writes[n - 1].1);
        let next = touched(logged, before, path);
        if is_logged(logged, path) {
            assert forall|q: Seq<char>| !is_logged(next, q) implies content_at(after, q)
                == content_at(initial, q) by {
                assert(q != path);
            }
        } else {
            let entry = (path, content_at(before, path));
            assert forall|i: int, j: int| 0 <= i < j < next.len() implies next[i].0 != next[j].0 by {
                if j == logged.len() {
                    assert(logged[i].0 != path);
                }
            }
            assert forall|i: int| 0 <= i < next.len() implies (#[trigger] next[i]).1 == content_at(
                initial,
                next[i].0,
            ) by {
                if i < logged.len() {
                    assert(next[i] == logged[i]);
                }
            }
            assert forall|q: Seq<char>| !is_logged(next, q) implies content_at(after, q)
                == content_at(initial, q) by {
                assert(next[logged.len() as int].0 == path);
                assert(q != path);
                if is_logged(logged, q) {
                    let i = choose|i: int| 0 <= i < logged.len() && (#[trigger] logged[i]).0 == q;
                    assert(next[i].0 == q);
                }
            }
        }
    }
}

/// Undoing a sound log gives back the files as they were at first.
pub proof fn lemma_rolled_back_sound(initial: Files, now: Files, log: Seq<LogEntry>)
    requires
        log_sound(initial, now, log),
    ensures
        rolled_back(now, log) == initial,
    decreases log.len(),
{
    if log.len() == 0 {
        assert forall|q: Seq<char>| content_at(now, q) == content_at(initial, q) by {
            assert(!is_logged(log, q));
        }
        assert(now =~= initial) by {
            assert forall|q: Seq<char>| now.dom().contains(q) == initial.dom().contains(q) by {
                assert(content_at(now, q) == content_at(initial, q));
            }
            assert forall|q: Seq<char>| now.dom().contains(q) implies now[q] == initial[q] by {
                assert(content_at(now, q) == content_at(initial, q));
            }
        }
    } else {
        let last = log.last();
        let rest = log.drop_last();
        let undone = apply(now, undo_action(last));
        assert(log_sound(initial, undone, rest)) by {
            assert forall|i: int| 0 <= i < rest.len() implies (#[trigger] rest[i]).1 == content_at(
                initial,
                rest[i].0,
            ) by {
                assert(rest[i] == log[i]);
            }
            assert forall|q: Seq<char>| !is_logged(rest, q) implies content_at(undone, q)
                == content_at(initial, q) by {
                if q == last.0 {
                    assert(log[log.len() - 1].1 == content_at(initial, last.0));
                } else {
                    if is_logged(log, q) {
                        let i = choose|i: int| 0 <= i < log.len() && (#[trigger] log[i]).0 == q;
                        assert(rest[i].0 == q);
                    }
                }
            }
        }
        lemma_rolled_back_sound(initial, undone, rest);
        lemma_apply_all_shift(now, undo_actions(log), undo_actions(rest), rest.len() as int);
    }
}

/// Doing one action and then `n` more is doing `n + 1` actions.
pub proof fn lemma_apply_all_shift(
    files: Files,
    all: Seq<FileActionView>,
    tail: Seq<FileActionView>,
    n: int,
)
    requires
        0 <= n <= tail.len(),
        all.len() == tail.len() + 1,
        forall|i: int| 0 <= i < tail.len() ==> tail[i] == all[i + 1],
    ensures
        apply_all(files, all, n + 1) == apply_all(apply(files, all[0]), tail, n),
    decreases n,
{
    if n > 0 {
        lemma_apply_all_shift(files, all, tail, n - 1);
    } else {
        assert(apply_all(files, all, 0) == files);
    }
}

/// The round trip: whatever is written in a run, with each path logged on
/// its first touch, undoing the log gives back the files as they were
/// before: what was overwritten holds its old bytes again, and what was
/// created is gone.
pub proof fn lemma_write_then_rollback(files: Files, writes: Seq<(Seq<char>, Seq<u8>)>)
    ensures
        ({
            let (after, log) = written(files, seq![], writes, writes.len() as int);
            rolled_back(after, log) == files
        }),
{
    let none = Seq::<LogEntry>::empty();
    assert(log_sound(files, files, none));
    lemma_written_sound(files, files, none, writes, writes.len() as int);
    let (after, log) = written(files, none, writes, writes.len() as int);
    lemma_rolled_back_sound(files, after, log);
}

// ---------------------------------------------------------------------------
// The run
// ---------------------------------------------------------------------------

/// Where a run of the writer stands.
#[derive(Clone, Copy, Debug, PartialEq, Eq, Structural)]
pub enum WriterState {
    /// The files are being planned.
    Planning,
    /// The planned files are checked against the files that exist.
    ConflictCheck,
    /// The user is asked whether existing files may be overwritten.
    AwaitConfirmation,
    /// The files are written.
    CleanWrite,
    /// The run is over.
    Done,
    /// The run failed and its writes were undone.
    RolledBack,
}

/// What happened since the last step of the run.
#[derive(Clone, Copy, Debug, PartialEq, Eq, Structural)]
pub enum WriterEvent {
    /// The files are planned.
    Planned,
    /// The check found this many existing files in the way.
    Checked(usize),
    /// The user allows overwriting.
    Confirmed,
    /// The user does not allow overwriting.
    Declined,
    /// The writes are made.
    Written,
    /// Something failed; this many paths are in the change log.
    Failed(usize),
}

/// What the run does next.
#[derive(Clone, Copy, Debug, PartialEq, Eq, Structural)]
pub enum WriterAction {
    /// Check the planned files against the files that exist.
    CheckConflicts,
    /// Report the existing files and ask whether to overwrite them.
    AskConfirmation,
    /// Report the existing files as ones that would be overwritten, then
    /// go on as if writing.
    ReportWouldOverwrite,
    /// Write the planned files.
    Write,
    /// End the run: the files are installed, or would be.
    Complete,
    /// End the run with nothing done.
    Cancel,
    /// Undo the logged changes, then report the failure.
    Rollback,
    /// Report the failure; there is nothing to undo.
    Fail,
    /// The event does not belong here: nothing to do.
    Ignore,
}

/// The step of a run. Conflicts are reported before anything is written.
/// A dry run never asks and never undoes, for it writes nothing. A live run
/// with conflicts writes only after the user confirmed. A failure undoes
/// what the log holds.
pub open spec fn writer_transition(state: WriterState, event: WriterEvent, dry_run: bool) -> (
    WriterState,
    WriterAction,
) {
    match (state, event) {
        (_, WriterEvent::Failed(logged)) => if state == WriterState::Done || state
            == WriterState::RolledBack {
            (state, WriterAction::Ignore)
        } else if !dry_run && logged > 0 {
            (WriterState::RolledBack, WriterAction::Rollback)
        } else {
            (WriterState::Done, WriterAction::Fail)
        },
        (WriterState::Planning, WriterEvent::Planned) => (
            WriterState::ConflictCheck,
            WriterAction::CheckConflicts,
        ),
        (WriterState::ConflictCheck, WriterEvent::Checked(found)) => if found == 0 {
            (WriterState::CleanWrite, WriterAction::Write)
        } else if dry_run {
            (WriterState::CleanWrite, WriterAction::ReportWouldOverwrite)
        } else {
            (WriterState::AwaitConfirmation, WriterAction::AskConfirmation)
        },
        (WriterState::AwaitConfirmation, WriterEvent::Confirmed) => (
            WriterState::CleanWrite,
            WriterAction::Write,
        ),
        (WriterState::AwaitConfirmation, WriterEvent::Declined) => (
            WriterState::Done,
            WriterAction::Cancel,
        ),
        (WriterState::CleanWrite, WriterEvent::Written) => (
            WriterState::Done,
            WriterAction::Complete,
        ),
        _ => (state, WriterAction::Ignore),
    }
}

/// The step of a run of the writer.
pub fn writer_step(state: WriterState, event: WriterEvent, dry_run: bool) -> (r: (
    WriterState,
    WriterAction,
))
    ensures
        r == writer_transition(state, event, dry_run),
{
    match (state, event) {
        (_, WriterEvent::Failed(logged)) => {
            if state == WriterState::Done || state == WriterState::RolledBack {
                (state, WriterAction::Ignore)
            } else if !dry_run && logged > 0 {
                (WriterState::RolledBack, WriterAction::Rollback)
            } else {
                (WriterState::Done, WriterAction::Fail)
            }
        },
        (WriterState::Planning, WriterEvent::Planned) => (
            WriterState::ConflictCheck,
            WriterAction::CheckConflicts,
        ),
        (WriterState::ConflictCheck, WriterEvent::Checked(found)) => {
            if found == 0 {
                (WriterState::CleanWrite, WriterAction::Write)
            } else if dry_run {
                (WriterState::CleanWrite, WriterAction::ReportWouldOverwrite)
            } else {
                (WriterState::AwaitConfirmation, WriterAction::AskConfirmation)
            }
        },
        (WriterState::AwaitConfirmation, WriterEvent::Confirmed) => (
            WriterState::CleanWrite,
            WriterAction::Write,
        ),
        (WriterState::AwaitConfirmation, WriterEvent::Declined) => (
            WriterState::Done,
            WriterAction::Cancel,
        ),
        (WriterState::CleanWrite, WriterEvent::Written) => (
            WriterState::Done,
            WriterAction::Complete,
        ),
        _ => (state, WriterAction::Ignore),
    }
}

/// A dry run never asks for confirmation and never rolls back, nor does
/// it come to wait for a confirmation or to be rolled back; in a live run
/// nothing is written over existing files before the user confirmed; and
/// only a failure with logged changes is rolled back.
pub proof fn lemma_writer_is_careful(state: WriterState, event: WriterEvent, dry_run: bool)
    ensures
        dry_run ==> writer_transition(state, event, dry_run).1 != WriterAction::AskConfirmation
            && writer_transition(state, event, dry_run).1 != WriterAction::Rollback,
        dry_run && state != WriterState::AwaitConfirmation ==> writer_transition(
            state,
            event,
            dry_run,
        ).0 != WriterState::AwaitConfirmation,
        dry_run && state != WriterState::RolledBack ==> writer_transition(state, event, dry_run).0
            != WriterState::RolledBack,
        !dry_run && (event matches WriterEvent::Checked(found) && found > 0) ==> writer_transition(
            state,
            event,
            dry_run,
        ).1 != WriterAction::Write,
        writer_transition(state, event, dry_run).1 == WriterAction::Rollback ==> (
        event matches WriterEvent::Failed(logged) && logged > 0),
{
}

} // verus!
