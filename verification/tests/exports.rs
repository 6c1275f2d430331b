use nocta_core::exports::{
    build_export_block, export_lines_from_map, format_export_line, merge_barrel, merge_exports,
    parse_existing_export_block, parse_export_line, parse_export_lines, same_exports,
    ExportChangeKind, ExportMap, EXPORT_BLOCK_COMMENT, EXPORT_BLOCK_END, EXPORT_BLOCK_START,
};

fn map(entries: &[(&str, &[&str])]) -> ExportMap {
    let mut map = ExportMap::new();
    for (module, names) in entries {
        for name in names.iter() {
            map.add_export(module, name);
        }
    }
    map
}

fn strings(items: &[&str]) -> Vec<String> {
    items.iter().map(|s| s.to_string()).collect()
}

#[test]
fn two_components_share_one_line_for_the_same_module() {
    let mut added = ExportMap::new();
    added.add_export("./module", "b");
    added.add_export("./module", "a");
    let update = merge_barrel(None, &added).unwrap();
    assert_eq!(update.statements, vec!["export { a, b } from \"./module\";"]);
    assert_eq!(update.change, ExportChangeKind::Created);
    let lines: Vec<&str> = update.content.lines().filter(|l| l.starts_with("export")).collect();
    assert_eq!(lines, vec!["export { a, b } from \"./module\";"]);
}

#[test]
fn merging_into_an_existing_block_keeps_the_text_around_it() {
    let existing = format!(
        "import x from \"y\";\n{}\n{}\nexport {{ Card }} from \"./card\";\n{}\n\nexport const mine = 1;\n",
        EXPORT_BLOCK_START, EXPORT_BLOCK_COMMENT, EXPORT_BLOCK_END
    );
    let added = map(&[("./button", &["Button", "buttonVariants"]), ("./card", &["CardTitle"])]);
    let update = merge_barrel(Some(&existing), &added).unwrap();
    let expected = format!(
        "import x from \"y\";\n{}\n{}\nexport {{ Button, buttonVariants }} from \"./button\";\nexport {{ Card, CardTitle }} from \"./card\";\n{}\n\n\nexport const mine = 1;\n",
        EXPORT_BLOCK_START, EXPORT_BLOCK_COMMENT, EXPORT_BLOCK_END
    );
    assert_eq!(update.content, expected);
    assert_eq!(update.change, ExportChangeKind::Updated);
    assert_eq!(
        update.statements,
        vec![
            "export { Button, buttonVariants } from \"./button\";",
            "export { Card, CardTitle } from \"./card\";"
        ]
    );
}

#[test]
fn merging_what_is_there_already_changes_nothing() {
    let existing = format!(
        "{}\nexport {{ Card, CardTitle }} from './card'\n{}\n",
        EXPORT_BLOCK_START, EXPORT_BLOCK_END
    );
    assert_eq!(merge_barrel(Some(&existing), &map(&[("./card", &["Card"])])), None);
    assert_eq!(merge_barrel(Some(&existing), &ExportMap::new()), None);
    assert_eq!(merge_barrel(None, &ExportMap::new()), None);
}

#[test]
fn barrel_without_block_gets_one_appended() {
    let update = merge_barrel(Some("export const mine = 1;"), &map(&[("./a", &["A"])])).unwrap();
    let expected = format!(
        "export const mine = 1;\n{}\n{}\nexport {{ A }} from \"./a\";\n{}\n",
        EXPORT_BLOCK_START, EXPORT_BLOCK_COMMENT, EXPORT_BLOCK_END
    );
    assert_eq!(update.content, expected);
    assert_eq!(update.change, ExportChangeKind::Updated);
}

#[test]
fn barrel_is_taken_apart_at_the_markers() {
    let content = format!("before\n{}\nexport {{ A }} from \"./a\";\n{}after", EXPORT_BLOCK_START, EXPORT_BLOCK_END);
    let partition = parse_existing_export_block(&content);
    assert_eq!(partition.before, "before\n");
    assert_eq!(partition.after, "after");
    assert!(same_exports(&partition.existing_map, &map(&[("./a", &["A"])])));
    let open_only = format!("before\n{}\nexport {{ A }} from \"./a\";\n", EXPORT_BLOCK_START);
    let partition = parse_existing_export_block(&open_only);
    assert_eq!(partition.before, open_only);
    assert_eq!(partition.after, "");
    assert!(partition.existing_map.is_empty());
    let partition = parse_existing_export_block("");
    assert_eq!(partition.before, "");
    assert!(partition.existing_map.is_empty());
}

#[test]
fn export_lines_are_parsed() {
    assert_eq!(
        parse_export_line("export { a, b } from \"./m\";"),
        Some(("./m".to_string(), strings(&["a", "b"])))
    );
    assert_eq!(
        parse_export_line("export   {a,,  b ,}from'./m'"),
        Some(("./m".to_string(), strings(&["a", "b"])))
    );
    assert_eq!(parse_export_line("export { } from \"./m\";"), None);
    assert_eq!(parse_export_line("export * from \"./m\";"), None);
    assert_eq!(parse_export_line("export { a } from ./m;"), None);
    assert_eq!(parse_export_line("export { a } from \"./m';"), None);
    assert_eq!(parse_export_line("export { a  from \"./m\";"), None);
    assert_eq!(parse_export_line("import { a } from \"./m\";"), None);
    assert_eq!(parse_export_line("export { a } \"./m\";"), None);
}

#[test]
fn block_lines_are_read_into_a_sorted_map() {
    let body = "\n// comment\nexport { b } from \"./z\";\n  export { c, a } from \"./a\";\nnot a line\nexport { a } from \"./z\";\n";
    let parsed = parse_export_lines(body);
    assert_eq!(parsed.modules, strings(&["./a", "./z"]));
    assert_eq!(parsed.names, vec![strings(&["a", "c"]), strings(&["a", "b"])]);
    assert_eq!(
        export_lines_from_map(&parsed),
        vec!["export { a, c } from \"./a\";", "export { a, b } from \"./z\";"]
    );
}

#[test]
fn export_line_and_block_are_written() {
    assert_eq!(
        format_export_line("./button", &strings(&["Button", "buttonVariants"])),
        "export { Button, buttonVariants } from \"./button\";"
    );
    assert_eq!(
        build_export_block(&strings(&["one", "two"])),
        format!("{}\n{}\none\ntwo\n{}\n", EXPORT_BLOCK_START, EXPORT_BLOCK_COMMENT, EXPORT_BLOCK_END)
    );
    assert_eq!(
        build_export_block(&[].to_vec()),
        format!("{}\n{}\n{}\n", EXPORT_BLOCK_START, EXPORT_BLOCK_COMMENT, EXPORT_BLOCK_END)
    );
}

#[test]
fn merged_maps_hold_the_union() {
    let merged = merge_exports(&map(&[("./a", &["x"]), ("./c", &["z"])]), &map(&[("./b", &["y"]), ("./a", &["w", "x"])]));
    assert_eq!(merged.modules, strings(&["./a", "./b", "./c"]));
    assert_eq!(merged.names, vec![strings(&["w", "x"]), strings(&["y"]), strings(&["z"])]);
}
