use shuji::tool::tree::{list_dir_message, list_dir_tree, tree_descends, EntryKind, TreeEntry};

fn file(rel: &str) -> TreeEntry {
    let name = rel.rsplit('/').next().unwrap().to_string();
    TreeEntry { name, rel: rel.to_string(), is_dir: false, children: vec![] }
}

fn dir(rel: &str, children: Vec<TreeEntry>) -> TreeEntry {
    let name = rel.rsplit('/').next().unwrap().to_string();
    TreeEntry { name, rel: rel.to_string(), is_dir: true, children }
}

fn sample() -> Vec<TreeEntry> {
    vec![
        file("b.txt"),
        dir("src", vec![file("src/main.rs"), file("src/lib.rs")]),
        file("a.txt"),
        dir("target", vec![file("target/x")]),
    ]
}

#[test]
fn folders_first_then_names() {
    let out = list_dir_tree(&sample(), None, None);
    assert_eq!(
        out,
        "├── src\n│   ├── src/lib.rs\n│   └── src/main.rs\n├── target\n├── a.txt\n└── b.txt\n\n6 items total"
    );
}

#[test]
fn depth_zero_stays_at_the_top() {
    let out = list_dir_tree(&sample(), Some(0), Some(""));
    assert_eq!(out, "├── src\n├── target\n├── a.txt\n└── b.txt\n\n4 items total");
}

#[test]
fn last_folder_draws_no_bar() {
    let entries = vec![dir("docs", vec![file("docs/a.md")])];
    assert_eq!(list_dir_tree(&entries, Some(9), None), "└── docs\n    └── docs/a.md\n\n2 items total");
}

#[test]
fn patterns_filter_every_level() {
    let out = list_dir_tree(&sample(), None, Some("*.txt"));
    assert_eq!(out, "├── a.txt\n└── b.txt\n\n2 items total");
    assert_eq!(list_dir_tree(&vec![], None, None), "(empty)\n\n0 items total");
}

#[test]
fn the_tree_stops_at_200() {
    let entries: Vec<TreeEntry> = (0..205).map(|i| file(&format!("f{:03}", i))).collect();
    let out = list_dir_tree(&entries, None, None);
    assert!(out.ends_with("\n\n... showing first 200 items\n\n200 items total"));
    assert_eq!(out.lines().filter(|l| l.contains("── f")).count(), 200);
    assert!(out.starts_with("├── f000\n"));
}

#[test]
fn descent_rules() {
    assert!(tree_descends(true, "src", 0, 2));
    assert!(!tree_descends(true, "node_modules", 0, 2));
    assert!(!tree_descends(true, "src", 2, 2));
    assert!(!tree_descends(false, "a.rs", 0, 2));
}

#[test]
fn flat_listing() {
    let items = vec![(EntryKind::Dir, "src".to_string()), (EntryKind::File, "a".to_string()), (EntryKind::Unknown, "?x".to_string())];
    assert_eq!(list_dir_message(&items), "[DIR] src\n[FILE] a\n[?] ?x");
    assert_eq!(list_dir_message(&vec![]), "(empty directory)");
}
