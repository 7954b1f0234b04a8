use shuji::tool::search::{
    collect_matches, is_skipped_dir, rg_report, search_report, search_takes_file,
    simple_glob_match,
};

#[test]
fn glob_wildcards() {
    assert!(simple_glob_match("main.rs", "*.rs"));
    assert!(!simple_glob_match("main.rs", "*.py"));
    assert!(simple_glob_match("a.rs", "?.rs"));
    assert!(!simple_glob_match("ab.rs", "?.rs"));
    assert!(simple_glob_match("anything", "*"));
    assert!(simple_glob_match("", "*"));
    assert!(!simple_glob_match("x", ""));
    assert!(simple_glob_match("test_a_b.py", "test_*_*.py"));
}

#[test]
fn empty_glob_takes_every_file() {
    assert!(search_takes_file("x.txt", Some("")));
    assert!(search_takes_file("x.txt", None));
    assert!(!search_takes_file("x.txt", Some("*.rs")));
}

#[test]
fn skipped_folders() {
    assert!(is_skipped_dir("node_modules"));
    assert!(is_skipped_dir(".git"));
    assert!(!is_skipped_dir("src"));
}

#[test]
fn matches_are_numbered_and_capped() {
    let mut results = Vec::new();
    collect_matches("src/a.rs", "foo\nbar\nfoo bar\n", "foo", true, 10, &mut results);
    assert_eq!(results, vec!["src/a.rs:1:foo".to_string(), "src/a.rs:3:foo bar".to_string()]);
    let mut capped = Vec::new();
    collect_matches("a", "x\nx\nx\n", "x", true, 2, &mut capped);
    assert_eq!(capped.len(), 2);
}

#[test]
fn case_insensitive_matching() {
    let mut results = Vec::new();
    collect_matches("a", "Hello\nworld\n", "HELLO", false, 10, &mut results);
    assert_eq!(results, vec!["a:1:Hello".to_string()]);
    let mut none = Vec::new();
    collect_matches("a", "Hello\n", "HELLO", true, 10, &mut none);
    assert!(none.is_empty());
}

#[test]
fn a_full_result_list_still_takes_one_more_match() {
    let mut results = vec!["old".to_string()];
    collect_matches("a", "x\nx\n", "x", true, 1, &mut results);
    assert_eq!(results.len(), 2);
}

#[test]
fn reports_with_and_without_matches() {
    let r = search_report(&vec!["a:1:x".to_string()], 3, 0, "x", None);
    assert_eq!(r, "找到 1 个匹配（共扫描 3 文件）：\na:1:x");
    let r = search_report(&vec![], 3, 2, "x", Some("*.rs"));
    assert_eq!(r, "在 3 文件中搜索「x」（*.rs），未找到匹配（2 个文件跳过）");
    let r = search_report(&vec![], 0, 0, "x", Some(""));
    assert_eq!(r, "在 0 文件中搜索「x」，未找到匹配");
}

#[test]
fn ripgrep_json_lines_become_results() {
    let begin = r#"{"type":"begin","data":{"path":{"text":"src/a.rs"}}}"#;
    let hit = r#"{"type":"match","data":{"path":{"text":"src/a.rs"},"lines":{"text":"  let x = 1;\n"},"line_number":7}}"#;
    let owned = [begin, hit, "not json"].join("\n");
    let out = owned.as_str();
    assert_eq!(rg_report(out, 50).as_deref(), Some("[ripgrep] 匹配 1 处：\nsrc/a.rs:7:let x = 1;"));
    assert_eq!(rg_report("not json\n", 50), None);
    assert_eq!(rg_report(out, 0), None);
}
