use shuji::tool::dispatch::truncate_tool_result_by_name;

#[test]
fn short_results_pass_unchanged() {
    assert_eq!(truncate_tool_result_by_name("read_file", "hello"), "hello");
}

#[test]
fn command_results_are_cut_at_4000() {
    let long = "x".repeat(4001);
    let r = truncate_tool_result_by_name("execute_command", &long);
    assert!(r.starts_with(&"x".repeat(4000)));
    assert!(r.ends_with(
        "...\n[Truncated: showing first 4000 of 4001 chars. To continue, narrow your search and retry (truncated: true)]"
    ));
}

#[test]
fn other_tools_get_16000() {
    let long = "y".repeat(16000);
    assert_eq!(truncate_tool_result_by_name("anything", &long), long);
    let longer = "y".repeat(16001);
    assert!(truncate_tool_result_by_name("anything", &longer).contains("showing first 16000 of 16001"));
}

#[test]
fn limit_is_in_bytes_and_the_cut_in_characters() {
    let text = "é".repeat(5000);
    let r = truncate_tool_result_by_name("read_file", &text);
    assert!(r.starts_with(&"é".repeat(5000)));
    assert!(r.contains("showing first 8000 of 10000 chars"));
}

#[test]
fn known_departments() {
    for n in ["内阁", "中书令", "门下侍中", "尚书令", "吏部", "兵部", "工部", "刑部", "礼部", "cabinet", "rites", "war"] {
        assert!(shuji::tool::dispatch::is_known_department(n), "{n}");
    }
    for n in ["", "皇帝", "Cabinet", "warx"] {
        assert!(!shuji::tool::dispatch::is_known_department(n), "{n}");
    }
}
