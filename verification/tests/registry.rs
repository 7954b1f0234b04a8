use shuji::tool::registry::{
    code_inspect_tools, doc_inspect_tools, document_tools, execute_command_tool, file_write_tools,
    file_write_tools_for_code, inspect_tools, minimal_inspect_tools, run_tests_tool, summarize_logs_tool,
};

#[test]
fn inspection_groups() {
    assert_eq!(doc_inspect_tools(), vec!["read_document", "list_dir", "search_text"]);
    assert_eq!(code_inspect_tools(), vec!["read_file", "list_dir_tree", "search_text"]);
    assert_eq!(minimal_inspect_tools(), vec!["read_document", "list_dir"]);
    assert_eq!(inspect_tools(), doc_inspect_tools());
}

#[test]
fn code_writers_get_no_whole_file_rewrites() {
    let code = file_write_tools_for_code();
    assert!(!code.contains(&"modify_file".to_string()));
    assert!(!code.contains(&"append_file".to_string()));
    assert_eq!(file_write_tools().len(), 7);
    assert!(code.iter().all(|t| file_write_tools().contains(t)));
}

#[test]
fn single_tool_groups() {
    assert_eq!(document_tools(), vec!["create_document", "modify_document", "append_document", "set_document_status"]);
    assert_eq!(execute_command_tool(), vec!["execute_command"]);
    assert_eq!(run_tests_tool(), vec!["run_tests"]);
    assert_eq!(summarize_logs_tool(), vec!["summarize_logs"]);
}
