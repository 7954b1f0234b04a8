use shuji::tool::output::ToolOutput;

#[test]
fn test_command_success() {
    let o = ToolOutput::command("execute_command", 0, "hello\nworld", "", false, 1000, 1000);
    assert!(o.ok);
    assert_eq!(o.operation, "execute_command");
    assert_eq!(o.exit_code, Some(0));
    assert_eq!(o.stdout.as_deref(), Some("hello\nworld"));
    assert!(o.stderr.is_none() || o.stderr.as_deref().unwrap_or("").is_empty());
    assert!(o.timed_out.is_none());
    assert!(o.truncated.is_none());
}

#[test]
fn test_command_non_zero_exit() {
    let o = ToolOutput::command("execute_command", 1, "stdout data", "error msg", false, 1000, 1000);
    assert!(!o.ok);
    assert_eq!(o.error_code.as_deref(), Some("non_zero_exit"));
    assert_eq!(o.exit_code, Some(1));
    assert_eq!(o.stderr.as_deref(), Some("error msg"));
}

#[test]
fn test_command_timeout() {
    let o = ToolOutput::command("execute_command", -1, "", "timed out", true, 1000, 1000);
    assert!(!o.ok);
    assert_eq!(o.error_code.as_deref(), Some("timeout"));
    assert_eq!(o.timed_out, Some(true));
}

#[test]
fn test_command_stdout_truncation() {
    let long_stdout = "a".repeat(500);
    let o = ToolOutput::command("execute_command", 0, &long_stdout, "", false, 100, 1000);
    assert!(o.ok);
    let displayed = o.stdout.unwrap();
    assert!(displayed.len() < 500);
    assert!(displayed.contains("[Truncated:"));
    assert_eq!(o.truncated.as_ref().unwrap().stdout, Some(true));
    assert_eq!(o.truncated.as_ref().unwrap().stderr, None);
}

#[test]
fn test_is_error_timeout_text() {
    assert!(ToolOutput::is_error("Command timed out"));
    assert!(ToolOutput::is_error("timeout"));
    assert!(ToolOutput::is_error("Task failed with error"));
}

#[test]
fn test_is_error_json_ok() {
    assert!(!ToolOutput::is_error(r#"{"ok":true,"operation":"test","path":"file.rs","message":"all good"}"#));
}

#[test]
fn test_is_error_json_not_ok() {
    assert!(ToolOutput::is_error(
        r#"{"ok":false,"operation":"test","path":"","error_code":"some_error","message":"something broke"}"#
    ));
}

#[test]
fn test_command_diagnostic_grade_on_failure() {
    let o = ToolOutput::command("execute_command", 1, "", "error", false, 1000, 1000);
    assert_eq!(o.diagnostic_grade.as_deref(), Some("raw_excerpt"));
}

#[test]
fn test_command_diagnostic_grade_on_timeout() {
    let o = ToolOutput::command("execute_command", -1, "", "timeout", true, 1000, 1000);
    assert_eq!(o.diagnostic_grade.as_deref(), Some("timeout"));
}

#[test]
fn test_command_diagnostic_grade_on_success() {
    let o = ToolOutput::command("execute_command", 0, "ok", "", false, 1000, 1000);
    assert!(o.diagnostic_grade.is_none());
}

#[test]
fn command_message_gives_exit_code_and_sizes() {
    let o = ToolOutput::command("execute_command", 2, "abc", "de", false, 1000, 1000);
    assert_eq!(
        o.message.as_deref(),
        Some("Command failed (exit=2). stdout: 3 bytes, stderr: 2 bytes")
    );
    let ok = ToolOutput::command("execute_command", 0, "abc", "", false, 1000, 1000);
    assert_eq!(
        ok.message.as_deref(),
        Some("Command executed successfully (exit=0). stdout: 3 bytes")
    );
}

#[test]
fn truncation_note_counts_bytes_at_a_char_boundary() {
    let (cut, text) = ToolOutput::truncate_if_needed("ééé", 3);
    assert!(cut);
    assert_eq!(text, "é...\n[Truncated: 6 chars, showing first 2]");
    let (cut, text) = ToolOutput::truncate_if_needed("abc", 3);
    assert!(!cut);
    assert_eq!(text, "abc");
}

#[test]
fn error_code_and_message_are_read_back() {
    let raw = r#"{"ok":false,"operation":"x","error_code":"boom","message":"went wrong"}"#;
    assert_eq!(ToolOutput::error_code(raw).as_deref(), Some("boom"));
    assert_eq!(ToolOutput::extract_message(raw).as_deref(), Some("went wrong"));
    assert_eq!(ToolOutput::error_code(r#"{"ok":true,"error_code":"boom"}"#), None);
    assert_eq!(ToolOutput::error_code("not json"), None);
    assert_eq!(ToolOutput::extract_message("not json"), None);
}

#[test]
fn json_without_boolean_ok_falls_back_to_words() {
    assert!(!ToolOutput::is_error(r#"{"message":"all fine"}"#));
    assert!(ToolOutput::is_error(r#"{"ok":"no","message":"ERROR here"}"#));
}

#[test]
fn builders_set_their_fields() {
    let e = ToolOutput::error("create_file", "a.txt", "empty_path", "no path");
    assert!(!e.ok);
    assert_eq!(e.path.as_deref(), Some("a.txt"));
    assert_eq!(e.error_code.as_deref(), Some("empty_path"));
    let r = ToolOutput::read_file("read_file", "a.txt", "héllo");
    assert_eq!(r.message.as_deref(), Some("Total 6 bytes. Content:\nhéllo"));
    let s = ToolOutput::success_raw("x", "done");
    assert!(s.ok && s.path.is_none());
}

#[test]
fn successes_can_carry_a_warning() {
    let o = ToolOutput::success_with_warning("create_document", "plan_3", "stale_ref", "plan_2 is rejected");
    assert!(o.ok);
    assert_eq!(o.path.as_deref(), Some("plan_3"));
    assert_eq!(o.message.as_deref(), Some("Created. Note: plan_2 is rejected."));
    let w = o.warning.unwrap();
    assert_eq!((w.code.as_str(), w.message.as_str()), ("stale_ref", "plan_2 is rejected"));
}
