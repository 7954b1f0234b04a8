use shuji::tool::command_ops::{
    classify_compile_output, classify_execution_failure, compute_failure_fingerprint,
    extract_diagnostic_excerpt, parse_test_output, rust_test_compile_cmd, smart_truncate_stderr,
    suggest_rust_diagnostic,
};
use shuji::tool::output::ToolOutput;

#[test]
fn test_rust_test_compile_cmd_unit() {
    let cmd = rust_test_compile_cmd("unit");
    assert!(cmd.contains("test --lib --no-run"));
}

#[test]
fn test_rust_test_compile_cmd_integration() {
    let cmd = rust_test_compile_cmd("integration");
    assert!(cmd.contains("test --tests --no-run"));
}

#[test]
fn test_rust_test_compile_cmd_all() {
    let cmd = rust_test_compile_cmd("all");
    assert!(cmd.contains("test --no-run"));
}

#[test]
fn test_rust_test_compile_cmd_unknown_scope() {
    let cmd = rust_test_compile_cmd("whatever");
    assert!(cmd.contains("test --no-run"));
}

#[test]
fn test_classify_compile_output_extracts_error_with_location() {
    let output = "\nerror[E0283]: type annotations needed for `LruCache<_, _>`\n  --> src/lib.rs:215:13\n";
    let result = classify_compile_output(output, 1);
    assert_eq!(result.errors.len(), 1);
    assert!(result.errors[0].contains("E0283"));
    assert!(result.errors[0].contains("src/lib.rs:215:13"));
    assert!(result.errors[0].contains("type annotations needed"));
    assert!(result.diagnostic_excerpt.is_none());
}

#[test]
fn test_classify_compile_output_classic_error_format() {
    let output = "error: could not compile `foo`\n  --> src/main.rs:10:5\n";
    let result = classify_compile_output(output, 1);
    assert_eq!(result.errors.len(), 1);
    assert!(result.errors[0].contains("could not compile"));
}

#[test]
fn test_classify_compile_output_multiple_errors() {
    let output = "\
error[E0308]: mismatched types
  --> src/main.rs:12:8
error[E0277]: trait bound not satisfied
  --> src/lib.rs:34:12
";
    let result = classify_compile_output(output, 1);
    assert_eq!(result.errors.len(), 2);
    assert!(result.errors[0].contains("E0308"));
    assert!(result.errors[1].contains("E0277"));
}

#[test]
fn test_classify_compile_output_counts_warnings() {
    let output = "\
warning: unused variable
warning: unused import
";
    let result = classify_compile_output(output, 0);
    assert_eq!(result.warning_count, 2);
}

#[test]
fn test_classify_compile_output_parsed_zero_shows_diagnostic_excerpt() {
    let output = "Caused by:\n  拒绝访问。 (os error 5)\n";
    let result = classify_compile_output(output, 1);
    assert!(result.errors.is_empty());
    assert!(result.diagnostic_excerpt.is_some());
    let excerpt = result.diagnostic_excerpt.unwrap();
    assert!(excerpt.contains("拒绝访问"));
}

#[test]
fn test_classify_execution_failure_cargo_lock() {
    let output = "error: failed to open: target/debug/.cargo-lock\nCaused by:\n  拒绝访问。";
    assert_eq!(classify_execution_failure(output), Some("environment_error"));
}

#[test]
fn test_classify_execution_failure_permission_denied() {
    let output = "error: Permission denied (os error 13)";
    assert_eq!(classify_execution_failure(output), Some("environment_error"));
}

#[test]
fn test_classify_execution_failure_access_denied() {
    let output = "Access is denied.";
    assert_eq!(classify_execution_failure(output), Some("environment_error"));
}

#[test]
fn test_classify_execution_failure_chinese() {
    let output = "拒绝访问。 (os error 5)";
    assert_eq!(classify_execution_failure(output), Some("environment_error"));
}

#[test]
fn test_classify_execution_failure_none_for_code_error() {
    let output = "error[E0283]: type annotations needed";
    assert_eq!(classify_execution_failure(output), None);
}

#[test]
fn test_classify_execution_failure_failed_to_open() {
    let output = "error: failed to open: some_file.rs";
    assert_eq!(classify_execution_failure(output), Some("environment_error"));
}

#[test]
fn test_extract_diagnostic_excerpt_prioritizes_error_lines() {
    let output = "\
Compiling foo v0.1.0
error: could not compile `foo`
Caused by:
  permission denied
  \\-- some normal line
";
    let excerpt = extract_diagnostic_excerpt(output, 3000);
    assert!(excerpt.contains("could not compile"));
    assert!(excerpt.contains("Caused by:"));
    assert!(excerpt.contains("permission denied"));
}

#[test]
fn test_extract_diagnostic_excerpt_max_chars() {
    let output = (0..100)
        .map(|i| format!("error: line{}", i))
        .collect::<Vec<_>>()
        .join("\n");
    let excerpt = extract_diagnostic_excerpt(&output, 500);
    assert!(excerpt.len() <= 500);
    assert!(excerpt.starts_with("error: line"));
}

#[test]
fn test_smart_truncate_stderr_preserves_key_lines() {
    let stderr = "\
   Compiling foo v0.1.0
error[E0283]: type annotations needed
  --> src/lib.rs:215:13
   Compiling bar v0.2.0
";
    let truncated = smart_truncate_stderr(stderr, 200);
    assert!(truncated.contains("E0283"));
    assert!(truncated.contains("src/lib.rs:215:13"));
}

#[test]
fn test_smart_truncate_stderr_with_env_errors() {
    let stderr = "error: failed to open: target/debug/.cargo-lock\nCaused by:\n  拒绝访问。 (os error 5)\n";
    let truncated = smart_truncate_stderr(stderr, 1000);
    assert!(truncated.contains(".cargo-lock"));
    assert!(truncated.contains("拒绝访问"));
}

#[test]
fn test_smart_truncate_stderr_falls_back_to_head() {
    let stderr = "normal line\n".repeat(100);
    let truncated = smart_truncate_stderr(&stderr, 200);
    assert!(truncated.contains("[Truncated"));
}

#[test]
fn test_smart_truncate_stderr_short_no_truncation() {
    let stderr = "error[E0283]: type annotations needed";
    let truncated = smart_truncate_stderr(stderr, 1000);
    assert_eq!(truncated, stderr);
}

#[test]
fn test_parse_test_output_rust() {
    let stdout = "\
test test_create_user ... ok
test test_delete_user ... FAILED

test result: FAILED. 7 passed; 1 failed; 0 ignored; 0 measured; 0 filtered out
";
    let (passed, failed, total) = parse_test_output(stdout, "");
    assert_eq!(passed, Some(7));
    assert_eq!(failed, Some(1));
    assert!(total.unwrap() >= 2);
}

#[test]
fn test_parse_test_output_pytest() {
    let stdout = "= 5 passed, 2 failed in 0.05s =\n";
    let (passed, failed, _) = parse_test_output(stdout, "");
    assert_eq!(passed, Some(5));
    assert_eq!(failed, Some(2));
}

#[test]
fn test_parse_test_output_empty() {
    let (passed, failed, total) = parse_test_output("No tests found", "");
    assert!(passed.is_none());
    assert!(failed.is_none());
    assert!(total.is_none());
}

#[test]
fn test_compute_fingerprint_rustc_error_with_location() {
    let output = "\nerror[E0283]: type annotations needed\n  --> src/lib.rs:215:13\n";
    let fp = compute_failure_fingerprint(output, "compile_error");
    assert!(fp.starts_with("compile_error|rustc|E0283|"));
    assert!(fp.contains("src/lib.rs"));
}

#[test]
fn fingerprint_keeps_file_and_line() {
    let output = "\nerror[E0283]: type annotations needed\n  --> src/lib.rs:215:13\n";
    assert_eq!(compute_failure_fingerprint(output, "compile_error"), "compile_error|rustc|E0283|src/lib.rs:215");
    let no_col = "error[E0308]: mismatched types\n --> src/main.rs:7\n";
    assert_eq!(compute_failure_fingerprint(no_col, "compile_error"), "compile_error|rustc|E0308|src/main.rs:7");
}

#[test]
fn test_compute_fingerprint_rustc_error_no_location() {
    let output = "error[E0308]: mismatched types\n";
    let fp = compute_failure_fingerprint(output, "compile_error");
    assert_eq!(fp, "compile_error|rustc|E0308");
}

#[test]
fn test_compute_fingerprint_classic_error() {
    let output = "error: could not compile `foo`\n";
    let fp = compute_failure_fingerprint(output, "compile_error");
    assert!(fp.starts_with("compile_error|rustc_msg|"));
    assert!(fp.contains("could not compile"));
}

#[test]
fn test_compute_fingerprint_test_failure() {
    let output = "test test_create_user ... FAILED\n";
    let fp = compute_failure_fingerprint(output, "test_failure");
    assert_eq!(fp, "test_failure|test_fail|test_create_user");
}

#[test]
fn test_compute_fingerprint_environment_error_cargo_lock() {
    let output = "error: failed to open: target/debug/.cargo-lock\nCaused by:\n  拒绝访问。\n";
    let fp = compute_failure_fingerprint(output, "environment_error");
    assert_eq!(fp, "environment_error|env|.cargo-lock");
}

#[test]
fn test_compute_fingerprint_environment_error_permission() {
    let output = "error: Permission denied (os error 13)\n";
    let fp = compute_failure_fingerprint(output, "environment_error");
    assert!(fp.starts_with("environment_error|rustc_msg|"));
    assert!(fp.contains("Permission"));
}

#[test]
fn test_compute_fingerprint_unknown_fallback() {
    let output = "Something went wrong but no clear pattern\n";
    let fp = compute_failure_fingerprint(output, "tool_error");
    assert_eq!(fp, "tool_error|unknown");
}

#[test]
fn test_suggest_rust_diagnostic_compile_error() {
    let output = "error[E0283]: type annotations needed\n";
    let suggested = suggest_rust_diagnostic("compile_error", output, "unit");
    assert!(suggested.iter().any(|s| s.contains("rustc --explain E0283")));
    assert!(suggested.iter().any(|s| s.contains("cargo test --lib --no-run")));
}

#[test]
fn test_suggest_rust_diagnostic_compile_error_integration() {
    let output = "error[E0308]: mismatched types\n";
    let suggested = suggest_rust_diagnostic("compile_error", output, "integration");
    assert!(suggested.iter().any(|s| s.contains("rustc --explain E0308")));
    assert!(suggested.iter().any(|s| s.contains("cargo test --tests --no-run")));
}

#[test]
fn test_suggest_rust_diagnostic_test_failure() {
    let output = "test result: FAILED. 7 passed; 1 failed\n";
    let suggested = suggest_rust_diagnostic("test_failure", output, "unit");
    assert!(suggested.iter().any(|s| s.contains("--nocapture")));
}

#[test]
fn test_suggest_rust_diagnostic_environment_error() {
    let output = "error: failed to open: target/debug/.cargo-lock\n";
    let suggested = suggest_rust_diagnostic("environment_error", output, "all");
    assert!(suggested.iter().any(|s| s.contains("permissions")));
    assert!(suggested.iter().any(|s| s.contains(".cargo-lock")));
}

#[test]
fn test_suggest_rust_diagnostic_unknown() {
    let suggested = suggest_rust_diagnostic("unknown_error", "", "all");
    assert!(suggested.is_empty());
}

#[test]
fn test_diagnostic_error_includes_all_fields() {
    let o = ToolOutput::diagnostic_error(
        "run_tests",
        "",
        "compile_error",
        "Compilation failed",
        "structured",
        "compile_error|rustc|E0283|lib.rs",
        true,
        vec!["rustc --explain E0283".to_string()],
    );
    assert!(!o.ok);
    assert_eq!(o.error_code.as_deref(), Some("compile_error"));
    assert_eq!(o.diagnostic_grade.as_deref(), Some("structured"));
    assert_eq!(o.failure_fingerprint.as_deref(), Some("compile_error|rustc|E0283|lib.rs"));
    assert_eq!(o.should_modify_code, Some(true));
    assert_eq!(o.suggested_next.as_ref().unwrap()[0], "rustc --explain E0283");
}

#[test]
fn test_diagnostic_error_environment() {
    let o = ToolOutput::diagnostic_error(
        "run_tests",
        "",
        "environment_error",
        "Environment issue detected",
        "raw_excerpt",
        "environment_error|env|.cargo-lock",
        false,
        vec![],
    );
    assert!(!o.ok);
    assert_eq!(o.error_code.as_deref(), Some("environment_error"));
    assert_eq!(o.should_modify_code, Some(false));
    assert_eq!(o.diagnostic_grade.as_deref(), Some("raw_excerpt"));
    assert!(o.suggested_next.is_none());
}
