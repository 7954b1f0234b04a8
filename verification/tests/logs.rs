use shuji::tool::logs::{decision_request, log_summary, LogEntry};

fn entry(ts: Option<&str>, author: Option<&str>, summary: Option<&str>) -> LogEntry {
    LogEntry {
        ts: ts.map(|s| s.to_string()),
        author: author.map(|s| s.to_string()),
        summary: summary.map(|s| s.to_string()),
    }
}

#[test]
fn log_summaries() {
    assert_eq!(log_summary(&vec![], 10, 0), "No log entries yet");
    let entries = vec![
        entry(Some("2024-05-01T10:11:12.345+08:00"), Some("工部"), Some("built it")),
        entry(None, None, None),
    ];
    assert_eq!(
        log_summary(&entries, 7, 3),
        "2 log entries (file has 7 lines, starting from line 3):\n\n[2024-05-01T10:11:12] 工部: built it\n[?] ?: "
    );
}

#[test]
fn decision_requests() {
    assert_eq!(decision_request(None).unwrap_err().code, "empty_options");
    assert_eq!(decision_request(Some(vec![])).unwrap_err().message, "options cannot be empty");
    assert_eq!(
        decision_request(Some(vec![Some("ship it".to_string()), None])).unwrap(),
        "[Waiting for emperor's decision] Please choose one:\n1. ship it\n2. (invalid option)"
    );
}
