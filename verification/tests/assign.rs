use shuji::tool::assign::{assign_task_check, assign_task_reply, AssignOutcome, AssignStep};

fn refused(s: AssignStep) -> (String, String) {
    match s {
        AssignStep::Refuse(r) => {
            assert!(!r.ok);
            (r.error_code.unwrap(), r.message)
        }
        AssignStep::Send => panic!("expected a refusal"),
    }
}

#[test]
fn assignment_checks_in_order() {
    assert_eq!(
        refused(assign_task_check("", "", false, false, false)),
        ("missing_target".to_string(), "Missing target department (to parameter)".to_string())
    );
    assert_eq!(
        refused(assign_task_check("工部", "", true, true, true)).0,
        "missing_task"
    );
    assert_eq!(
        refused(assign_task_check("火部", "build", false, true, true)),
        ("unknown_department".to_string(), "Unknown department: 火部".to_string())
    );
    assert_eq!(refused(assign_task_check("工部", "build", true, false, true)).0, "no_peers");
    assert_eq!(
        refused(assign_task_check("工部", "build", true, true, false)),
        ("channel_not_found".to_string(), "Cannot find channel for 工部".to_string())
    );
    assert!(matches!(assign_task_check("工部", "build", true, true, true), AssignStep::Send));
}

#[test]
fn assignment_replies() {
    let r = assign_task_reply("工部", AssignOutcome::Completed("done: 3 files".to_string()));
    assert!(r.ok);
    assert_eq!(r.message, "工部 task completed");
    assert_eq!(r.department.as_deref(), Some("工部"));
    assert_eq!(r.result.as_deref(), Some("done: 3 files"));
    let r = assign_task_reply("工部", AssignOutcome::SendFailed("closed".to_string()));
    assert_eq!(r.error_code.as_deref(), Some("send_failed"));
    assert_eq!(r.message, "Failed to send message to 工部: closed");
    let r = assign_task_reply("工部", AssignOutcome::Closed);
    assert_eq!(r.error_code.as_deref(), Some("channel_closed"));
    assert_eq!(r.message, "工部 channel unexpectedly closed during execution");
}
