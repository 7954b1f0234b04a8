use shuji::tool::audit_checks::{
    checklist_update_check, reauth_check, reauth_reply, violation_check, violation_recorded_message,
};

#[test]
fn audit_arguments_are_checked() {
    assert_eq!(checklist_update_check("", "pass"), Err("id and status cannot be empty"));
    assert_eq!(checklist_update_check("spec-001", ""), Err("id and status cannot be empty"));
    assert_eq!(checklist_update_check("spec-001", "pass"), Ok(()));
    assert_eq!(violation_check("", "d"), Err("rule_id and description cannot be empty"));
    assert_eq!(violation_check("r", "d"), Ok(()));
    assert_eq!(reauth_check("dsgn_1", ""), Err("subject and reason cannot be empty"));
    assert_eq!(reauth_check("dsgn_1", "fixed"), Ok(()));
}

#[test]
fn audit_replies() {
    assert_eq!(violation_recorded_message("spec-001", "no tests"), "Violation recorded: spec-001 — no tests");
    let o = reauth_reply("dsgn_4", "fixed the naming");
    assert!(o.ok);
    assert_eq!(o.operation, "route_to");
    assert_eq!(o.path.as_deref(), Some("dsgn_4"));
    assert_eq!(
        o.message.as_deref(),
        Some("Re-audit request submitted, auto-routing to Liburshangshu for re-inspection. fixed the naming")
    );
}
