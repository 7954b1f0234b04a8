//! The argument checks and replies of the checklist, violation and
//! re-inspection tools.
use crate::text::{chars_of, push_str, string_of};
use crate::tool::output::{success_of, ToolOutput};
use vstd::prelude::*;

verus! {

/// A checklist item update needs an item id and a status.
pub fn checklist_update_check(id: &str, status: &str) -> (r: Result<(), &'static str>)
    ensures
        (id@.len() == 0 || status@.len() == 0) ==> (r matches Err(m) && m@ == "id and status cannot be empty"@),
        (id@.len() > 0 && status@.len() > 0) ==> r is Ok,
{
    let iv = chars_of(id);
    let sv = chars_of(status);
    if iv.len() == 0 || sv.len() == 0 {
        Err("id and status cannot be empty")
    } else {
        Ok(())
    }
}

/// A violation needs a rule id and a description.
pub fn violation_check(rule_id: &str, description: &str) -> (r: Result<(), &'static str>)
    ensures
        (rule_id@.len() == 0 || description@.len() == 0) ==> (r matches Err(m) && m@
            == "rule_id and description cannot be empty"@),
        (rule_id@.len() > 0 && description@.len() > 0) ==> r is Ok,
{
    let rv = chars_of(rule_id);
    let dv = chars_of(description);
    if rv.len() == 0 || dv.len() == 0 {
        Err("rule_id and description cannot be empty")
    } else {
        Ok(())
    }
}

/// The message after a violation is recorded.
pub fn violation_recorded_message(rule_id: &str, description: &str) -> (r: String)
    ensures
        r@ == "Violation recorded: "@ + rule_id@ + " — "@ + description@,
{
    let mut m = chars_of("Violation recorded: ");
    push_str(&mut m, rule_id);
    push_str(&mut m, " — ");
    push_str(&mut m, description);
    string_of(m.as_slice())
}

/// A re-inspection request needs a subject and a reason.
pub fn reauth_check(subject: &str, reason: &str) -> (r: Result<(), &'static str>)
    ensures
        (subject@.len() == 0 || reason@.len() == 0) ==> (r matches Err(m) && m@
            == "subject and reason cannot be empty"@),
        (subject@.len() > 0 && reason@.len() > 0) ==> r is Ok,
{
    let sv = chars_of(subject);
    let rv = chars_of(reason);
    if sv.len() == 0 || rv.len() == 0 {
        Err("subject and reason cannot be empty")
    } else {
        Ok(())
    }
}

/// The reply to a re-inspection request: a route of `subject` to the rites
/// department, giving the reason.
pub fn reauth_reply(subject: &str, reason: &str) -> (r: ToolOutput)
    ensures
        success_of(
            r,
            "route_to"@,
            subject@,
            "Re-audit request submitted, auto-routing to Liburshangshu for re-inspection. "@ + reason@,
        ),
{
    let mut m = chars_of("Re-audit request submitted, auto-routing to Liburshangshu for re-inspection. ");
    push_str(&mut m, reason);
    let msg = string_of(m.as_slice());
    ToolOutput::success("route_to", subject, msg.as_str())
}

} // verus!
