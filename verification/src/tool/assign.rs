//! Handing a task to a ministry and waiting for its reply: the checks
//! before the task is sent, and the answer made of what came back.
use crate::text::{chars_of, push_str, string_of};
use vstd::prelude::*;

verus! {

/// The answer of a task assignment (operation `assign_task`).
#[derive(Debug)]
pub struct AssignReply {
    pub ok: bool,
    pub message: String,
    pub error_code: Option<String>,
    /// The department that carried the task out (on success).
    pub department: Option<String>,
    /// What the department handed back (on success).
    pub result: Option<String>,
}

/// `r` is the failure with this code and message.
pub open spec fn assign_failure(r: AssignReply, code: Seq<char>, message: Seq<char>) -> bool {
    &&& !r.ok
    &&& r.message@ == message
    &&& r.error_code matches Some(c) && c@ == code
    &&& r.department is None
    &&& r.result is None
}

/// What is known before the task is sent.
#[derive(Debug)]
pub enum AssignStep {
    /// The assignment is refused with this answer.
    Refuse(AssignReply),
    /// The task is sent to the department.
    Send,
}

fn failure(code: &str, message: Vec<char>) -> (r: AssignReply)
    ensures
        assign_failure(r, code@, message@),
{
    let c = chars_of(code);
    AssignReply {
        ok: false,
        message: string_of(message.as_slice()),
        error_code: Some(string_of(c.as_slice())),
        department: None,
        result: None,
    }
}

/// The checks before a task goes out, in this order: a target and a task
/// are needed, the target must name a department (`role_known`), the
/// departments must be reachable (`peers_ready`), and the target's must
/// (`channel_found`).
pub fn assign_task_check(
    to: &str,
    task: &str,
    role_known: bool,
    peers_ready: bool,
    channel_found: bool,
) -> (r: AssignStep)
    ensures
        to@.len() == 0 ==> (r matches AssignStep::Refuse(a) && assign_failure(
            a,
            "missing_target"@,
            "Missing target department (to parameter)"@,
        )),
        to@.len() > 0 && task@.len() == 0 ==> (r matches AssignStep::Refuse(a) && assign_failure(
            a,
            "missing_task"@,
            "Missing task description (task parameter)"@,
        )),
        to@.len() > 0 && task@.len() > 0 && !role_known ==> (r matches AssignStep::Refuse(a)
            && assign_failure(a, "unknown_department"@, "Unknown department: "@ + to@)),
        to@.len() > 0 && task@.len() > 0 && role_known && !peers_ready ==> (r matches AssignStep::Refuse(
            a,
        ) && assign_failure(
            a,
            "no_peers"@,
            "Dispatch system not initialized (peers unavailable)"@,
        )),
        to@.len() > 0 && task@.len() > 0 && role_known && peers_ready && !channel_found ==> (r matches AssignStep::Refuse(
            a,
        ) && assign_failure(a, "channel_not_found"@, "Cannot find channel for "@ + to@)),
        to@.len() > 0 && task@.len() > 0 && role_known && peers_ready && channel_found ==> r is Send,
{
    let tv = chars_of(to);
    if tv.len() == 0 {
        return AssignStep::Refuse(
            failure("missing_target", chars_of("Missing target department (to parameter)")),
        );
    }
    let kv = chars_of(task);
    if kv.len() == 0 {
        return AssignStep::Refuse(
            failure("missing_task", chars_of("Missing task description (task parameter)")),
        );
    }
    if !role_known {
        let mut m = chars_of("Unknown department: ");
        push_str(&mut m, to);
        return AssignStep::Refuse(failure("unknown_department", m));
    }
    if !peers_ready {
        return AssignStep::Refuse(
            failure("no_peers", chars_of("Dispatch system not initialized (peers unavailable)")),
        );
    }
    if !channel_found {
        let mut m = chars_of("Cannot find channel for ");
        push_str(&mut m, to);
        return AssignStep::Refuse(failure("channel_not_found", m));
    }
    AssignStep::Send
}

/// How a sent task ended.
#[derive(Debug)]
pub enum AssignOutcome {
    /// The task could not be sent; the channel's error text.
    SendFailed(String),
    /// The department replied with this output.
    Completed(String),
    /// The reply channel closed without a reply.
    Closed,
}

/// The answer once the task to department `to` has ended.
pub fn assign_task_reply(to: &str, outcome: AssignOutcome) -> (r: AssignReply)
    ensures
        match outcome {
            AssignOutcome::SendFailed(e) => assign_failure(
                r,
                "send_failed"@,
                "Failed to send message to "@ + to@ + ": "@ + e@,
            ),
            AssignOutcome::Completed(out) => {
                &&& r.ok
                &&& r.message@ == to@ + " task completed"@
                &&& r.error_code is None
                &&& r.department matches Some(d) && d@ == to@
                &&& r.result matches Some(x) && x@ == out@
            },
            AssignOutcome::Closed => assign_failure(
                r,
                "channel_closed"@,
                to@ + " channel unexpectedly closed during execution"@,
            ),
        },
{
    match outcome {
        AssignOutcome::SendFailed(e) => {
            let mut m = chars_of("Failed to send message to ");
            push_str(&mut m, to);
            push_str(&mut m, ": ");
            push_str(&mut m, e.as_str());
            failure("send_failed", m)
        },
        AssignOutcome::Completed(out) => {
            let mut m = chars_of(to);
            push_str(&mut m, " task completed");
            let d = chars_of(to);
            AssignReply {
                ok: true,
                message: string_of(m.as_slice()),
                error_code: None,
                department: Some(string_of(d.as_slice())),
                result: Some(out),
            }
        },
        AssignOutcome::Closed => {
            let mut m = chars_of(to);
            push_str(&mut m, " channel unexpectedly closed during execution");
            failure("channel_closed", m)
        },
    }
}

} // verus!
