//! Usage-update notices for the sidebar: which role's token usage or
//! saved context changed.
use crate::text::{chars_of, string_of};
use vstd::prelude::*;

verus! {

/// What changed for a role.
#[derive(Debug, Clone, Copy, PartialEq, Eq, Structural)]
pub enum UsageUpdateKind {
    Token,
    Context,
}

/// A notice that a role's usage changed.
#[derive(Debug)]
pub struct UsageUpdate {
    pub role: String,
    pub kind: UsageUpdateKind,
}

impl UsageUpdate {
    /// The notice for `role`.
    pub fn new(role: &str, kind: UsageUpdateKind) -> (r: UsageUpdate)
        ensures
            r.role@ == role@,
            r.kind == kind,
    {
        let v = chars_of(role);
        UsageUpdate { role: string_of(v.as_slice()), kind }
    }
}

/// The sending half of the channel that carries usage notices to the
/// sidebar.
#[verifier::external_type_specification]
#[verifier::external_body]
#[verifier::reject_recursive_types(T)]
pub struct ExUnboundedSender<T>(tokio::sync::mpsc::UnboundedSender<T>);

/// Calls `tokio::sync::mpsc::UnboundedSender::send`, dropping the error it
/// gives back when the receiving half is closed. Nothing is promised of
/// the channel.
#[verifier::external_body]
fn send_update(tx: &tokio::sync::mpsc::UnboundedSender<UsageUpdate>, update: UsageUpdate) {
    let _ = tx.send(update);
}

/// Fire-and-forget notice that `role`'s usage changed: sent when a sender
/// is registered, dropped when none is.
pub fn notify(sender: Option<&tokio::sync::mpsc::UnboundedSender<UsageUpdate>>, role: &str, kind: UsageUpdateKind) {
    if let Some(tx) = sender {
        send_update(tx, UsageUpdate::new(role, kind));
    }
}

} // verus!
