//! Per-project workflow configuration: the task intent, the governance
//! level, and a one-shot intent override.
use crate::workflow::resolver::{Governance, Intent};
use vstd::prelude::*;

verus! {

/// Per-project workflow configuration.
#[derive(Debug, Clone, Copy, PartialEq, Eq, Structural)]
pub struct WorkflowConfig {
    /// What kind of task this is.
    pub intent: Intent,
    /// How thorough the process should be.
    pub governance: Governance,
    /// One-shot override of `intent`, cleared once read.
    pub intent_override: Option<Intent>,
}

impl WorkflowConfig {
    /// The intent in force: the override if set, else the configured intent.
    pub fn effective_intent(&self) -> (r: Intent)
        ensures
            r == (match self.intent_override {
                Some(i) => i,
                None => self.intent,
            }),
    {
        match self.intent_override {
            Some(i) => i,
            None => self.intent,
        }
    }

    /// Takes the override, leaving none.
    pub fn take_override(&mut self) -> (r: Option<Intent>)
        ensures
            r == old(self).intent_override,
            final(self).intent_override is None,
            final(self).intent == old(self).intent,
            final(self).governance == old(self).governance,
    {
        let r = self.intent_override;
        self.intent_override = None;
        r
    }
}

impl Default for WorkflowConfig {
    /// Auto intent, standard governance, no override.
    fn default() -> (c: Self)
        ensures
            c.intent == Intent::Auto,
            c.governance == Governance::Standard,
            c.intent_override is None,
    {
        WorkflowConfig { intent: Intent::Auto, governance: Governance::Standard, intent_override: None }
    }
}

} // verus!
