//! The current workflow profile and stage, as recorded during a session.
use crate::keyed::{keys_unique, lookup, set_key};
use vstd::prelude::*;

verus! {

/// Workflow state recorded during a session.
#[derive(Debug, Clone)]
pub struct WorkflowState {
    /// Active profile id, e.g. "brownfield_optimize".
    pub profile_id: String,
    /// Governance level.
    pub governance: String,
    /// Execution chain id, e.g. "brownfield_patch".
    pub execution_chain_id: String,
    /// Current stage: "init", "planning", "approval", "execution", "summary", "done".
    pub current_stage: String,
    /// Artifacts created during the workflow, by name.
    pub artifacts: Vec<(String, String)>,
}

impl WorkflowState {
    /// The artifact recorded under `key`.
    pub open spec fn artifact(self, key: Seq<char>) -> Option<Seq<char>> {
        match lookup(self.artifacts@, key) {
            Some(v) => Some(v@),
            None => None,
        }
    }

    /// A fresh state at stage "init" with no artifacts.
    pub fn new(profile_id: &str, governance: &str, execution_chain_id: &str) -> (s: Self)
        ensures
            s.profile_id@ == profile_id@,
            s.governance@ == governance@,
            s.execution_chain_id@ == execution_chain_id@,
            s.current_stage@ == "init"@,
            s.artifacts@.len() == 0,
    {
        WorkflowState {
            profile_id: profile_id.to_owned(),
            governance: governance.to_owned(),
            execution_chain_id: execution_chain_id.to_owned(),
            current_stage: "init".to_owned(),
            artifacts: Vec::new(),
        }
    }

    /// Moves to stage `stage`.
    pub fn transition(&mut self, stage: &str)
        ensures
            final(self).current_stage@ == stage@,
            final(self).profile_id == old(self).profile_id,
            final(self).governance == old(self).governance,
            final(self).execution_chain_id == old(self).execution_chain_id,
            final(self).artifacts == old(self).artifacts,
    {
        self.current_stage = stage.to_owned();
    }

    /// Records artifact `key` = `value`, replacing an earlier one of that name.
    pub fn add_artifact(&mut self, key: &str, value: &str)
        requires
            keys_unique(old(self).artifacts@),
        ensures
            keys_unique(final(self).artifacts@),
            forall|k: Seq<char>| #[trigger] final(self).artifact(k) == (if k == key@ {
                Some(value@)
            } else {
                old(self).artifact(k)
            }),
            final(self).current_stage == old(self).current_stage,
            final(self).profile_id == old(self).profile_id,
            final(self).governance == old(self).governance,
            final(self).execution_chain_id == old(self).execution_chain_id,
    {
        let k = key.to_owned();
        let v = value.to_owned();
        let ghost vv = v@;
        set_key(&mut self.artifacts, &k, v);
        proof {
            assert forall|kk: Seq<char>| #[trigger] self.artifact(kk) == (if kk == key@ {
                Some(value@)
            } else {
                old(self).artifact(kk)
            }) by {
                assert(lookup(self.artifacts@, kk) == (if kk == k@ { Some(v) } else { lookup(old(self).artifacts@, kk) }));
            }
        }
    }
}

} // verus!
