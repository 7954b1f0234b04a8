//! Resolution of the configured intent and governance, together with the
//! routing heuristic's suggestion, into the profile that drives a session.
use crate::text::{push_str, string_of};
use crate::workflow::config::WorkflowConfig;
use crate::workflow::profile::{build_active, profile_is, static_profile, ActiveProfile};
use vstd::prelude::*;

verus! {

/// What kind of task this is.
#[derive(Debug, Clone, Copy, PartialEq, Eq, Structural)]
pub enum Intent {
    Auto,
    GreenfieldStandard,
    BrownfieldOptimize,
    Bugfix,
    Demo,
}

/// How thorough the process should be.
#[derive(Debug, Clone, Copy, PartialEq, Eq, Structural)]
pub enum Governance {
    Full,
    Standard,
    Fast,
    Audit,
}

/// How sure the routing heuristic is of its suggestion.
#[derive(Debug, Clone, Copy, PartialEq, Eq, Structural)]
pub enum Confidence {
    Low,
    Medium,
    High,
}

/// A workflow skill suggested by the routing heuristic.
#[derive(Debug, Clone)]
pub struct RoutingSuggestion {
    pub skill: String,
    pub confidence: Confidence,
}

/// The resolved profile, an optional hint for the cabinet session, and
/// whether the profile is locked or only suggested.
#[derive(Debug)]
pub struct ResolveResult {
    pub profile: ActiveProfile,
    pub hint: Option<String>,
    pub locked: bool,
}

/// Resolves a configuration into an active profile.
pub struct WorkflowResolver;

/// The serialized name of an intent.
pub open spec fn intent_name(i: Intent) -> Seq<char> {
    match i {
        Intent::Auto => "auto"@,
        Intent::GreenfieldStandard => "greenfield_standard"@,
        Intent::BrownfieldOptimize => "brownfield_optimize"@,
        Intent::Bugfix => "bugfix"@,
        Intent::Demo => "demo"@,
    }
}

/// The serialized name of a governance level.
pub open spec fn governance_name(g: Governance) -> Seq<char> {
    match g {
        Governance::Full => "full"@,
        Governance::Standard => "standard"@,
        Governance::Fast => "fast"@,
        Governance::Audit => "audit"@,
    }
}

/// The profile id a routing skill maps to.
pub open spec fn skill_profile(skill: Seq<char>) -> Option<Seq<char>> {
    if skill == "workflow_standard"@ || skill == "workflow_simple"@ || skill == "workflow_complex"@ {
        Some("greenfield_standard"@)
    } else if skill == "workflow_optimize"@ {
        Some("brownfield_optimize"@)
    } else if skill == "workflow_bugfix"@ {
        Some("bugfix"@)
    } else if skill == "workflow_demo"@ {
        Some("demo"@)
    } else {
        None
    }
}

/// The hint given when the task type is unclear.
pub open spec fn decision_hint() -> Seq<char> {
    "[Workflow Decision Required]\nThe task type is not clear from keywords. You MUST use the <options> tag to present workflow choices to the emperor. Do NOT silently proceed with a default workflow. Available intents: greenfield_standard (新功能), brownfield_optimize (存量优化), bugfix (缺陷修复), demo (快速原型)."@
}

/// The hint given for a suggestion of medium confidence.
pub open spec fn suggestion_hint(skill: Seq<char>) -> Seq<char> {
    "[Workflow Suggestion: "@ + skill + "]\nThis task appears to match the "@ + skill
        + " workflow. Consider activating it with the <skill> tag, or use <options> if you need clarification."@
}

/// The profile id that resolution picks, the hint it gives and whether it locks.
pub open spec fn resolution(effective: Intent, suggestion: Option<(Seq<char>, Confidence)>) -> (Seq<char>, Option<Seq<char>>, bool) {
    match effective {
        Intent::Auto => match suggestion {
            Some(s) => {
                let pid = match skill_profile(s.0) {
                    Some(p) => p,
                    None => "greenfield_standard"@,
                };
                match s.1 {
                    Confidence::Low => ("greenfield_standard"@, Some(decision_hint()), false),
                    Confidence::Medium => (pid, Some(suggestion_hint(s.0)), false),
                    Confidence::High => (pid, None, true),
                }
            },
            None => ("greenfield_standard"@, Some(decision_hint()), false),
        },
        _ => (intent_name(effective), None, true),
    }
}

impl Intent {
    /// The serialized name of the intent.
    pub fn as_str(&self) -> (r: &'static str)
        ensures
            r@ == intent_name(*self),
    {
        match self {
            Intent::Auto => "auto",
            Intent::GreenfieldStandard => "greenfield_standard",
            Intent::BrownfieldOptimize => "brownfield_optimize",
            Intent::Bugfix => "bugfix",
            Intent::Demo => "demo",
        }
    }

    /// The profile id that a routing skill maps to.
    pub fn from_routing_skill(skill: &str) -> (r: Option<&'static str>)
        ensures
            r is Some <==> skill_profile(skill@) is Some,
            r matches Some(p) ==> p@ == skill_profile(skill@)->0,
    {
        let s = crate::text::chars_of(skill);
        let s = s.as_slice();
        if crate::text::eq_str(s, "workflow_standard") || crate::text::eq_str(s, "workflow_simple")
            || crate::text::eq_str(s, "workflow_complex") {
            Some("greenfield_standard")
        } else if crate::text::eq_str(s, "workflow_optimize") {
            Some("brownfield_optimize")
        } else if crate::text::eq_str(s, "workflow_bugfix") {
            Some("bugfix")
        } else if crate::text::eq_str(s, "workflow_demo") {
            Some("demo")
        } else {
            None
        }
    }
}

impl Default for Intent {
    /// `Auto`.
    fn default() -> (r: Self)
        ensures
            r == Intent::Auto,
    {
        Intent::Auto
    }
}

impl Governance {
    /// The serialized name of the governance level.
    pub fn as_str(&self) -> (r: &'static str)
        ensures
            r@ == governance_name(*self),
    {
        match self {
            Governance::Full => "full",
            Governance::Standard => "standard",
            Governance::Fast => "fast",
            Governance::Audit => "audit",
        }
    }
}

impl Default for Governance {
    /// `Standard`.
    fn default() -> (r: Self)
        ensures
            r == Governance::Standard,
    {
        Governance::Standard
    }
}

impl ResolveResult {
    fn locked(profile: ActiveProfile) -> (r: Self)
        ensures
            r.profile == profile,
            r.hint is None,
            r.locked,
    {
        ResolveResult { profile, hint: None, locked: true }
    }

    fn suggested(profile: ActiveProfile, hint: String) -> (r: Self)
        ensures
            r.profile == profile,
            r.hint == Some(hint),
            !r.locked,
    {
        ResolveResult { profile, hint: Some(hint), locked: false }
    }
}

/// The built-in profile `id` with the given governance; the built-in ids all exist.
fn known_profile(id: &str, governance: Governance) -> (p: ActiveProfile)
    requires
        static_profile(id@) is Some,
    ensures
        profile_is(p, id@, governance, true),
{
    build_active(id, governance).unwrap()
}

impl WorkflowResolver {
    /// Resolves the configuration, given what the routing heuristic
    /// suggested for the task (`None` when it found no signal).
    ///
    /// An explicit intent locks its profile. In auto mode a high-confidence
    /// suggestion locks the suggested profile, a medium one suggests it with
    /// a hint, and a low one (or none) falls back to greenfield and asks for
    /// a decision.
    pub fn resolve_with(config: &WorkflowConfig, suggestion: Option<&RoutingSuggestion>) -> (r: ResolveResult)
        ensures
            ({
                let eff = match config.intent_override {
                    Some(i) => i,
                    None => config.intent,
                };
                let res = resolution(eff, match suggestion {
                    Some(s) => Some((s.skill@, s.confidence)),
                    None => None,
                });
                &&& profile_is(r.profile, res.0, config.governance, true)
                &&& (match r.hint {
                    Some(h) => Some(h@),
                    None => None,
                }) == res.1
                &&& r.locked == res.2
            }),
    {
        let effective = config.effective_intent();
        let governance = config.governance;
        match effective {
            Intent::GreenfieldStandard => ResolveResult::locked(known_profile("greenfield_standard", governance)),
            Intent::BrownfieldOptimize => ResolveResult::locked(known_profile("brownfield_optimize", governance)),
            Intent::Bugfix => ResolveResult::locked(known_profile("bugfix", governance)),
            Intent::Demo => ResolveResult::locked(known_profile("demo", governance)),
            Intent::Auto => {
                match suggestion {
                    None => Self::decision_required(governance),
                    Some(s) => {
                        match s.confidence {
                            Confidence::Low => Self::decision_required(governance),
                            Confidence::Medium => {
                                let pid = match Intent::from_routing_skill(s.skill.as_str()) {
                                    Some(p) => p,
                                    None => "greenfield_standard",
                                };
                                let ap = known_profile(pid, governance);
                                let mut h: Vec<char> = Vec::new();
                                push_str(&mut h, "[Workflow Suggestion: ");
                                push_str(&mut h, s.skill.as_str());
                                push_str(&mut h, "]\nThis task appears to match the ");
                                push_str(&mut h, s.skill.as_str());
                                push_str(
                                    &mut h,
                                    " workflow. Consider activating it with the <skill> tag, or use <options> if you need clarification.",
                                );
                                proof {
                                    assert(h@ =~= suggestion_hint(s.skill@));
                                }
                                ResolveResult::suggested(ap, string_of(h.as_slice()))
                            },
                            Confidence::High => {
                                let pid = match Intent::from_routing_skill(s.skill.as_str()) {
                                    Some(p) => p,
                                    None => "greenfield_standard",
                                };
                                ResolveResult::locked(known_profile(pid, governance))
                            },
                        }
                    },
                }
            },
        }
    }

    fn decision_required(governance: Governance) -> (r: ResolveResult)
        ensures
            profile_is(r.profile, "greenfield_standard"@, governance, true),
            r.hint matches Some(h) && h@ == decision_hint(),
            !r.locked,
    {
        let ap = known_profile("greenfield_standard", governance);
        let hint = "[Workflow Decision Required]\nThe task type is not clear from keywords. You MUST use the <options> tag to present workflow choices to the emperor. Do NOT silently proceed with a default workflow. Available intents: greenfield_standard (新功能), brownfield_optimize (存量优化), bugfix (缺陷修复), demo (快速原型).".to_owned();
        ResolveResult { profile: ap, hint: Some(hint), locked: false }
    }
}

} // verus!
