//! Workflow profiles: the built-in profiles, governance overlays on their
//! gate rules, and the active profile that drives a session.
use crate::workflow::resolver::Governance;
use crate::workflow::stage::{StageTracker, WorkflowStage, default_plan, follows_plan};
pub use crate::text::strs;
use vstd::prelude::*;

verus! {

/// Gate rules: tools and route destinations that are forbidden.
#[derive(Debug, Clone)]
pub struct GateRules {
    pub forbid_tools: Vec<String>,
    pub forbid_route_to: Vec<String>,
}

/// A profile combined with its governance overlay.
#[derive(Debug, Clone)]
pub struct ActiveProfile {
    pub profile_id: String,
    pub cabinet_skill: String,
    pub execution_chain_id: String,
    pub gates: GateRules,
    pub governance: Governance,
    pub stage_tracker: StageTracker,
}

/// One stage as a profile definition lists it.
#[derive(Debug, Clone)]
pub struct StageSpec {
    pub id: String,
    pub actor: String,
    pub skill: Option<String>,
    pub output_doc: Option<String>,
    pub requires_approval: bool,
}

/// A profile definition as written in a profile file.
#[derive(Debug, Clone)]
pub struct ProfileSpec {
    pub id: String,
    pub cabinet_skill: String,
    pub execution_chain: String,
    pub forbid_tools: Option<Vec<String>>,
    pub forbid_route_to: Option<Vec<String>>,
    pub stages: Option<Vec<StageSpec>>,
}

/// No entry occurs twice.
pub open spec fn no_dups(s: Seq<Seq<char>>) -> bool {
    forall|i: int, j: int| 0 <= i < j < s.len() ==> #[trigger] s[i] != #[trigger] s[j]
}

/// `base` followed by the entries of `add` that are not yet present, in order.
pub open spec fn merge_seq(base: Seq<Seq<char>>, add: Seq<Seq<char>>) -> Seq<Seq<char>>
    decreases add.len(),
{
    if add.len() == 0 {
        base
    } else {
        let r = merge_seq(base, add.drop_last());
        if r.contains(add.last()) {
            r
        } else {
            r.push(add.last())
        }
    }
}

/// The forbidden tools and routes that a governance level adds.
pub open spec fn overlay_of(g: Governance) -> (Seq<Seq<char>>, Seq<Seq<char>>) {
    match g {
        Governance::Fast => (seq!["expand_requirements"@], seq!["门下侍中"@]),
        _ => (Seq::empty(), Seq::empty()),
    }
}

/// A built-in profile: (cabinet skill, execution chain, forbidden tools, forbidden routes).
pub open spec fn static_profile(id: Seq<char>) -> Option<(Seq<char>, Seq<char>, Seq<Seq<char>>, Seq<Seq<char>>)> {
    if id == "greenfield_standard"@ {
        Some(("workflow_standard"@, "greenfield_full"@, Seq::empty(), Seq::empty()))
    } else if id == "brownfield_optimize"@ {
        Some(("workflow_optimize"@, "brownfield_patch"@, seq!["expand_requirements"@], seq!["门下侍中"@]))
    } else if id == "bugfix"@ {
        Some(("workflow_bugfix"@, "brownfield_patch"@, seq!["expand_requirements"@], seq!["中书令"@, "门下侍中"@]))
    } else if id == "demo"@ {
        Some(("workflow_demo"@, "brownfield_patch"@, seq!["expand_requirements"@], seq!["中书令"@, "门下侍中"@]))
    } else {
        None
    }
}

/// `p` is the built-in profile `id` under governance `g`, before its overlay is applied
/// when `merged` is false, after it when `merged` is true.
pub open spec fn profile_is(p: ActiveProfile, id: Seq<char>, g: Governance, merged: bool) -> bool {
    static_profile(id) matches Some(sp) && {
        let tools = if merged { merge_seq(sp.2, overlay_of(g).0) } else { sp.2 };
        let routes = if merged { merge_seq(sp.3, overlay_of(g).1) } else { sp.3 };
        &&& p.profile_id@ == id
        &&& p.cabinet_skill@ == sp.0
        &&& p.execution_chain_id@ == sp.1
        &&& strs(p.gates.forbid_tools@) == tools
        &&& strs(p.gates.forbid_route_to@) == routes
        &&& p.governance == g
        &&& follows_plan(p.stage_tracker.stages@, default_plan(id))
        &&& p.stage_tracker.current_index == 0
    }
}

/// `t` is the tracker for the listed stages (each described by its id),
/// or for the default stages of `profile_id` when none are listed.
pub open spec fn stages_from(t: StageTracker, stages: Option<Vec<StageSpec>>, profile_id: Seq<char>) -> bool {
    &&& t.current_index == 0
    &&& stages is None ==> follows_plan(t.stages@, default_plan(profile_id))
    &&& stages matches Some(list) ==> {
        &&& t.stages@.len() == list@.len()
        &&& forall|i: int|
            0 <= i < list@.len() ==> {
                let s = #[trigger] t.stages@[i];
                &&& s.id == list@[i].id
                &&& s.actor == list@[i].actor
                &&& s.skill == list@[i].skill
                &&& s.output_doc == list@[i].output_doc
                &&& s.requires_approval == list@[i].requires_approval
                &&& s.description == list@[i].id
            }
    }
}

proof fn lemma_merge_props(base: Seq<Seq<char>>, add: Seq<Seq<char>>)
    ensures
        merge_seq(base, add).len() >= base.len(),
        merge_seq(base, add).take(base.len() as int) == base,
        no_dups(base) ==> no_dups(merge_seq(base, add)),
        forall|x: Seq<char>| #[trigger] merge_seq(base, add).contains(x) <==> (base.contains(x) || add.contains(x)),
    decreases add.len(),
{
    if add.len() > 0 {
        let init = add.drop_last();
        let r = merge_seq(base, init);
        lemma_merge_props(base, init);
        if !r.contains(add.last()) {
            assert(r.push(add.last()).take(base.len() as int) =~= r.take(base.len() as int));
            assert forall|x: Seq<char>| #[trigger] r.push(add.last()).contains(x) <==> (r.contains(x) || x == add.last()) by {
                if r.push(add.last()).contains(x) {
                    let k = choose|k: int| 0 <= k < r.len() + 1 && r.push(add.last())[k] == x;
                    if k < r.len() {
                        assert(r[k] == x);
                    }
                }
                if r.contains(x) {
                    let k = choose|k: int| 0 <= k < r.len() && r[k] == x;
                    assert(r.push(add.last())[k] == x);
                }
                if x == add.last() {
                    assert(r.push(add.last())[r.len() as int] == x);
                }
            }
        }
        assert forall|x: Seq<char>| #[trigger] add.contains(x) <==> (init.contains(x) || x == add.last()) by {
            if add.contains(x) {
                let k = choose|k: int| 0 <= k < add.len() && add[k] == x;
                if k < add.len() - 1 {
                    assert(init[k] == x);
                }
            }
            if init.contains(x) {
                let k = choose|k: int| 0 <= k < init.len() && init[k] == x;
                assert(add[k] == x);
            }
            if x == add.last() {
                assert(add[add.len() - 1] == x);
            }
        }
    }
}

/// Merging an overlay keeps the base entries in front, adds every overlay
/// entry, adds nothing else, and introduces no duplicates.
pub proof fn law_merge_is_union_without_duplicates(base: Seq<Seq<char>>, add: Seq<Seq<char>>)
    ensures
        merge_seq(base, add).take(base.len() as int) == base,
        forall|x: Seq<char>| #[trigger] merge_seq(base, add).contains(x) <==> (base.contains(x) || add.contains(x)),
        no_dups(base) ==> no_dups(merge_seq(base, add)),
{
    lemma_merge_props(base, add);
}

/// Merging the same overlay twice changes nothing the second time.
pub proof fn law_merge_idempotent(base: Seq<Seq<char>>, add: Seq<Seq<char>>)
    ensures
        merge_seq(merge_seq(base, add), add) == merge_seq(base, add),
    decreases add.len(),
{
    let m = merge_seq(base, add);
    lemma_merge_props(base, add);
    lemma_merge_already_present(m, add);
}

proof fn lemma_merge_already_present(base: Seq<Seq<char>>, add: Seq<Seq<char>>)
    requires
        forall|x: Seq<char>| #[trigger] add.contains(x) ==> base.contains(x),
    ensures
        merge_seq(base, add) == base,
    decreases add.len(),
{
    if add.len() > 0 {
        let init = add.drop_last();
        assert forall|x: Seq<char>| #[trigger] init.contains(x) implies base.contains(x) by {
            let k = choose|k: int| 0 <= k < init.len() && init[k] == x;
            assert(add[k] == x);
            assert(add.contains(x));
        }
        lemma_merge_already_present(base, init);
        assert(add.contains(add.last())) by {
            assert(add[add.len() - 1] == add.last());
        }
    }
}

/// Whether `v` holds a string equal to `x`.
fn contains_string(v: &Vec<String>, x: &String) -> (r: bool)
    ensures
        r == strs(v@).contains(x@),
{
    let mut i: usize = 0;
    while i < v.len()
        invariant
            i <= v@.len(),
            forall|j: int| 0 <= j < i ==> #[trigger] v@[j]@ != x@,
        decreases v@.len() - i,
    {
        if v[i] == *x {
            proof {
                assert(strs(v@)[i as int] == x@);
            }
            return true;
        }
        i = i + 1;
    }
    proof {
        if strs(v@).contains(x@) {
            let k = choose|k: int| 0 <= k < strs(v@).len() && strs(v@)[k] == x@;
            assert(v@[k]@ == x@);
        }
    }
    false
}

/// Appends the entries of `add` missing from `v`.
fn merge_into(v: &mut Vec<String>, add: &Vec<String>)
    ensures
        strs(final(v)@) == merge_seq(strs(old(v)@), strs(add@)),
{
    let mut i: usize = 0;
    while i < add.len()
        invariant
            i <= add@.len(),
            strs(v@) == merge_seq(strs(old(v)@), strs(add@).take(i as int)),
        decreases add@.len() - i,
    {
        let ghost pre = strs(add@).take(i as int);
        let ghost post = strs(add@).take(i as int + 1);
        proof {
            assert(post.drop_last() =~= pre);
            assert(post.last() == add@[i as int]@);
        }
        if !contains_string(v, &add[i]) {
            v.push(add[i].clone());
            proof {
                assert(strs(v@) =~= merge_seq(strs(old(v)@), pre).push(post.last()));
            }
        }
        i = i + 1;
    }
    proof {
        assert(strs(add@).take(i as int) =~= strs(add@));
    }
}

impl GateRules {
    /// Adds the overlay's entries that are not already forbidden.
    pub fn merge(&mut self, overlay: &GateRules)
        ensures
            strs(final(self).forbid_tools@) == merge_seq(strs(old(self).forbid_tools@), strs(overlay.forbid_tools@)),
            strs(final(self).forbid_route_to@) == merge_seq(
                strs(old(self).forbid_route_to@),
                strs(overlay.forbid_route_to@),
            ),
    {
        merge_into(&mut self.forbid_tools, &overlay.forbid_tools);
        merge_into(&mut self.forbid_route_to, &overlay.forbid_route_to);
    }
}

/// A vector holding the given strings.
fn strings_of(items: &[&str]) -> (r: Vec<String>)
    ensures
        r@.len() == items@.len(),
        forall|i: int| 0 <= i < items@.len() ==> #[trigger] r@[i]@ == items@[i]@,
{
    let mut r: Vec<String> = Vec::new();
    let mut i: usize = 0;
    while i < items.len()
        invariant
            i <= items@.len(),
            r@.len() == i,
            forall|j: int| 0 <= j < i ==> #[trigger] r@[j]@ == items@[j]@,
        decreases items@.len() - i,
    {
        r.push(items[i].to_owned());
        i = i + 1;
    }
    r
}

/// The gating rules that governance level `g` adds.
pub fn governance_overlay(g: Governance) -> (r: GateRules)
    ensures
        strs(r.forbid_tools@) == overlay_of(g).0,
        strs(r.forbid_route_to@) == overlay_of(g).1,
{
    let r = match g {
        Governance::Fast => GateRules {
            forbid_tools: strings_of(&["expand_requirements"]),
            forbid_route_to: strings_of(&["门下侍中"]),
        },
        _ => GateRules { forbid_tools: Vec::new(), forbid_route_to: Vec::new() },
    };
    proof {
        assert(strs(r.forbid_tools@) =~= overlay_of(g).0);
        assert(strs(r.forbid_route_to@) =~= overlay_of(g).1);
    }
    r
}

impl ActiveProfile {
    /// The profile with governance `g` and its overlay merged into `gates`.
    fn with_governance(
        profile_id: String,
        cabinet_skill: String,
        execution_chain_id: String,
        gates: GateRules,
        governance: Governance,
        stage_tracker: StageTracker,
    ) -> (p: Self)
        ensures
            p.profile_id == profile_id,
            p.cabinet_skill == cabinet_skill,
            p.execution_chain_id == execution_chain_id,
            p.governance == governance,
            p.stage_tracker == stage_tracker,
            strs(p.gates.forbid_tools@) == merge_seq(strs(gates.forbid_tools@), overlay_of(governance).0),
            strs(p.gates.forbid_route_to@) == merge_seq(strs(gates.forbid_route_to@), overlay_of(governance).1),
    {
        let mut gates = gates;
        let overlay = governance_overlay(governance);
        gates.merge(&overlay);
        ActiveProfile { profile_id, cabinet_skill, execution_chain_id, gates, governance, stage_tracker }
    }
}

/// The built-in profile `id`, with standard governance and default stages.
pub fn load_static_profile(id: &str) -> (r: Option<ActiveProfile>)
    ensures
        r is Some <==> static_profile(id@) is Some,
        r matches Some(p) ==> profile_is(p, id@, Governance::Standard, false),
{
    let p = crate::text::chars_of(id);
    let (skill, chain, tools, routes): (&str, &str, Vec<String>, Vec<String>) = if crate::text::eq_str(
        p.as_slice(),
        "greenfield_standard",
    ) {
        ("workflow_standard", "greenfield_full", Vec::new(), Vec::new())
    } else if crate::text::eq_str(p.as_slice(), "brownfield_optimize") {
        ("workflow_optimize", "brownfield_patch", strings_of(&["expand_requirements"]), strings_of(&["门下侍中"]))
    } else if crate::text::eq_str(p.as_slice(), "bugfix") {
        ("workflow_bugfix", "brownfield_patch", strings_of(&["expand_requirements"]), strings_of(&["中书令", "门下侍中"]))
    } else if crate::text::eq_str(p.as_slice(), "demo") {
        ("workflow_demo", "brownfield_patch", strings_of(&["expand_requirements"]), strings_of(&["中书令", "门下侍中"]))
    } else {
        return None;
    };
    let r = ActiveProfile {
        profile_id: id.to_owned(),
        cabinet_skill: skill.to_owned(),
        execution_chain_id: chain.to_owned(),
        gates: GateRules { forbid_tools: tools, forbid_route_to: routes },
        governance: Governance::Standard,
        stage_tracker: StageTracker::default_for_profile(id),
    };
    proof {
        let sp = static_profile(id@)->0;
        assert(strs(r.gates.forbid_tools@) =~= sp.2);
        assert(strs(r.gates.forbid_route_to@) =~= sp.3);
    }
    Some(r)
}

/// The stage tracker for a profile's listed stages (each described by its
/// id), or the profile's default stages when it lists none.
pub fn parse_stages(stages: Option<&Vec<StageSpec>>, profile_id: &str) -> (t: StageTracker)
    ensures
        stages_from(t, match stages {
            Some(l) => Some(*l),
            None => None,
        }, profile_id@),
{
    match stages {
        None => StageTracker::default_for_profile(profile_id),
        Some(list) => {
            let mut out: Vec<WorkflowStage> = Vec::new();
            let mut i: usize = 0;
            while i < list.len()
                invariant
                    i <= list@.len(),
                    out@.len() == i,
                    forall|j: int|
                        0 <= j < i ==> {
                            let s = #[trigger] out@[j];
                            &&& s.id == list@[j].id
                            &&& s.actor == list@[j].actor
                            &&& s.skill == list@[j].skill
                            &&& s.output_doc == list@[j].output_doc
                            &&& s.requires_approval == list@[j].requires_approval
                            &&& s.description == list@[j].id
                        },
                decreases list@.len() - i,
            {
                let ys = &list[i];
                out.push(
                    WorkflowStage {
                        id: ys.id.clone(),
                        actor: ys.actor.clone(),
                        skill: ys.skill.clone(),
                        output_doc: ys.output_doc.clone(),
                        requires_approval: ys.requires_approval,
                        description: ys.id.clone(),
                    },
                );
                i = i + 1;
            }
            StageTracker::new(out)
        },
    }
}

/// The profile a profile definition describes, with standard governance.
pub fn profile_from_spec(spec: ProfileSpec) -> (p: ActiveProfile)
    ensures
        p.profile_id == spec.id,
        p.cabinet_skill == spec.cabinet_skill,
        p.execution_chain_id == spec.execution_chain,
        p.gates.forbid_tools@ == (match spec.forbid_tools {
            Some(v) => v@,
            None => Seq::empty(),
        }),
        p.gates.forbid_route_to@ == (match spec.forbid_route_to {
            Some(v) => v@,
            None => Seq::empty(),
        }),
        p.governance == Governance::Standard,
        stages_from(p.stage_tracker, spec.stages, spec.id@),
{
    let stage_tracker = parse_stages(spec.stages.as_ref(), spec.id.as_str());
    let forbid_tools = match spec.forbid_tools {
        Some(v) => v,
        None => Vec::new(),
    };
    let forbid_route_to = match spec.forbid_route_to {
        Some(v) => v,
        None => Vec::new(),
    };
    ActiveProfile {
        profile_id: spec.id,
        cabinet_skill: spec.cabinet_skill,
        execution_chain_id: spec.execution_chain,
        gates: GateRules { forbid_tools, forbid_route_to },
        governance: Governance::Standard,
        stage_tracker,
    }
}

/// The built-in profile `id` with the overlay of governance `governance`
/// merged into its gates; `None` for an unknown profile.
pub fn build_active(profile_id: &str, governance: Governance) -> (r: Option<ActiveProfile>)
    ensures
        r is Some <==> static_profile(profile_id@) is Some,
        r matches Some(p) ==> profile_is(p, profile_id@, governance, true),
{
    let base = match load_static_profile(profile_id) {
        Some(b) => b,
        None => {
            return None;
        },
    };
    Some(
        ActiveProfile::with_governance(
            base.profile_id,
            base.cabinet_skill,
            base.execution_chain_id,
            base.gates,
            governance,
            base.stage_tracker,
        ),
    )
}

} // verus!
