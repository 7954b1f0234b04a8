use shuji::workflow::profile::{build_active, load_static_profile, profile_from_spec, GateRules, ProfileSpec};
use shuji::workflow::resolver::Governance;

#[test]
fn test_static_fallback() {
    let p = load_static_profile("greenfield_standard").unwrap();
    assert_eq!(p.profile_id, "greenfield_standard");
}

#[test]
fn test_build_active_from_yaml() {
    let a = build_active("greenfield_standard", Governance::Standard).unwrap();
    assert_eq!(a.profile_id, "greenfield_standard");
    assert_eq!(a.governance, Governance::Standard);
}

#[test]
fn test_build_active_fast_overlay() {
    let a = build_active("greenfield_standard", Governance::Fast).unwrap();
    assert!(a.gates.forbid_tools.iter().any(|t| t == "expand_requirements"));
    assert!(a.gates.forbid_route_to.iter().any(|r| r == "门下侍中"));
}

#[test]
fn test_build_active_brownfield_fast() {
    let a = build_active("brownfield_optimize", Governance::Fast).unwrap();
    let expand_count = a
        .gates
        .forbid_tools
        .iter()
        .filter(|t| *t == "expand_requirements")
        .count();
    assert_eq!(expand_count, 1, "should not duplicate forbid entries");
}

#[test]
fn test_build_active_unknown() {
    assert!(build_active("nonexistent", Governance::Standard).is_none());
}

#[test]
fn merging_rules_twice_adds_nothing() {
    let mut g = GateRules {
        forbid_tools: vec!["a".to_string()],
        forbid_route_to: vec![],
    };
    let overlay = GateRules {
        forbid_tools: vec!["a".to_string(), "b".to_string()],
        forbid_route_to: vec!["x".to_string()],
    };
    g.merge(&overlay);
    g.merge(&overlay);
    assert_eq!(g.forbid_tools, vec!["a".to_string(), "b".to_string()]);
    assert_eq!(g.forbid_route_to, vec!["x".to_string()]);
}

#[test]
fn profile_from_spec_keeps_ids_and_rules() {
    let spec = ProfileSpec {
        id: "custom".to_string(),
        cabinet_skill: "workflow_custom".to_string(),
        execution_chain: "brownfield_patch".to_string(),
        forbid_tools: Some(vec!["expand_requirements".to_string()]),
        forbid_route_to: None,
        stages: None,
    };
    let p = profile_from_spec(spec);
    assert_eq!(p.profile_id, "custom");
    assert_eq!(p.cabinet_skill, "workflow_custom");
    assert_eq!(p.execution_chain_id, "brownfield_patch");
    assert_eq!(p.gates.forbid_tools, vec!["expand_requirements".to_string()]);
    assert!(p.gates.forbid_route_to.is_empty());
}
