use shuji::workflow::gate::{GateArgs, GateEngine};
use shuji::workflow::profile::{build_active, ActiveProfile};
use shuji::workflow::resolver::Governance;

fn make_profile(profile_id: &'static str, governance: Governance) -> ActiveProfile {
    build_active(profile_id, governance).expect("test profile should exist")
}

fn no_args() -> GateArgs {
    GateArgs { to: None, subject: None }
}

fn route(to: &str, subject: &str) -> GateArgs {
    GateArgs {
        to: Some(to.to_string()),
        subject: Some(subject.to_string()),
    }
}

#[test]
fn test_brownfield_forbid_expand_requirements() {
    let p = make_profile("brownfield_optimize", Governance::Standard);
    let result = GateEngine::check_tool(&p, "expand_requirements", &no_args());
    assert!(result.is_err());
    assert!(result.unwrap_err().message.contains("expand_requirements"));
}

#[test]
fn test_brownfield_forbid_menxia() {
    let p = make_profile("brownfield_optimize", Governance::Standard);
    let result = GateEngine::check_tool(&p, "route_to", &route("门下侍中", "test"));
    assert!(result.is_err());
}

#[test]
fn test_brownfield_allow_zhongshu() {
    let p = make_profile("brownfield_optimize", Governance::Standard);
    let result = GateEngine::check_tool(&p, "route_to", &route("中书令", "test"));
    assert!(result.is_ok());
}

#[test]
fn test_bugfix_forbid_zhongshu_and_menxia() {
    let p = make_profile("bugfix", Governance::Standard);
    assert!(GateEngine::check_tool(&p, "route_to", &route("中书令", "test")).is_err());
    assert!(GateEngine::check_tool(&p, "route_to", &route("门下侍中", "test")).is_err());
}

#[test]
fn test_bugfix_allow_gongbu() {
    let p = make_profile("bugfix", Governance::Standard);
    assert!(GateEngine::check_tool(&p, "route_to", &route("工部", "test")).is_ok());
}

#[test]
fn test_override_flag_bypasses_gate() {
    let p = make_profile("bugfix", Governance::Standard);
    let args = route("中书令", "--override-skill-gate");
    assert!(GateEngine::check_tool(&p, "route_to", &args).is_ok());
}

#[test]
fn test_greenfield_standard_no_restrictions() {
    let p = make_profile("greenfield_standard", Governance::Standard);
    assert!(GateEngine::check_tool(&p, "expand_requirements", &no_args()).is_ok());
    assert!(GateEngine::check_tool(&p, "route_to", &route("门下侍中", "test")).is_ok());
}

#[test]
fn test_greenfield_fast_overlay() {
    let p = make_profile("greenfield_standard", Governance::Fast);
    assert!(GateEngine::check_tool(&p, "expand_requirements", &no_args()).is_err());
    assert!(GateEngine::check_tool(&p, "route_to", &route("门下侍中", "test")).is_err());
}

#[test]
fn test_inspect_tool_always_allowed() {
    let p = make_profile("brownfield_optimize", Governance::Standard);
    assert!(GateEngine::check_tool(&p, "read_file", &no_args()).is_ok());
}
