//! Tool and route gate: blocks tool calls and routings that the active
//! profile forbids, with a message telling the model why.
use crate::text::{chars_of, contains_str, push_str, string_of, has_sub};
use crate::workflow::profile::{strs, ActiveProfile};
use vstd::prelude::*;

verus! {

/// Why a gate blocked a call.
#[derive(Debug, Clone, PartialEq, Eq)]
pub struct GateViolation {
    pub message: String,
}

/// The arguments of a tool call that gating reads: the routing target
/// and the subject line.
#[derive(Debug, Clone)]
pub struct GateArgs {
    pub to: Option<String>,
    pub subject: Option<String>,
}

/// Stateless tool and route gate.
pub struct GateEngine;

/// What `format!("{:?}", v)` gives for a vector of strings.
pub uninterp spec fn debug_string_list(items: Seq<Seq<char>>) -> Seq<char>;

/// Debug rendering of a vector of strings, by `format!("{:?}", v)`.
#[verifier::external_body]
fn debug_list(v: &Vec<String>) -> (r: String)
    ensures
        r@ == debug_string_list(strs(v@)),
{
    format!("{:?}", v)
}

/// The flag in a routing subject that bypasses the route gate.
pub open spec fn override_flag() -> Seq<char> {
    "--override-skill-gate"@
}

/// The refusal for a forbidden routing target.
pub open spec fn route_block_message(profile_id: Seq<char>, to: Seq<char>, routes: Seq<Seq<char>>) -> Seq<char> {
    "[技能短路] 当前配置「"@ + profile_id + "」禁止路由到「"@ + to + "」。禁止路由目标: "@ + debug_string_list(routes)
        + "。如需强制路由，请在 subject 中包含 --override-skill-gate。"@
}

/// The refusal for a forbidden tool.
pub open spec fn tool_block_message(profile_id: Seq<char>, tool: Seq<char>, tools: Seq<Seq<char>>) -> Seq<char> {
    "[工具门禁] 当前配置「"@ + profile_id + "」禁止使用工具「"@ + tool + "」。已被禁止的工具: "@ + debug_string_list(tools)
}

/// The verdict of gating: `None` when the call is allowed, else the refusal.
///
/// A routing (`route_to` with a target) whose subject carries the override
/// flag is always allowed; otherwise a forbidden target is refused, and then
/// a forbidden tool is refused.
pub open spec fn gate_verdict(p: ActiveProfile, tool: Seq<char>, to: Option<Seq<char>>, subject: Option<Seq<char>>) -> Option<Seq<char>> {
    let routes = strs(p.gates.forbid_route_to@);
    let tools = strs(p.gates.forbid_tools@);
    if tool == "route_to"@ && to is Some && (subject matches Some(s) && has_sub(s, override_flag())) {
        None
    } else if tool == "route_to"@ && to is Some && routes.contains(to->0) {
        Some(route_block_message(p.profile_id@, to->0, routes))
    } else if tools.contains(tool) {
        Some(tool_block_message(p.profile_id@, tool, tools))
    } else {
        None
    }
}

/// Whether `v` holds a string equal to `x`.
fn list_has(v: &Vec<String>, x: &str) -> (r: bool)
    ensures
        r == strs(v@).contains(x@),
{
    let mut i: usize = 0;
    while i < v.len()
        invariant
            i <= v@.len(),
            forall|j: int| 0 <= j < i ==> #[trigger] v@[j]@ != x@,
        decreases v@.len() - i,
    {
        if crate::text::str_eq(v[i].as_str(), x) {
            proof {
                assert(strs(v@)[i as int] == x@);
            }
            return true;
        }
        i = i + 1;
    }
    proof {
        if strs(v@).contains(x@) {
            let k = choose|k: int| 0 <= k < strs(v@).len() && strs(v@)[k] == x@;
            assert(v@[k]@ == x@);
        }
    }
    false
}

impl GateEngine {
    /// Checks a tool call against the profile's gates.
    pub fn check_tool(profile: &ActiveProfile, tool_name: &str, args: &GateArgs) -> (r: Result<(), GateViolation>)
        ensures
            r is Ok <==> gate_verdict(
                *profile,
                tool_name@,
                match args.to {
                    Some(t) => Some(t@),
                    None => None,
                },
                match args.subject {
                    Some(s) => Some(s@),
                    None => None,
                },
            ) is None,
            r matches Err(v) ==> Some(v.message@) == gate_verdict(
                *profile,
                tool_name@,
                match args.to {
                    Some(t) => Some(t@),
                    None => None,
                },
                match args.subject {
                    Some(s) => Some(s@),
                    None => None,
                },
            ),
    {
        if crate::text::str_eq(tool_name, "route_to") {
            if let Some(to) = &args.to {
                if let Some(subject) = &args.subject {
                    let sv = chars_of(subject.as_str());
                    if contains_str(sv.as_slice(), "--override-skill-gate") {
                        return Ok(());
                    }
                }
                if list_has(&profile.gates.forbid_route_to, to.as_str()) {
                    let list = debug_list(&profile.gates.forbid_route_to);
                    let mut m: Vec<char> = Vec::new();
                    push_str(&mut m, "[技能短路] 当前配置「");
                    push_str(&mut m, profile.profile_id.as_str());
                    push_str(&mut m, "」禁止路由到「");
                    push_str(&mut m, to.as_str());
                    push_str(&mut m, "」。禁止路由目标: ");
                    push_str(&mut m, list.as_str());
                    push_str(&mut m, "。如需强制路由，请在 subject 中包含 --override-skill-gate。");
                    proof {
                        assert(m@ =~= route_block_message(
                            profile.profile_id@,
                            to@,
                            strs(profile.gates.forbid_route_to@),
                        ));
                    }
                    return Err(GateViolation { message: string_of(m.as_slice()) });
                }
            }
        }
        if list_has(&profile.gates.forbid_tools, tool_name) {
            let list = debug_list(&profile.gates.forbid_tools);
            let mut m: Vec<char> = Vec::new();
            push_str(&mut m, "[工具门禁] 当前配置「");
            push_str(&mut m, profile.profile_id.as_str());
            push_str(&mut m, "」禁止使用工具「");
            push_str(&mut m, tool_name);
            push_str(&mut m, "」。已被禁止的工具: ");
            push_str(&mut m, list.as_str());
            proof {
                assert(m@ =~= tool_block_message(profile.profile_id@, tool_name@, strs(profile.gates.forbid_tools@)));
            }
            return Err(GateViolation { message: string_of(m.as_slice()) });
        }
        Ok(())
    }
}

} // verus!
