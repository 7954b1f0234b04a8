//! Execution chains: the ordered departments that the executing minister
//! routes a task through, and the text injected to announce them.
use crate::text::{chars_of, fmt_u64, join, join_chars, push_all, push_line, push_str, string_of, decimal};
use vstd::prelude::*;

verus! {

/// One step of an execution chain.
#[derive(Debug, Clone, Copy, PartialEq, Eq)]
pub struct ChainStep {
    /// Department to route to, e.g. "吏部".
    pub role: &'static str,
}

/// An execution chain: its id and its ordered steps.
#[derive(Debug, Clone)]
pub struct ExecutionChain {
    pub id: &'static str,
    pub steps: Vec<ChainStep>,
}

/// Looks up and renders the built-in execution chains.
pub struct ChainEngine;

/// The departments of the built-in chain `id`, in order.
pub open spec fn chain_roles(id: Seq<char>) -> Option<Seq<Seq<char>>> {
    if id == "greenfield_full"@ {
        Some(seq!["吏部"@, "兵部"@, "工部"@, "刑部"@, "礼部"@])
    } else if id == "brownfield_patch"@ {
        Some(seq!["工部"@, "刑部"@])
    } else {
        None
    }
}

/// The step roles of a chain, as character sequences.
pub open spec fn step_roles(steps: Seq<ChainStep>) -> Seq<Seq<char>> {
    Seq::new(steps.len(), |i: int| steps[i].role@)
}

/// The numbered step lines `"1. 吏部"`, ….
pub open spec fn step_lines(roles: Seq<Seq<char>>) -> Seq<Seq<char>> {
    Seq::new(roles.len(), |i: int| decimal((i + 1) as nat) + ". "@ + roles[i])
}

/// The injected announcement of chain `id` with the given roles.
pub open spec fn chain_injection(id: Seq<char>, roles: Seq<Seq<char>>) -> Seq<char> {
    "[Execution Chain: "@ + id + "]\n执行步骤:\n"@ + join(step_lines(roles), "\n"@)
        + "\n按顺序路由到每个部门。每步通过后才能进入下一步。"@
}

fn step(role: &'static str) -> (s: ChainStep)
    ensures
        s.role@ == role@,
{
    ChainStep { role }
}

impl ChainEngine {
    /// The built-in chain with the given id.
    pub fn get_chain(id: &str) -> (r: Option<ExecutionChain>)
        ensures
            r is Some <==> chain_roles(id@) is Some,
            r matches Some(c) ==> c.id@ == id@ && step_roles(c.steps@) == chain_roles(id@)->0,
    {
        let p = chars_of(id);
        if crate::text::eq_str(p.as_slice(), "greenfield_full") {
            let mut steps: Vec<ChainStep> = Vec::new();
            steps.push(step("吏部"));
            steps.push(step("兵部"));
            steps.push(step("工部"));
            steps.push(step("刑部"));
            steps.push(step("礼部"));
            let c = ExecutionChain { id: "greenfield_full", steps };
            proof {
                assert(step_roles(c.steps@) =~= chain_roles(id@)->0);
            }
            Some(c)
        } else if crate::text::eq_str(p.as_slice(), "brownfield_patch") {
            let mut steps: Vec<ChainStep> = Vec::new();
            steps.push(step("工部"));
            steps.push(step("刑部"));
            let c = ExecutionChain { id: "brownfield_patch", steps };
            proof {
                assert(step_roles(c.steps@) =~= chain_roles(id@)->0);
            }
            Some(c)
        } else {
            None
        }
    }

    /// The announcement of chain `chain_id` injected into the executing
    /// minister's session; `None` for an unknown chain.
    pub fn build_injection(chain_id: &str) -> (r: Option<String>)
        ensures
            r is Some <==> chain_roles(chain_id@) is Some,
            r matches Some(s) ==> s@ == chain_injection(chain_id@, chain_roles(chain_id@)->0),
    {
        let chain = match Self::get_chain(chain_id) {
            Some(c) => c,
            None => {
                return None;
            },
        };
        let ghost roles = step_roles(chain.steps@);
        let mut lines: Vec<Vec<char>> = Vec::new();
        let mut i: usize = 0;
        while i < chain.steps.len()
            invariant
                i <= chain.steps@.len(),
                roles == step_roles(chain.steps@),
                lines.deep_view() == step_lines(roles).take(i as int),
            decreases chain.steps@.len() - i,
        {
            let mut line = fmt_u64(i as u64 + 1);
            push_str(&mut line, ". ");
            push_str(&mut line, chain.steps[i].role);
            proof {
                assert(line@ =~= step_lines(roles)[i as int]);
            }
            push_line(&mut lines, line);
            i = i + 1;
            proof {
                assert(lines.deep_view() =~= step_lines(roles).take(i as int));
            }
        }
        proof {
            assert(step_lines(roles).take(i as int) =~= step_lines(roles));
        }
        let nl = chars_of("\n");
        let body = join_chars(&lines, nl.as_slice());
        let mut out: Vec<char> = Vec::new();
        push_str(&mut out, "[Execution Chain: ");
        push_str(&mut out, chain.id);
        push_str(&mut out, "]\n执行步骤:\n");
        push_all(&mut out, body.as_slice());
        push_str(&mut out, "\n按顺序路由到每个部门。每步通过后才能进入下一步。");
        proof {
            assert(out@ =~= chain_injection(chain_id@, chain_roles(chain_id@)->0));
        }
        Some(string_of(out.as_slice()))
    }
}

} // verus!
