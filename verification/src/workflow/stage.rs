//! Ordered stage machine for workflow progression.
//!
//! A profile lists its stages; the tracker holds the current position and
//! only ever moves forward. Profiles without an explicit list get default
//! stages chosen by profile id.
use crate::text::{chars_of, eq_str, fmt_u64, join, join_chars, push_all, push_line, push_str, str_eq, string_of, decimal};
use vstd::prelude::*;

verus! {

/// A single workflow stage.
#[derive(Debug, Clone)]
pub struct WorkflowStage {
    pub id: String,
    pub actor: String,
    pub skill: Option<String>,
    pub output_doc: Option<String>,
    pub requires_approval: bool,
    pub description: String,
}

/// The stage list and the current position in it.
#[derive(Debug, Clone)]
pub struct StageTracker {
    pub stages: Vec<WorkflowStage>,
    pub current_index: usize,
}

/// A stage with the given id, actor, description and approval flag, and no skill or output document.
pub open spec fn stage_is(s: WorkflowStage, id: Seq<char>, actor: Seq<char>, desc: Seq<char>, appr: bool) -> bool {
    &&& s.id@ == id
    &&& s.actor@ == actor
    &&& s.description@ == desc
    &&& s.requires_approval == appr
    &&& s.skill is None
    &&& s.output_doc is None
}

/// The default stage plan of a profile: (id, actor, description, needs approval).
pub open spec fn default_plan(profile_id: Seq<char>) -> Seq<(Seq<char>, Seq<char>, Seq<char>, bool)> {
    if profile_id == "greenfield_standard"@ || profile_id == "greenfield_full"@ {
        seq![
            ("init"@, "内阁"@, "任务记录"@, false),
            ("expand"@, "expand_requirements"@, "需求展开"@, false),
            ("design"@, "中书令"@, "方案设计"@, false),
            ("review"@, "门下侍中"@, "审查"@, true),
            ("execution"@, "尚书令"@, "尚书令执行"@, false),
            ("summary"@, "内阁"@, "汇总报告"@, false),
        ]
    } else if profile_id == "brownfield_optimize"@ {
        seq![
            ("init"@, "内阁"@, "任务记录"@, false),
            ("analysis"@, "中书令"@, "代码分析"@, false),
            ("plan"@, "中书令"@, "优化方案"@, true),
            ("execution"@, "尚书令"@, "尚书令执行"@, false),
            ("summary"@, "内阁"@, "汇总报告"@, false),
        ]
    } else if profile_id == "bugfix"@ || profile_id == "demo"@ {
        seq![
            ("init"@, "内阁"@, "任务记录"@, false),
            ("execution"@, "尚书令"@, "尚书令执行"@, false),
            ("summary"@, "内阁"@, "汇总报告"@, false),
        ]
    } else {
        seq![
            ("init"@, "内阁"@, "初始化"@, false),
            ("execution"@, "尚书令"@, "执行"@, false),
            ("summary"@, "内阁"@, "汇总"@, false),
        ]
    }
}

/// `stages` is exactly the stage plan `plan`.
pub open spec fn follows_plan(stages: Seq<WorkflowStage>, plan: Seq<(Seq<char>, Seq<char>, Seq<char>, bool)>) -> bool {
    &&& stages.len() == plan.len()
    &&& forall|i: int|
        0 <= i < plan.len() ==> stage_is(#[trigger] stages[i], plan[i].0, plan[i].1, plan[i].2, plan[i].3)
}

/// The refusal text for routing to `target` from the stage with id `id` and actor `actor`.
pub open spec fn route_refusal(id: Seq<char>, actor: Seq<char>, target: Seq<char>) -> Seq<char> {
    "当前阶段「"@ + id + "」(="@ + actor + ") 不允许路由到「"@ + target + "」"@
}

/// The marker shown before stage `i` when the current position is `cur`.
pub open spec fn stage_marker(i: int, cur: int) -> Seq<char> {
    if i == cur {
        "→"@
    } else if i < cur {
        "✓"@
    } else {
        " "@
    }
}

/// The summary line of stage `i`.
pub open spec fn stage_line(s: WorkflowStage, i: int, cur: int) -> Seq<char> {
    "  "@ + stage_marker(i, cur) + " "@ + decimal((i + 1) as nat) + ". "@ + s.description@ + "("@ + s.actor@ + ")"@
        + (if s.requires_approval { " [需朱批]"@ } else { ""@ })
}

/// The lines of the stage summary: a header, one line per stage, and the current stage.
pub open spec fn injection_lines(stages: Seq<WorkflowStage>, cur: int) -> Seq<Seq<char>> {
    seq!["[Workflow Stages]"@] + Seq::new(stages.len(), |i: int| stage_line(stages[i], i, cur)) + seq![
        "当前阶段: "@ + (if 0 <= cur < stages.len() { stages[cur].description@ } else { "-"@ }) + " ("@
            + decimal((cur + 1) as nat) + ")"@,
    ]
}

fn stage(id: &str, actor: &str, description: &str, requires_approval: bool) -> (s: WorkflowStage)
    ensures
        stage_is(s, id@, actor@, description@, requires_approval),
{
    WorkflowStage {
        id: id.to_owned(),
        actor: actor.to_owned(),
        skill: None,
        output_doc: None,
        description: description.to_owned(),
        requires_approval,
    }
}

impl StageTracker {
    /// A tracker over `stages`, positioned at the first one.
    pub fn new(stages: Vec<WorkflowStage>) -> (t: Self)
        ensures
            t.stages@ == stages@,
            t.current_index == 0,
    {
        StageTracker { stages, current_index: 0 }
    }

    /// The default stages of a profile, for profiles that list none.
    pub fn default_for_profile(profile_id: &str) -> (t: Self)
        ensures
            follows_plan(t.stages@, default_plan(profile_id@)),
            t.current_index == 0,
    {
        let p = chars_of(profile_id);
        let mut stages: Vec<WorkflowStage> = Vec::new();
        if eq_str(p.as_slice(), "greenfield_standard") || eq_str(p.as_slice(), "greenfield_full") {
            stages.push(stage("init", "内阁", "任务记录", false));
            stages.push(stage("expand", "expand_requirements", "需求展开", false));
            stages.push(stage("design", "中书令", "方案设计", false));
            stages.push(stage("review", "门下侍中", "审查", true));
            stages.push(stage("execution", "尚书令", "尚书令执行", false));
            stages.push(stage("summary", "内阁", "汇总报告", false));
        } else if eq_str(p.as_slice(), "brownfield_optimize") {
            stages.push(stage("init", "内阁", "任务记录", false));
            stages.push(stage("analysis", "中书令", "代码分析", false));
            stages.push(stage("plan", "中书令", "优化方案", true));
            stages.push(stage("execution", "尚书令", "尚书令执行", false));
            stages.push(stage("summary", "内阁", "汇总报告", false));
        } else if eq_str(p.as_slice(), "bugfix") || eq_str(p.as_slice(), "demo") {
            stages.push(stage("init", "内阁", "任务记录", false));
            stages.push(stage("execution", "尚书令", "尚书令执行", false));
            stages.push(stage("summary", "内阁", "汇总报告", false));
        } else {
            stages.push(stage("init", "内阁", "初始化", false));
            stages.push(stage("execution", "尚书令", "执行", false));
            stages.push(stage("summary", "内阁", "汇总", false));
        }
        Self::new(stages)
    }

    /// The current stage, if the position is within the list.
    pub fn current(&self) -> (r: Option<&WorkflowStage>)
        ensures
            r is Some <==> self.current_index < self.stages@.len(),
            r matches Some(s) ==> *s == self.stages@[self.current_index as int],
    {
        if self.current_index < self.stages.len() {
            Some(&self.stages[self.current_index])
        } else {
            None
        }
    }

    /// Moves to the next stage; `false` (and no move) when there is none.
    pub fn advance(&mut self) -> (r: bool)
        ensures
            r == (old(self).current_index + 1 < old(self).stages@.len()),
            final(self).current_index == (if r { old(self).current_index + 1 } else { old(self).current_index as int }),
            final(self).stages == old(self).stages,
    {
        if self.stages.len() > 0 && self.current_index < self.stages.len() - 1 {
            self.current_index = self.current_index + 1;
            true
        } else {
            false
        }
    }

    /// Whether routing to `actor` is allowed now: it must be the actor of
    /// the current stage or of the next one.
    pub fn check_route_to(&self, actor: &str) -> (r: Result<(), String>)
        ensures
            r is Ok <==> (self.current_index < self.stages@.len() && (self.stages@[self.current_index as int].actor@
                == actor@ || (self.current_index + 1 < self.stages@.len() && self.stages@[self.current_index + 1].actor@
                == actor@))),
            r matches Err(e) ==> e@ == (if self.current_index < self.stages@.len() {
                route_refusal(
                    self.stages@[self.current_index as int].id@,
                    self.stages@[self.current_index as int].actor@,
                    actor@,
                )
            } else {
                "没有活跃的阶段"@
            }),
    {
        let cur = match self.current() {
            Some(s) => s,
            None => {
                return Err("没有活跃的阶段".to_owned());
            },
        };
        if str_eq(cur.actor.as_str(), actor) {
            return Ok(());
        }
        if self.current_index < self.stages.len() - 1 {
            let next = &self.stages[self.current_index + 1];
            if str_eq(next.actor.as_str(), actor) {
                return Ok(());
            }
        }
        let mut msg: Vec<char> = Vec::new();
        push_str(&mut msg, "当前阶段「");
        push_str(&mut msg, cur.id.as_str());
        push_str(&mut msg, "」(=");
        push_str(&mut msg, cur.actor.as_str());
        push_str(&mut msg, ") 不允许路由到「");
        push_str(&mut msg, actor);
        push_str(&mut msg, "」");
        proof {
            assert(msg@ =~= route_refusal(cur.id@, cur.actor@, actor@));
        }
        Err(string_of(msg.as_slice()))
    }

    /// Human-readable stage summary for session injection.
    pub fn build_injection(&self) -> (r: String)
        requires
            self.current_index < usize::MAX,
        ensures
            r@ == join(injection_lines(self.stages@, self.current_index as int), "\n"@),
    {
        let ghost spec_lines = injection_lines(self.stages@, self.current_index as int);
        let mut lines: Vec<Vec<char>> = Vec::new();
        push_line(&mut lines, chars_of("[Workflow Stages]"));
        let mut i: usize = 0;
        while i < self.stages.len()
            invariant
                i <= self.stages@.len(),
                lines.deep_view() == spec_lines.take(i as int + 1),
                spec_lines == injection_lines(self.stages@, self.current_index as int),
            decreases self.stages@.len() - i,
        {
            let st = &self.stages[i];
            let mut line: Vec<char> = Vec::new();
            push_str(&mut line, "  ");
            if i == self.current_index {
                push_str(&mut line, "→");
            } else if i < self.current_index {
                push_str(&mut line, "✓");
            } else {
                push_str(&mut line, " ");
            }
            push_str(&mut line, " ");
            let num = fmt_u64(i as u64 + 1);
            push_all(&mut line, num.as_slice());
            push_str(&mut line, ". ");
            push_str(&mut line, st.description.as_str());
            push_str(&mut line, "(");
            push_str(&mut line, st.actor.as_str());
            push_str(&mut line, ")");
            if st.requires_approval {
                push_str(&mut line, " [需朱批]");
            } else {
                push_str(&mut line, "");
            }
            proof {
                assert(line@ =~= stage_line(self.stages@[i as int], i as int, self.current_index as int));
                assert(spec_lines[i + 1] == stage_line(self.stages@[i as int], i as int, self.current_index as int));
            }
            push_line(&mut lines, line);
            i = i + 1;
            proof {
                assert(lines.deep_view() =~= spec_lines.take(i as int + 1));
            }
        }
        let mut last: Vec<char> = Vec::new();
        push_str(&mut last, "当前阶段: ");
        match self.current() {
            Some(s) => push_str(&mut last, s.description.as_str()),
            None => push_str(&mut last, "-"),
        }
        push_str(&mut last, " (");
        let num = fmt_u64(self.current_index as u64 + 1);
        push_all(&mut last, num.as_slice());
        push_str(&mut last, ")");
        proof {
            assert(last@ =~= spec_lines[spec_lines.len() - 1]);
        }
        push_line(&mut lines, last);
        proof {
            assert(lines.deep_view() =~= spec_lines);
        }
        let nl = chars_of("\n");
        let out = join_chars(&lines, nl.as_slice());
        string_of(out.as_slice())
    }
}

} // verus!
