//! The lint gate and the delivery run around it: which linter a project
//! gets, how a lint run is judged and summed up, which gates a delivery
//! runs and how their verdicts combine.
use crate::text::{
    chars_of, decimal, first_n, first_n_chars, fmt_i32, fmt_u64, has_sub, int_decimal, lines,
    push_all, push_str, split_lines, contains_str, str_eq, string_of,
};
use crate::validate::report::DeliveryOptions;
use vstd::prelude::*;

verus! {

/// The linter command of a project type, if it has one.
pub open spec fn lint_command(project_type: Seq<char>) -> Option<Seq<char>> {
    if project_type == "rust"@ {
        Some("cargo clippy -- -D warnings"@)
    } else if project_type == "node"@ {
        Some("npm run lint"@)
    } else if project_type == "python"@ {
        Some("ruff check ."@)
    } else {
        None
    }
}

/// The command of the delivery's lint gate for a project type; none for
/// a type without a linter, which is then skipped.
pub fn lint_gate_command(project_type: &str) -> (r: Option<&'static str>)
    ensures
        match lint_command(project_type@) {
            Some(c) => r matches Some(x) && x@ == c,
            None => r is None,
        },
{
    if str_eq(project_type, "rust") {
        Some("cargo clippy -- -D warnings")
    } else if str_eq(project_type, "node") {
        Some("npm run lint")
    } else if str_eq(project_type, "python") {
        Some("ruff check .")
    } else {
        None
    }
}

/// The summary of a lint gate skipped for a project type without a linter.
pub fn lint_unsupported_summary(project_type: &str) -> (r: String)
    ensures
        r@ == "Unsupported project type "@ + project_type@ + ", skipping lint"@,
{
    let mut m = chars_of("Unsupported project type ");
    push_str(&mut m, project_type);
    push_str(&mut m, ", skipping lint");
    string_of(m.as_slice())
}

/// A lint run that does not happen, and why.
#[derive(Debug)]
pub struct LintSkip {
    pub summary: String,
    /// The reason recorded with the skip, when there is one.
    pub reason: Option<String>,
    /// The skip is worth a warning (the linter is missing).
    pub warning: bool,
}

/// What the lint gate does for a project.
#[derive(Debug)]
pub enum LintPlan {
    /// Run this command.
    Run(String),
    /// Pass without running a linter.
    Skip(LintSkip),
}

/// `p` skips with this summary, reason and warning flag.
pub open spec fn skips(p: LintPlan, summary: Seq<char>, reason: Option<Seq<char>>, warning: bool) -> bool {
    p matches LintPlan::Skip(s) && s.summary@ == summary && s.warning == warning && match (s.reason, reason) {
        (Some(a), Some(b)) => a@ == b,
        (None, None) => true,
        _ => false,
    }
}

fn skip(summary: Vec<char>, reason: Option<&str>, warning: bool) -> (r: LintPlan)
    ensures
        skips(r, summary@, match reason { Some(x) => Some(x@), None => None }, warning),
{
    let reason = match reason {
        Some(x) => {
            let v = chars_of(x);
            Some(string_of(v.as_slice()))
        },
        None => None,
    };
    LintPlan::Skip(LintSkip { summary: string_of(summary.as_slice()), reason, warning })
}

/// `r` is the lint gate's plan for a project: clippy for Rust, the `lint`
/// script for Node (skipped when `package.json` has none), ruff for Python
/// (skipped with a warning when it is missing); other projects are skipped.
pub open spec fn lint_plan_is(r: LintPlan, project_type: Seq<char>, has_lint_script: bool, ruff_found: bool) -> bool {
    if project_type == "rust"@ {
        r matches LintPlan::Run(c) && c@ == "cargo clippy -- -D warnings"@
    } else if project_type == "node"@ {
        if has_lint_script {
            r matches LintPlan::Run(c) && c@ == "npm run lint"@
        } else {
            skips(r, "package.json has no lint script, skipping lint"@, Some("no_lint_script"@), false)
        }
    } else if project_type == "python"@ {
        if ruff_found {
            r matches LintPlan::Run(c) && c@ == "ruff check ."@
        } else {
            skips(r, "ruff not installed, skipping lint"@, Some("ruff_not_found"@), true)
        }
    } else {
        skips(r, "Unsupported project type "@ + project_type + ", skipping lint"@, None, false)
    }
}

/// The lint gate's plan for a project (see [`lint_plan_is`]).
pub fn lint_plan(project_type: &str, has_lint_script: bool, ruff_found: bool) -> (r: LintPlan)
    ensures
        lint_plan_is(r, project_type@, has_lint_script, ruff_found),
{
    if str_eq(project_type, "rust") {
        return LintPlan::Run(string_of(chars_of("cargo clippy -- -D warnings").as_slice()));
    }
    if str_eq(project_type, "node") {
        if !has_lint_script {
            return skip(
                chars_of("package.json has no lint script, skipping lint"),
                Some("no_lint_script"),
                false,
            );
        }
        return LintPlan::Run(string_of(chars_of("npm run lint").as_slice()));
    }
    if str_eq(project_type, "python") {
        if !ruff_found {
            return skip(chars_of("ruff not installed, skipping lint"), Some("ruff_not_found"), true);
        }
        return LintPlan::Run(string_of(chars_of("ruff check .").as_slice()));
    }
    let mut m = chars_of("Unsupported project type ");
    push_str(&mut m, project_type);
    push_str(&mut m, ", skipping lint");
    skip(m, None, false)
}

/// `package.json` names a lint script: its text holds `"lint"`.
pub fn has_lint_script(package_json: &str) -> (r: bool)
    ensures
        r == has_sub(package_json@, "\"lint\""@),
{
    let v = chars_of(package_json);
    contains_str(v.as_slice(), "\"lint\"")
}

// ───────────────────────── judging a run ─────────────────────────

/// The number of lines that hold `p`.
pub open spec fn lines_with(ls: Seq<Seq<char>>, p: Seq<char>) -> nat
    decreases ls.len(),
{
    if ls.len() == 0 {
        0
    } else {
        lines_with(ls.drop_last(), p) + if has_sub(ls.last(), p) {
            1nat
        } else {
            0nat
        }
    }
}

fn count_lines_with(text: &str, p: &str) -> (r: u64)
    ensures
        r == lines_with(lines(text@), p@),
{
    let v = chars_of(text);
    let ls = split_lines(v.as_slice());
    let mut n: u64 = 0;
    let mut i: usize = 0;
    while i < ls.len()
        invariant
            i <= ls@.len(),
            ls.deep_view() == lines(text@),
            n == lines_with(ls.deep_view().take(i as int), p@),
            n <= i,
        decreases ls@.len() - i,
    {
        proof {
            assert(ls.deep_view().take(i + 1).drop_last() =~= ls.deep_view().take(i as int));
            assert(ls.deep_view()[i as int] == ls@[i as int]@);
        }
        if contains_str(ls[i].as_slice(), p) {
            n = n + 1;
        }
        i = i + 1;
    }
    proof {
        assert(ls.deep_view().take(i as int) =~= ls.deep_view());
    }
    n
}

/// The verdict of a lint run, with the counts and heads of its output.
#[derive(Debug)]
pub struct LintReport {
    pub pass: bool,
    pub summary: String,
    pub warning_count: u64,
    pub error_count: u64,
    /// The first 2000 characters of each stream.
    pub stdout_head: String,
    pub stderr_head: String,
}

/// A lint run passes when it exits with 0; the lines that mention a
/// warning, and those that mention an error, are counted over both streams.
pub fn lint_report(exit_code: i32, stdout: &str, stderr: &str) -> (r: LintReport)
    requires
        lines_with(lines(stdout@), "warning"@) + lines_with(lines(stderr@), "warning"@) <= u64::MAX,
        lines_with(lines(stdout@), "error"@) + lines_with(lines(stderr@), "error"@) <= u64::MAX,
    ensures
        r.pass == (exit_code == 0),
        r.warning_count == lines_with(lines(stdout@), "warning"@) + lines_with(lines(stderr@), "warning"@),
        r.error_count == lines_with(lines(stdout@), "error"@) + lines_with(lines(stderr@), "error"@),
        r.summary@ == if exit_code == 0 {
            "lint passed"@
        } else {
            "lint failed (exit="@ + int_decimal(exit_code as int) + ", errors="@ + decimal(
                r.error_count as nat,
            ) + ")"@
        },
        r.stdout_head@ == first_n(stdout@, 2000),
        r.stderr_head@ == first_n(stderr@, 2000),
{
    let w = count_lines_with(stdout, "warning") + count_lines_with(stderr, "warning");
    let e = count_lines_with(stdout, "error") + count_lines_with(stderr, "error");
    let pass = exit_code == 0;
    let summary = if pass {
        chars_of("lint passed")
    } else {
        let mut m = chars_of("lint failed (exit=");
        let c = fmt_i32(exit_code);
        push_all(&mut m, c.as_slice());
        push_str(&mut m, ", errors=");
        let d = fmt_u64(e);
        push_all(&mut m, d.as_slice());
        push_str(&mut m, ")");
        m
    };
    let ov = chars_of(stdout);
    let ev = chars_of(stderr);
    let oh = first_n_chars(ov.as_slice(), 2000);
    let eh = first_n_chars(ev.as_slice(), 2000);
    LintReport {
        pass,
        summary: string_of(summary.as_slice()),
        warning_count: w,
        error_count: e,
        stdout_head: string_of(oh.as_slice()),
        stderr_head: string_of(eh.as_slice()),
    }
}

/// The verdict of the lint tool: a strict run passes only when it exits
/// with 0, another also when no line mentions an error; with the message.
pub fn lint_tool_verdict(strict: bool, exit_code: i32, stdout: &str, stderr: &str) -> (r: (bool, String))
    requires
        lines_with(lines(stdout@), "warning"@) + lines_with(lines(stderr@), "warning"@) <= u64::MAX,
        lines_with(lines(stdout@), "error"@) + lines_with(lines(stderr@), "error"@) <= u64::MAX,
    ensures
        ({
            let w = lines_with(lines(stdout@), "warning"@) + lines_with(lines(stderr@), "warning"@);
            let e = lines_with(lines(stdout@), "error"@) + lines_with(lines(stderr@), "error"@);
            &&& r.0 == (if strict {
                exit_code == 0
            } else {
                exit_code == 0 || e == 0
            })
            &&& r.1@ == if r.0 {
                "lint 通过 (warnings="@ + decimal(w as nat) + ")"@
            } else {
                "lint 失败 exit="@ + int_decimal(exit_code as int) + " errors="@ + decimal(e as nat)
                    + " warnings="@ + decimal(w as nat)
            }
        }),
{
    let w = count_lines_with(stdout, "warning") + count_lines_with(stderr, "warning");
    let e = count_lines_with(stdout, "error") + count_lines_with(stderr, "error");
    let pass = if strict {
        exit_code == 0
    } else {
        exit_code == 0 || e == 0
    };
    let m = if pass {
        let mut m = chars_of("lint 通过 (warnings=");
        push_all(&mut m, fmt_u64(w).as_slice());
        push_str(&mut m, ")");
        m
    } else {
        let mut m = chars_of("lint 失败 exit=");
        push_all(&mut m, fmt_i32(exit_code).as_slice());
        push_str(&mut m, " errors=");
        push_all(&mut m, fmt_u64(e).as_slice());
        push_str(&mut m, " warnings=");
        push_all(&mut m, fmt_u64(w).as_slice());
        m
    };
    (pass, string_of(m.as_slice()))
}

/// The note of a lint tool run that was skipped, as a small JSON object.
pub fn lint_skip_note(reason: &str, project_type: &str, warning: bool) -> (r: String)
    ensures
        r@ == "{\"skipped\": true, \"reason\": \""@ + reason@ + "\", \"project_type\": \""@ + project_type@
            + (if warning {
            "\", \"warning\": true}"@
        } else {
            "\"}"@
        }),
{
    let mut m = chars_of("{\"skipped\": true, \"reason\": \"");
    push_str(&mut m, reason);
    push_str(&mut m, "\", \"project_type\": \"");
    push_str(&mut m, project_type);
    if warning {
        push_str(&mut m, "\", \"warning\": true}");
    } else {
        push_str(&mut m, "\"}");
    }
    string_of(m.as_slice())
}

/// The summary of the delivery lint gate's run: passed, or the exit code.
pub fn lint_gate_summary(exit_code: i32) -> (r: String)
    ensures
        r@ == if exit_code == 0 {
            "lint passed"@
        } else {
            "lint failed (exit="@ + int_decimal(exit_code as int) + ")"@
        },
{
    if exit_code == 0 {
        return string_of(chars_of("lint passed").as_slice());
    }
    let mut m = chars_of("lint failed (exit=");
    let c = fmt_i32(exit_code);
    push_all(&mut m, c.as_slice());
    push_str(&mut m, ")");
    string_of(m.as_slice())
}

/// The summary of a lint run that could not be started.
pub fn lint_failure_summary(error: &str) -> (r: String)
    ensures
        r@ == "lint execution failed: "@ + error@,
{
    let mut m = chars_of("lint execution failed: ");
    push_str(&mut m, error);
    string_of(m.as_slice())
}

// ───────────────────────── the delivery ─────────────────────────

/// A gate of the delivery validation.
#[derive(Debug, Clone, PartialEq, Eq)]
pub enum DeliveryGate {
    Tests,
    /// The contract diff, against this contract.
    ContractDiff(String),
    Lint,
}

/// The gates of a delivery, in order: the tests when the settings require
/// them, the contract diff when asked for and a contract is named, and the
/// lint when asked for. A disabled validation runs none.
pub open spec fn delivery_gates_of(enabled: bool, tests_required: bool, opts: DeliveryOptions) -> Seq<
    DeliveryGate,
> {
    if !enabled {
        Seq::empty()
    } else {
        let t = if tests_required {
            seq![DeliveryGate::Tests]
        } else {
            Seq::empty()
        };
        let c = match opts.ctrt_id {
            Some(id) => if opts.run_contract_diff && id@.len() > 0 {
                seq![DeliveryGate::ContractDiff(id)]
            } else {
                Seq::empty()
            },
            None => Seq::empty(),
        };
        let l = if opts.run_lint {
            seq![DeliveryGate::Lint]
        } else {
            Seq::empty()
        };
        t + c + l
    }
}

/// The gates of a delivery (see [`delivery_gates_of`]).
pub fn delivery_gates(enabled: bool, tests_required: bool, opts: &DeliveryOptions) -> (r: Vec<DeliveryGate>)
    ensures
        r@ == delivery_gates_of(enabled, tests_required, *opts),
{
    let mut r: Vec<DeliveryGate> = Vec::new();
    if !enabled {
        return r;
    }
    if tests_required {
        r.push(DeliveryGate::Tests);
    }
    match &opts.ctrt_id {
        Some(id) => {
            let v = chars_of(id.as_str());
            if opts.run_contract_diff && v.len() > 0 {
                r.push(DeliveryGate::ContractDiff(id.clone()));
            }
        },
        None => {},
    }
    if opts.run_lint {
        r.push(DeliveryGate::Lint);
    }
    proof {
        assert(r@ =~= delivery_gates_of(enabled, tests_required, *opts));
    }
    r
}

/// A delivery passes when every gate passed.
pub fn all_passed(passes: &Vec<bool>) -> (r: bool)
    ensures
        r == forall|i: int| 0 <= i < passes@.len() ==> passes@[i],
{
    let mut i: usize = 0;
    while i < passes.len()
        invariant
            i <= passes@.len(),
            forall|k: int| 0 <= k < i ==> passes@[k],
        decreases passes@.len() - i,
    {
        if !passes[i] {
            return false;
        }
        i = i + 1;
    }
    true
}

/// The verdict of the contract gate: a missing contract is skipped, an
/// existing one passes.
pub fn contract_gate_summary(ctrt_id: &str, found: bool) -> (r: String)
    ensures
        r@ == if found {
            "Contract "@ + ctrt_id@ + " exists"@
        } else {
            "Contract "@ + ctrt_id@ + " does not exist, skipping contract check"@
        },
{
    let mut m = chars_of("Contract ");
    push_str(&mut m, ctrt_id);
    if found {
        push_str(&mut m, " exists");
    } else {
        push_str(&mut m, " does not exist, skipping contract check");
    }
    string_of(m.as_slice())
}

/// The audit line of a finished delivery validation.
pub fn delivery_audit_line(project_type: &str, overall_pass: bool, checks: u64) -> (r: String)
    ensures
        r@ == "Validation "@ + project_type@ + ": overall_pass="@ + (if overall_pass {
            "true"@
        } else {
            "false"@
        }) + " ("@ + decimal(checks as nat) + " checks)"@,
{
    let mut m = chars_of("Validation ");
    push_str(&mut m, project_type);
    push_str(&mut m, ": overall_pass=");
    if overall_pass {
        push_str(&mut m, "true");
    } else {
        push_str(&mut m, "false");
    }
    push_str(&mut m, " (");
    let d = fmt_u64(checks);
    push_all(&mut m, d.as_slice());
    push_str(&mut m, " checks)");
    string_of(m.as_slice())
}

} // verus!
