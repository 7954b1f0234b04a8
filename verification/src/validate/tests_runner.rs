//! The test gate of delivery validation: which command runs the tests and
//! how its result is judged.
use crate::text::{
    chars_of, contains_str, fmt_u64, has_sub, lines, push_all, push_line, push_str, split_lines, str_eq,
    string_of, strings_from, trim, trim_chars,
};
use crate::tool::command_ops::scope_suffix_of;
use vstd::prelude::*;

verus! {

/// The test command for a project type used before delivery; unknown types fall back to cargo.
pub open spec fn gate_test_cmd(project_type: Seq<char>, scope: Seq<char>, has_vitest: bool, has_jest: bool, python_test_cmd: Seq<char>) -> Seq<char> {
    if project_type == "rust"@ {
        if scope == "unit"@ {
            "cargo test --lib"@
        } else if scope == "integration"@ {
            "cargo test --tests"@
        } else {
            "cargo test"@
        }
    } else if project_type == "node"@ {
        if has_vitest {
            "npx vitest run"@ + scope_suffix_of(scope)
        } else if has_jest {
            "npx jest --verbose"@ + scope_suffix_of(scope)
        } else {
            "npm test"@
        }
    } else if project_type == "python"@ {
        python_test_cmd
    } else {
        "cargo test"@
    }
}

/// The delivery test command; `has_vitest`/`has_jest` tell whether those
/// runners are installed and `python_test_cmd` is the pytest command.
pub fn build_test_cmd(project_type: &str, scope: &str, has_vitest: bool, has_jest: bool, python_test_cmd: &str) -> (r: String)
    ensures
        r@ == gate_test_cmd(project_type@, scope@, has_vitest, has_jest, python_test_cmd@),
{
    if str_eq(project_type, "rust") {
        if str_eq(scope, "unit") {
            "cargo test --lib".to_owned()
        } else if str_eq(scope, "integration") {
            "cargo test --tests".to_owned()
        } else {
            "cargo test".to_owned()
        }
    } else if str_eq(project_type, "node") {
        if has_vitest {
            let mut v = chars_of("npx vitest run");
            push_str(&mut v, crate::tool::command_ops::scope_suffix(scope));
            string_of(v.as_slice())
        } else if has_jest {
            let mut v = chars_of("npx jest --verbose");
            push_str(&mut v, crate::tool::command_ops::scope_suffix(scope));
            string_of(v.as_slice())
        } else {
            "npm test".to_owned()
        }
    } else if str_eq(project_type, "python") {
        python_test_cmd.to_owned()
    } else {
        "cargo test".to_owned()
    }
}

/// The first line (from `i`) that mentions skipped tests in a test result.
pub open spec fn skip_line_from(ls: Seq<Seq<char>>, i: int) -> Seq<char>
    decreases ls.len() - i,
{
    if i < 0 || i >= ls.len() {
        ""@
    } else if has_sub(ls[i], "skipped"@) && has_sub(ls[i], "test result"@) {
        ls[i]
    } else {
        skip_line_from(ls, i + 1)
    }
}

/// The run has skips that nobody explained: skips are forbidden, the output
/// mentions them, and the result line does not report zero.
pub open spec fn unexplained_skip(forbid: bool, stdout: Seq<char>) -> bool {
    forbid && has_sub(stdout, "skipped"@) && !has_sub(skip_line_from(lines(stdout), 0), "0 skipped"@)
}

/// The verdict on a test run as (pass, summary).
pub open spec fn gate_verdict(exit_code: int, fail_count: nat, forbid_skip: bool, stdout: Seq<char>) -> (bool, Seq<char>) {
    let p1 = if exit_code != 0 { "exit_code="@ + crate::text::int_decimal(exit_code) } else { ""@ };
    let p2 = if fail_count > 0 {
        p1 + (if p1.len() > 0 { "; "@ } else { ""@ }) + decimal_of(fail_count) + " test(s) failed"@
    } else {
        p1
    };
    let skip = unexplained_skip(forbid_skip, stdout);
    let p3 = if skip { p2 + (if p2.len() > 0 { "; "@ } else { ""@ }) + "has unexplained skip cases"@ } else { p2 };
    let pass = exit_code == 0 && fail_count == 0 && !skip;
    (pass, if pass { "all tests passed"@ } else { p3 })
}

/// Decimal rendering of a count.
pub open spec fn decimal_of(n: nat) -> Seq<char> {
    crate::text::decimal(n)
}

/// The first test-result line that mentions skipped tests (empty when none).
fn skip_line(sv: &[char]) -> (r: Vec<char>)
    ensures
        r@ == skip_line_from(lines(sv@), 0),
{
    let ls = split_lines(sv);
    let mut i: usize = 0;
    while i < ls.len()
        invariant
            i <= ls@.len(),
            ls.deep_view() == lines(sv@),
            skip_line_from(ls.deep_view(), 0) == skip_line_from(ls.deep_view(), i as int),
        decreases ls@.len() - i,
    {
        proof {
            crate::text::lemma_chars_deep_view(ls@[i as int]);
            assert(ls.deep_view()[i as int] == ls@[i as int]@);
        }
        if contains_str(ls[i].as_slice(), "skipped") && contains_str(ls[i].as_slice(), "test result") {
            return crate::text::slice_chars(ls[i].as_slice(), 0, ls[i].len());
        }
        i = i + 1;
    }
    proof {
        reveal_strlit("");
    }
    Vec::new()
}

/// Judges a test run: it fails on a non-zero exit, on failed tests, and on
/// unexplained skips when those are forbidden.
pub fn judge_test_gate(exit_code: i32, fail_count: usize, forbid_skip: bool, stdout: &str) -> (r: (bool, String))
    ensures
        (r.0, r.1@) == gate_verdict(exit_code as int, fail_count as nat, forbid_skip, stdout@),
{
    proof {
        reveal_strlit("");
    }
    let mut pass = true;
    let mut summary: Vec<char> = Vec::new();
    if exit_code != 0 {
        pass = false;
        push_str(&mut summary, "exit_code=");
        push_all(&mut summary, crate::text::fmt_i32(exit_code).as_slice());
    }
    if fail_count > 0 {
        pass = false;
        if summary.len() > 0 {
            push_str(&mut summary, "; ");
        }
        push_all(&mut summary, fmt_u64(fail_count as u64).as_slice());
        push_str(&mut summary, " test(s) failed");
    }
    let sv = chars_of(stdout);
    let skip = forbid_skip && contains_str(sv.as_slice(), "skipped") && !contains_str(
        skip_line(sv.as_slice()).as_slice(),
        "0 skipped",
    );
    if skip {
        pass = false;
        if summary.len() > 0 {
            push_str(&mut summary, "; ");
        }
        push_str(&mut summary, "has unexplained skip cases");
    }
    proof {
        assert(skip == unexplained_skip(forbid_skip, stdout@));
    }
    if pass {
        (true, "all tests passed".to_owned())
    } else {
        (false, string_of(summary.as_slice()))
    }
}

/// The lines that report a failed test, trimmed.
pub open spec fn failed_lines(ls: Seq<Seq<char>>) -> Seq<Seq<char>>
    decreases ls.len(),
{
    if ls.len() == 0 {
        Seq::empty()
    } else if has_sub(ls.last(), "FAILED"@) {
        failed_lines(ls.drop_last()).push(trim(ls.last()))
    } else {
        failed_lines(ls.drop_last())
    }
}

/// The lines of the test output that report a failed test, trimmed.
pub fn failed_test_lines(stdout: &str) -> (r: Vec<String>)
    ensures
        r@.map_values(|s: String| s@) == failed_lines(lines(stdout@)),
{
    let v = chars_of(stdout);
    let ls = split_lines(v.as_slice());
    let mut out: Vec<Vec<char>> = Vec::new();
    let mut i: usize = 0;
    while i < ls.len()
        invariant
            i <= ls@.len(),
            ls.deep_view() == lines(stdout@),
            out.deep_view() == failed_lines(ls.deep_view().take(i as int)),
        decreases ls@.len() - i,
    {
        proof {
            assert(ls.deep_view().take(i + 1).drop_last() =~= ls.deep_view().take(i as int));
            assert(ls.deep_view()[i as int] == ls@[i as int]@);
        }
        if contains_str(ls[i].as_slice(), "FAILED") {
            let t = trim_chars(ls[i].as_slice());
            push_line(&mut out, t);
        }
        i = i + 1;
    }
    proof {
        assert(ls.deep_view().take(i as int) =~= ls.deep_view());
    }
    strings_from(&out)
}

} // verus!
