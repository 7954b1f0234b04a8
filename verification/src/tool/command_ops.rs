//! Analysis of build and test output, and the commands and messages built
//! around running tests.
//!
//! Everything here works on the text a command produced; running the
//! commands is left to the caller.
use crate::text::{
    any_pattern, any_prefix, any_prefix_of, any_sub, chars_of, contains_str, decimal, eq_str, first_n,
    first_n_chars, first_pattern, is_alnum, first_sub, floor_prefix, floor_prefix_chars, fmt_u64, has_sub, join,
    join_chars, lines, lowercase, push_all, push_line, push_str, split_lines, starts_with, starts_with_str,
    str_eq, str_views, string_of, strs, strip_prefix_all, strip_prefix_all_chars, strip_suffix_all,
    strip_suffix_all_chars, to_lowercase, trim, trim_chars, utf8_len, utf8_len_of,
};
use crate::tool::path::built_for_windows;
use vstd::prelude::*;

verus! {

// ───────────────────────── cargo commands ─────────────────────────

/// Lints silenced while compiling tests.
pub open spec fn rust_flags() -> Seq<char> {
    "-A dead_code -A unused_variables -A unused_imports -A unused_mut -A unused_assignments"@
}

/// `cargo <sub>` with the lint flags set in the environment, in the shell syntax of the platform.
pub open spec fn cargo_cmd(sub: Seq<char>, windows: bool) -> Seq<char> {
    if windows {
        "$env:RUSTFLAGS=\""@ + rust_flags() + "\"; cargo "@ + sub
    } else {
        "RUSTFLAGS=\""@ + rust_flags() + "\" cargo "@ + sub
    }
}

/// The cargo subcommand that compiles the tests of a scope without running them.
pub open spec fn test_compile_sub(scope: Seq<char>) -> Seq<char> {
    if scope == "unit"@ {
        "test --lib --no-run"@
    } else if scope == "integration"@ {
        "test --tests --no-run"@
    } else {
        "test --no-run"@
    }
}

/// `cargo <subcommand>` with lints silenced, for the given platform.
pub fn rust_cargo_cmd_for(subcommand: &str, windows: bool) -> (r: String)
    ensures
        r@ == cargo_cmd(subcommand@, windows),
{
    let mut v: Vec<char> = Vec::new();
    if windows {
        push_str(&mut v, "$env:RUSTFLAGS=\"");
        push_str(&mut v, "-A dead_code -A unused_variables -A unused_imports -A unused_mut -A unused_assignments");
        push_str(&mut v, "\"; cargo ");
    } else {
        push_str(&mut v, "RUSTFLAGS=\"");
        push_str(&mut v, "-A dead_code -A unused_variables -A unused_imports -A unused_mut -A unused_assignments");
        push_str(&mut v, "\" cargo ");
    }
    push_str(&mut v, subcommand);
    proof {
        assert(v@ =~= cargo_cmd(subcommand@, windows));
    }
    string_of(v.as_slice())
}

/// `cargo <subcommand>` with lints silenced, for the platform the program runs on.
pub fn rust_cargo_cmd(subcommand: &str) -> (r: String)
    ensures
        r@ == cargo_cmd(subcommand@, true) || r@ == cargo_cmd(subcommand@, false),
{
    rust_cargo_cmd_for(subcommand, built_for_windows())
}

/// The command that compiles the tests of `scope` without running them, for the given platform.
pub fn rust_test_compile_cmd_for(scope: &str, windows: bool) -> (r: String)
    ensures
        r@ == cargo_cmd(test_compile_sub(scope@), windows),
{
    if str_eq(scope, "unit") {
        rust_cargo_cmd_for("test --lib --no-run", windows)
    } else if str_eq(scope, "integration") {
        rust_cargo_cmd_for("test --tests --no-run", windows)
    } else {
        rust_cargo_cmd_for("test --no-run", windows)
    }
}

/// The command that compiles the tests of `scope` without running them.
pub fn rust_test_compile_cmd(scope: &str) -> (r: String)
    ensures
        r@ == cargo_cmd(test_compile_sub(scope@), true) || r@ == cargo_cmd(test_compile_sub(scope@), false),
{
    rust_test_compile_cmd_for(scope, built_for_windows())
}

/// The prefix that switches PowerShell output to UTF-8.
pub open spec fn utf8_preamble() -> Seq<char> {
    "$OutputEncoding = [System.Text.Encoding]::UTF8; [Console]::OutputEncoding = [System.Text.Encoding]::UTF8; "@
}

/// The command with UTF-8 output forced on Windows; unchanged elsewhere.
pub fn inject_utf8_encoding_for(cmd: &str, windows: bool) -> (r: String)
    ensures
        r@ == (if windows { utf8_preamble() + cmd@ } else { cmd@ }),
{
    if windows {
        let mut v: Vec<char> = Vec::new();
        push_str(
            &mut v,
            "$OutputEncoding = [System.Text.Encoding]::UTF8; [Console]::OutputEncoding = [System.Text.Encoding]::UTF8; ",
        );
        push_str(&mut v, cmd);
        string_of(v.as_slice())
    } else {
        cmd.to_owned()
    }
}

/// The command with UTF-8 output forced when running on Windows.
pub fn inject_utf8_encoding(cmd: &str) -> (r: String)
    ensures
        r@ == utf8_preamble() + cmd@ || r@ == cmd@,
{
    inject_utf8_encoding_for(cmd, built_for_windows())
}

/// The test-path suffix for a scope.
pub open spec fn scope_suffix_of(scope: Seq<char>) -> Seq<char> {
    if scope == "unit"@ {
        " tests/"@
    } else if scope == "integration"@ {
        " tests/integration/"@
    } else {
        ""@
    }
}

/// The test-path suffix that the JavaScript test runners get for a scope.
pub fn scope_suffix(scope: &str) -> (r: &'static str)
    ensures
        r@ == scope_suffix_of(scope@),
{
    if str_eq(scope, "unit") {
        " tests/"
    } else if str_eq(scope, "integration") {
        " tests/integration/"
    } else {
        ""
    }
}

// ───────────────────────── environment failures ─────────────────────────

/// The output shows an environment problem (a lock file, permissions, a file that would not open).
pub open spec fn is_environment_failure(output: Seq<char>) -> bool {
    let lower = lowercase(output);
    has_sub(lower, ".cargo-lock"@) || has_sub(lower, "permission denied"@) || has_sub(output, "拒绝访问"@)
        || has_sub(lower, "access is denied"@) || has_sub(lower, "failed to open"@)
}

/// `Some("environment_error")` when the output shows an environment problem.
pub fn classify_execution_failure(output: &str) -> (r: Option<&'static str>)
    ensures
        r is Some <==> is_environment_failure(output@),
        r matches Some(s) ==> s@ == "environment_error"@,
{
    let ov = chars_of(output);
    let lower = to_lowercase(ov.as_slice());
    let l = lower.as_slice();
    if contains_str(l, ".cargo-lock") || contains_str(l, "permission denied") || contains_str(ov.as_slice(), "拒绝访问")
        || contains_str(l, "access is denied") || contains_str(l, "failed to open") {
        Some("environment_error")
    } else {
        None
    }
}

// ───────────────────────── rustc error codes ─────────────────────────

/// Index of the first `[` or `]` in `s` at or after `i` (or the length).
pub open spec fn next_bracket(s: Seq<char>, i: int) -> int
    decreases s.len() - i,
{
    if i < 0 || i >= s.len() {
        s.len() as int
    } else if s[i] == '[' || s[i] == ']' {
        i
    } else {
        next_bracket(s, i + 1)
    }
}

proof fn lemma_next_bracket(s: Seq<char>, i: int)
    requires
        0 <= i <= s.len(),
    ensures
        i <= next_bracket(s, i) <= s.len(),
    decreases s.len() - i,
{
    if i < s.len() && !(s[i] == '[' || s[i] == ']') {
        lemma_next_bracket(s, i + 1);
    }
}

/// The code of a line beginning `error[`: the text after that bracket up to the next bracket.
pub open spec fn bracket_code(t: Seq<char>) -> Seq<char> {
    t.subrange(6, next_bracket(t, 6))
}

/// The code of the first line (from `i`) whose trimmed text begins `error[`.
pub open spec fn error_code_from(ls: Seq<Seq<char>>, i: int) -> Option<Seq<char>>
    decreases ls.len() - i,
{
    if i < 0 || i >= ls.len() {
        None
    } else if starts_with(trim(ls[i]), "error["@) {
        Some(bracket_code(trim(ls[i])))
    } else {
        error_code_from(ls, i + 1)
    }
}

fn bracket_code_of(t: &[char]) -> (r: Vec<char>)
    requires
        starts_with(t@, "error["@),
    ensures
        r@ == bracket_code(t@),
{
    proof {
        reveal_strlit("error[");
        lemma_next_bracket(t@, 6);
    }
    let mut j: usize = 6;
    while j < t.len() && t[j] != '[' && t[j] != ']'
        invariant
            6 <= j <= t@.len(),
            next_bracket(t@, 6) == next_bracket(t@, j as int),
        decreases t@.len() - j,
    {
        j = j + 1;
    }
    crate::text::slice_chars(t, 6, j)
}

/// The code of the first `error[` line.
fn first_error_code(ls: &Vec<Vec<char>>) -> (r: Option<Vec<char>>)
    ensures
        (match r {
            Some(c) => Some(c@),
            None => None,
        }) == error_code_from(ls.deep_view(), 0),
{
    let mut i: usize = 0;
    while i < ls.len()
        invariant
            i <= ls@.len(),
            error_code_from(ls.deep_view(), 0) == error_code_from(ls.deep_view(), i as int),
        decreases ls@.len() - i,
    {
        proof {
            crate::text::lemma_chars_deep_view(ls@[i as int]);
        }
        let t = trim_chars(ls[i].as_slice());
        if starts_with_str(t.as_slice(), "error[") {
            return Some(bracket_code_of(t.as_slice()));
        }
        i = i + 1;
    }
    None
}

// ───────────────────────── suggested next steps ─────────────────────────

/// The diagnostic commands suggested for a failure.
pub open spec fn suggestions(error_code: Seq<char>, output: Seq<char>, scope: Seq<char>) -> Seq<Seq<char>> {
    if error_code == "compile_error"@ {
        (match error_code_from(lines(output), 0) {
            Some(c) => seq!["rustc --explain "@ + c],
            None => Seq::empty(),
        }) + seq![
            if scope == "unit"@ {
                "cargo test --lib --no-run"@
            } else if scope == "integration"@ {
                "cargo test --tests --no-run"@
            } else {
                "cargo test --no-run"@
            },
        ]
    } else if error_code == "test_failure"@ {
        seq!["cargo test --lib <test_name> -- --nocapture"@] + (if scope != "unit"@ {
            seq!["cargo test --lib"@]
        } else {
            Seq::empty()
        })
    } else if error_code == "environment_error"@ {
        seq!["Check file permissions and disk space"@] + (if has_sub(output, ".cargo-lock"@) {
            seq!["Remove target/debug/.cargo-lock and retry"@]
        } else {
            Seq::empty()
        })
    } else {
        Seq::empty()
    }
}

/// Suggested next diagnostic commands for a Rust failure.
pub fn suggest_rust_diagnostic(error_code: &str, output: &str, scope: &str) -> (r: Vec<String>)
    ensures
        strs(r@) == suggestions(error_code@, output@, scope@),
{
    let mut out: Vec<String> = Vec::new();
    let ov = chars_of(output);
    if str_eq(error_code, "compile_error") {
        let ls = split_lines(ov.as_slice());
        match first_error_code(&ls) {
            Some(code) => {
                let mut v: Vec<char> = Vec::new();
                push_str(&mut v, "rustc --explain ");
                push_all(&mut v, code.as_slice());
                out.push(string_of(v.as_slice()));
            },
            None => {},
        }
        if str_eq(scope, "unit") {
            out.push("cargo test --lib --no-run".to_owned());
        } else if str_eq(scope, "integration") {
            out.push("cargo test --tests --no-run".to_owned());
        } else {
            out.push("cargo test --no-run".to_owned());
        }
    } else if str_eq(error_code, "test_failure") {
        out.push("cargo test --lib <test_name> -- --nocapture".to_owned());
        if !str_eq(scope, "unit") {
            out.push("cargo test --lib".to_owned());
        }
    } else if str_eq(error_code, "environment_error") {
        out.push("Check file permissions and disk space".to_owned());
        if contains_str(ov.as_slice(), ".cargo-lock") {
            out.push("Remove target/debug/.cargo-lock and retry".to_owned());
        }
    }
    proof {
        assert(strs(out@) =~= suggestions(error_code@, output@, scope@));
    }
    out
}

// ───────────────────────── failure fingerprints ─────────────────────────

/// The index of the first `c` in `s` at or after `i`.
pub open spec fn char_pos_from(s: Seq<char>, c: char, i: int) -> Option<int>
    decreases s.len() - i,
{
    if i < 0 || i >= s.len() {
        None
    } else if s[i] == c {
        Some(i)
    } else {
        char_pos_from(s, c, i + 1)
    }
}

/// The `file:line` of a location `file:line:col`: the text up to the
/// second colon (all of it when there is no second one); `None` without a colon.
pub open spec fn file_line_of(rest: Seq<char>) -> Option<Seq<char>> {
    match char_pos_from(rest, ':', 0) {
        Some(k) => match char_pos_from(rest, ':', k + 1) {
            Some(k2) => Some(rest.take(k2)),
            None => Some(rest),
        },
        None => None,
    }
}

/// The `file:line` of the first location line (`--> file:line:col`), from
/// line `i` on: its text up to the second colon (all of it when there is
/// no second one); `None` when there is no location line or it has no colon.
pub open spec fn location_file_from(ls: Seq<Seq<char>>, i: int) -> Option<Seq<char>>
    decreases ls.len() - i,
{
    if i < 0 || i >= ls.len() {
        None
    } else if starts_with(trim(ls[i]), "--> "@) {
        file_line_of(strip_prefix_all(trim(ls[i]), "--> "@))
    } else {
        location_file_from(ls, i + 1)
    }
}

/// Fingerprint from the first compiler error line, from line `i` on.
pub open spec fn fp_rustc_from(ls: Seq<Seq<char>>, i: int, ec: Seq<char>) -> Option<Seq<char>>
    decreases ls.len() - i,
{
    if i < 0 || i >= ls.len() {
        None
    } else {
        let t = trim(ls[i]);
        if starts_with(t, "error["@) {
            Some(
                match location_file_from(ls, 0) {
                    Some(f) => ec + "|rustc|"@ + bracket_code(t) + "|"@ + f,
                    None => ec + "|rustc|"@ + bracket_code(t),
                },
            )
        } else if starts_with(t, "error:"@) && !has_sub(t, "failed to open"@) {
            Some(ec + "|rustc_msg|"@ + first_n(trim(strip_prefix_all(t, "error:"@)), 60))
        } else {
            fp_rustc_from(ls, i + 1, ec)
        }
    }
}

/// Fingerprint from the first failed-test line, from line `i` on.
pub open spec fn fp_test_from(ls: Seq<Seq<char>>, i: int, ec: Seq<char>) -> Option<Seq<char>>
    decreases ls.len() - i,
{
    if i < 0 || i >= ls.len() {
        None
    } else {
        let t = trim(ls[i]);
        if has_sub(t, "FAILED"@) && has_sub(t, "..."@) {
            Some(ec + "|test_fail|"@ + strip_suffix_all(strip_prefix_all(t, "test "@), " ... FAILED"@))
        } else if starts_with(t, "FAILED "@) {
            Some(ec + "|test_fail|"@ + strip_prefix_all(t, "FAILED "@))
        } else {
            fp_test_from(ls, i + 1, ec)
        }
    }
}

/// Keywords of environment failures, in the order they are tried.
pub open spec fn env_keywords() -> Seq<Seq<char>> {
    seq![".cargo-lock"@, "permission denied"@, "拒绝访问"@, "access is denied"@, "failed to open"@]
}

/// Fingerprint from the first line naming an environment failure, from line `i` on.
pub open spec fn fp_env_from(ls: Seq<Seq<char>>, i: int, ec: Seq<char>) -> Option<Seq<char>>
    decreases ls.len() - i,
{
    if i < 0 || i >= ls.len() {
        None
    } else {
        match first_sub(lowercase(ls[i]), env_keywords()) {
            Some(k) => Some(ec + "|env|"@ + k),
            None => fp_env_from(ls, i + 1, ec),
        }
    }
}

/// Keywords that make a line relevant to a failure.
pub open spec fn relevant_keywords() -> Seq<Seq<char>> {
    seq!["error"@, "failed"@, "caused by"@, "panic"@]
}

/// The first `k` relevant lines from line `i` on.
pub open spec fn relevant_upto(ls: Seq<Seq<char>>, i: int, k: nat) -> Seq<Seq<char>>
    decreases ls.len() - i,
{
    if k == 0 || i < 0 || i >= ls.len() {
        Seq::empty()
    } else if any_sub(lowercase(ls[i]), relevant_keywords()) {
        seq![ls[i]] + relevant_upto(ls, i + 1, (k - 1) as nat)
    } else {
        relevant_upto(ls, i + 1, k)
    }
}

/// A stable fingerprint of a failure, tried in order: the first compiler
/// error (code and file), the first failed test, for environment errors
/// the first environment keyword, the first relevant lines, and at last
/// the error code alone.
pub open spec fn fingerprint(output: Seq<char>, ec: Seq<char>) -> Seq<char> {
    let ls = lines(output);
    match fp_rustc_from(ls, 0, ec) {
        Some(f) => f,
        None => match fp_test_from(ls, 0, ec) {
            Some(f) => f,
            None => match (if ec == "environment_error"@ { fp_env_from(ls, 0, ec) } else { None }) {
                Some(f) => f,
                None => {
                    let rel = join(relevant_upto(ls, 0, 3), "|"@);
                    if rel.len() > 0 {
                        ec + "|raw|"@ + first_n(rel, 80)
                    } else {
                        ec + "|unknown"@
                    }
                },
            },
        },
    }
}

fn char_pos(s: &[char], c: char, start: usize) -> (r: Option<usize>)
    ensures
        match r {
            Some(k) => char_pos_from(s@, c, start as int) == Some(k as int) && k < s@.len(),
            None => char_pos_from(s@, c, start as int) is None,
        },
{
    let mut i = start;
    while i < s.len()
        invariant
            start <= i,
            char_pos_from(s@, c, start as int) == char_pos_from(s@, c, i as int),
        decreases s@.len() - i,
    {
        if s[i] == c {
            return Some(i);
        }
        i = i + 1;
    }
    None
}

fn file_line(rest: &[char]) -> (r: Option<Vec<char>>)
    ensures
        (match r {
            Some(c) => Some(c@),
            None => None,
        }) == file_line_of(rest@),
{
    let n = rest.len();
    match char_pos(rest, ':', 0) {
        Some(k) => {
            assert(k < n);
            match char_pos(rest, ':', k + 1) {
                Some(k2) => {
                    let f = crate::text::slice_chars(rest, 0, k2);
                    assert(f@ =~= rest@.take(k2 as int));
                    Some(f)
                },
                None => {
                    let f = crate::text::slice_chars(rest, 0, n);
                    assert(f@ =~= rest@);
                    Some(f)
                },
            }
        },
        None => None,
    }
}

fn location_file(ls: &Vec<Vec<char>>) -> (r: Option<Vec<char>>)
    ensures
        (match r {
            Some(c) => Some(c@),
            None => None,
        }) == location_file_from(ls.deep_view(), 0),
{
    let mut i: usize = 0;
    while i < ls.len()
        invariant
            i <= ls@.len(),
            location_file_from(ls.deep_view(), 0) == location_file_from(ls.deep_view(), i as int),
        decreases ls@.len() - i,
    {
        proof {
            crate::text::lemma_chars_deep_view(ls@[i as int]);
        }
        let t = trim_chars(ls[i].as_slice());
        if starts_with_str(t.as_slice(), "--> ") {
            let rest = strip_prefix_all_chars(t.as_slice(), "--> ");
            return file_line(rest.as_slice());
        }
        i = i + 1;
    }
    None
}

fn fp_rustc(ls: &Vec<Vec<char>>, ec: &str) -> (r: Option<Vec<char>>)
    ensures
        (match r {
            Some(c) => Some(c@),
            None => None,
        }) == fp_rustc_from(ls.deep_view(), 0, ec@),
{
    let mut i: usize = 0;
    while i < ls.len()
        invariant
            i <= ls@.len(),
            fp_rustc_from(ls.deep_view(), 0, ec@) == fp_rustc_from(ls.deep_view(), i as int, ec@),
        decreases ls@.len() - i,
    {
        proof {
            crate::text::lemma_chars_deep_view(ls@[i as int]);
        }
        let t = trim_chars(ls[i].as_slice());
        if starts_with_str(t.as_slice(), "error[") {
            let code = bracket_code_of(t.as_slice());
            let mut v: Vec<char> = Vec::new();
            push_str(&mut v, ec);
            push_str(&mut v, "|rustc|");
            push_all(&mut v, code.as_slice());
            match location_file(ls) {
                Some(f) => {
                    push_str(&mut v, "|");
                    push_all(&mut v, f.as_slice());
                },
                None => {},
            }
            return Some(v);
        }
        if starts_with_str(t.as_slice(), "error:") && !contains_str(t.as_slice(), "failed to open") {
            let rest = strip_prefix_all_chars(t.as_slice(), "error:");
            let text = trim_chars(rest.as_slice());
            let short = first_n_chars(text.as_slice(), 60);
            let mut v: Vec<char> = Vec::new();
            push_str(&mut v, ec);
            push_str(&mut v, "|rustc_msg|");
            push_all(&mut v, short.as_slice());
            return Some(v);
        }
        i = i + 1;
    }
    None
}

fn fp_test(ls: &Vec<Vec<char>>, ec: &str) -> (r: Option<Vec<char>>)
    ensures
        (match r {
            Some(c) => Some(c@),
            None => None,
        }) == fp_test_from(ls.deep_view(), 0, ec@),
{
    let mut i: usize = 0;
    while i < ls.len()
        invariant
            i <= ls@.len(),
            fp_test_from(ls.deep_view(), 0, ec@) == fp_test_from(ls.deep_view(), i as int, ec@),
        decreases ls@.len() - i,
    {
        proof {
            crate::text::lemma_chars_deep_view(ls@[i as int]);
        }
        let t = trim_chars(ls[i].as_slice());
        if contains_str(t.as_slice(), "FAILED") && contains_str(t.as_slice(), "...") {
            let a = strip_prefix_all_chars(t.as_slice(), "test ");
            let name = strip_suffix_all_chars(a.as_slice(), " ... FAILED");
            let mut v: Vec<char> = Vec::new();
            push_str(&mut v, ec);
            push_str(&mut v, "|test_fail|");
            push_all(&mut v, name.as_slice());
            return Some(v);
        }
        if starts_with_str(t.as_slice(), "FAILED ") {
            let name = strip_prefix_all_chars(t.as_slice(), "FAILED ");
            let mut v: Vec<char> = Vec::new();
            push_str(&mut v, ec);
            push_str(&mut v, "|test_fail|");
            push_all(&mut v, name.as_slice());
            return Some(v);
        }
        i = i + 1;
    }
    None
}

fn env_keywords_table() -> (v: Vec<&'static str>)
    ensures
        str_views(v@) == env_keywords(),
{
    let mut v: Vec<&'static str> = Vec::new();
    v.push(".cargo-lock");
    v.push("permission denied");
    v.push("拒绝访问");
    v.push("access is denied");
    v.push("failed to open");
    proof {
        assert(str_views(v@) =~= env_keywords());
    }
    v
}

fn relevant_keywords_table() -> (v: Vec<&'static str>)
    ensures
        str_views(v@) == relevant_keywords(),
{
    let mut v: Vec<&'static str> = Vec::new();
    v.push("error");
    v.push("failed");
    v.push("caused by");
    v.push("panic");
    proof {
        assert(str_views(v@) =~= relevant_keywords());
    }
    v
}

fn fp_env(ls: &Vec<Vec<char>>, ec: &str) -> (r: Option<Vec<char>>)
    ensures
        (match r {
            Some(c) => Some(c@),
            None => None,
        }) == fp_env_from(ls.deep_view(), 0, ec@),
{
    let kws = env_keywords_table();
    let mut i: usize = 0;
    while i < ls.len()
        invariant
            i <= ls@.len(),
            str_views(kws@) == env_keywords(),
            fp_env_from(ls.deep_view(), 0, ec@) == fp_env_from(ls.deep_view(), i as int, ec@),
        decreases ls@.len() - i,
    {
        proof {
            crate::text::lemma_chars_deep_view(ls@[i as int]);
        }
        let lower = to_lowercase(ls[i].as_slice());
        match first_pattern(lower.as_slice(), &kws) {
            Some(k) => {
                let mut v: Vec<char> = Vec::new();
                push_str(&mut v, ec);
                push_str(&mut v, "|env|");
                push_str(&mut v, k);
                return Some(v);
            },
            None => {},
        }
        i = i + 1;
    }
    None
}

fn relevant_lines(ls: &Vec<Vec<char>>) -> (r: Vec<Vec<char>>)
    ensures
        r.deep_view() == relevant_upto(ls.deep_view(), 0, 3),
{
    let kws = relevant_keywords_table();
    let mut out: Vec<Vec<char>> = Vec::new();
    let mut i: usize = 0;
    while i < ls.len() && out.len() < 3
        invariant
            i <= ls@.len(),
            out@.len() <= 3,
            str_views(kws@) == relevant_keywords(),
            out.deep_view() + relevant_upto(ls.deep_view(), i as int, (3 - out@.len()) as nat) == relevant_upto(
                ls.deep_view(),
                0,
                3,
            ),
        decreases ls@.len() - i,
    {
        proof {
            crate::text::lemma_chars_deep_view(ls@[i as int]);
        }
        let lower = to_lowercase(ls[i].as_slice());
        if any_pattern(lower.as_slice(), &kws) {
            let ghost before = out.deep_view();
            let line = crate::text::slice_chars(ls[i].as_slice(), 0, ls[i].len());
            proof {
                assert(line@ =~= ls.deep_view()[i as int]);
            }
            push_line(&mut out, line);
            proof {
                assert(out.deep_view() + relevant_upto(ls.deep_view(), i + 1, (3 - out@.len()) as nat) =~= before
                    + relevant_upto(ls.deep_view(), i as int, (3 - before.len()) as nat));
            }
        }
        i = i + 1;
    }
    proof {
        assert(relevant_upto(ls.deep_view(), i as int, (3 - out@.len()) as nat) =~= Seq::<Seq<char>>::empty());
        assert(out.deep_view() + Seq::<Seq<char>>::empty() =~= out.deep_view());
    }
    out
}

/// A stable fingerprint of a failure output, used to notice repeated
/// failures with the same root cause.
pub fn compute_failure_fingerprint(output: &str, error_code: &str) -> (r: String)
    ensures
        r@ == fingerprint(output@, error_code@),
{
    let ov = chars_of(output);
    let ls = split_lines(ov.as_slice());
    match fp_rustc(&ls, error_code) {
        Some(f) => {
            return string_of(f.as_slice());
        },
        None => {},
    }
    match fp_test(&ls, error_code) {
        Some(f) => {
            return string_of(f.as_slice());
        },
        None => {},
    }
    if str_eq(error_code, "environment_error") {
        match fp_env(&ls, error_code) {
            Some(f) => {
                return string_of(f.as_slice());
            },
            None => {},
        }
    }
    let rel = relevant_lines(&ls);
    let bar = chars_of("|");
    let joined = join_chars(&rel, bar.as_slice());
    let mut v: Vec<char> = Vec::new();
    push_str(&mut v, error_code);
    if joined.len() > 0 {
        push_str(&mut v, "|raw|");
        let short = first_n_chars(joined.as_slice(), 80);
        push_all(&mut v, short.as_slice());
    } else {
        push_str(&mut v, "|unknown");
    }
    string_of(v.as_slice())
}

// ───────────────────────── diagnostic excerpts ─────────────────────────

/// Keywords that make a line part of the key diagnostics.
pub open spec fn excerpt_keywords() -> Seq<Seq<char>> {
    seq![
        "error"@,
        "failed"@,
        "Caused by"@,
        "Permission denied"@,
        "拒绝访问"@,
        "Access is denied"@,
        ".cargo-lock"@,
        "could not compile"@,
        "type annotations needed"@,
    ]
}

/// The trimmed lines split into key lines and (while fewer than 60 lines
/// are kept) other lines.
pub open spec fn excerpt_split(ls: Seq<Seq<char>>) -> (Seq<Seq<char>>, Seq<Seq<char>>)
    decreases ls.len(),
{
    if ls.len() == 0 {
        (Seq::empty(), Seq::empty())
    } else {
        let p = excerpt_split(ls.drop_last());
        let t = trim(ls.last());
        if any_sub(t, excerpt_keywords()) {
            (p.0.push(t), p.1)
        } else if p.0.len() + p.1.len() < 60 {
            (p.0, p.1.push(t))
        } else {
            p
        }
    }
}

/// `acc` followed by the lines of `ls`, each with a newline, up to the first
/// one that would take the UTF-8 length past `max`.
pub open spec fn fill_lines(acc: Seq<char>, ls: Seq<Seq<char>>, max: nat) -> Seq<char>
    decreases ls.len(),
{
    if ls.len() == 0 {
        acc
    } else if utf8_len(acc) + utf8_len(ls[0]) + 1 > max {
        acc
    } else {
        fill_lines(acc + ls[0] + seq!['\n'], ls.drop_first(), max)
    }
}

/// The excerpt: up to 20 key lines, then, if room is left, up to 15 other
/// lines, all within `max` bytes.
pub open spec fn diagnostic_excerpt(output: Seq<char>, max: nat) -> Seq<char> {
    let p = excerpt_split(lines(output));
    let r1 = fill_lines(Seq::empty(), crate::text::prefix_upto(p.0, 20), max);
    if utf8_len(r1) < max {
        fill_lines(r1, crate::text::prefix_upto(p.1, 15), max)
    } else {
        r1
    }
}

proof fn lemma_fill_bound(acc: Seq<char>, ls: Seq<Seq<char>>, max: nat)
    requires
        utf8_len(acc) <= max,
    ensures
        utf8_len(fill_lines(acc, ls, max)) <= max,
    decreases ls.len(),
{
    if ls.len() > 0 && utf8_len(acc) + utf8_len(ls[0]) + 1 <= max {
        crate::text::lemma_utf8_len_concat(acc, ls[0]);
        crate::text::lemma_utf8_len_push(acc + ls[0], '\n');
        assert(acc + ls[0] + seq!['\n'] =~= (acc + ls[0]).push('\n'));
        lemma_fill_bound(acc + ls[0] + seq!['\n'], ls.drop_first(), max);
    }
}

fn excerpt_keywords_table() -> (v: Vec<&'static str>)
    ensures
        str_views(v@) == excerpt_keywords(),
{
    let mut v: Vec<&'static str> = Vec::new();
    v.push("error");
    v.push("failed");
    v.push("Caused by");
    v.push("Permission denied");
    v.push("拒绝访问");
    v.push("Access is denied");
    v.push(".cargo-lock");
    v.push("could not compile");
    v.push("type annotations needed");
    proof {
        assert(str_views(v@) =~= excerpt_keywords());
    }
    v
}

/// Appends lines of `ls` (at most `limit`) to `out`, each with a newline,
/// while the UTF-8 length stays within `max`.
fn fill(out: &mut Vec<char>, bytes: &mut u128, ls: &Vec<Vec<char>>, limit: usize, max: usize)
    requires
        *old(bytes) == utf8_len(old(out)@),
        *old(bytes) <= max,
    ensures
        final(out)@ == fill_lines(old(out)@, crate::text::prefix_upto(ls.deep_view(), limit as nat), max as nat),
        *final(bytes) == utf8_len(final(out)@),
        *final(bytes) <= max,
{
    let ghost all = crate::text::prefix_upto(ls.deep_view(), limit as nat);
    let n = if ls.len() < limit { ls.len() } else { limit };
    proof {
        assert(all.len() == n);
        assert(all.skip(0) =~= all);
    }
    let mut i: usize = 0;
    while i < n
        invariant
            n <= ls@.len(),
            n == all.len(),
            all == crate::text::prefix_upto(ls.deep_view(), limit as nat),
            i <= n,
            *bytes == utf8_len(out@),
            *bytes <= max,
            fill_lines(old(out)@, all, max as nat) == fill_lines(out@, all.skip(i as int), max as nat),
        decreases n - i,
    {
        proof {
            crate::text::lemma_chars_deep_view(ls@[i as int]);
            assert(all[i as int] == ls.deep_view()[i as int]);
            assert(all.skip(i as int)[0] == all[i as int]);
            assert(all.skip(i as int).drop_first() =~= all.skip(i as int + 1));
        }
        let lb = utf8_len_of(ls[i].as_slice());
        proof {
            crate::text::lemma_utf8_len_bounds(ls@[i as int]@);
        }
        if lb >= (max as u128) - *bytes {
            proof {
                assert(fill_lines(out@, all.skip(i as int), max as nat) == out@);
            }
            return;
        }
        let ghost before = out@;
        push_all(out, ls[i].as_slice());
        out.push('\n');
        proof {
            crate::text::lemma_utf8_len_concat(before, ls@[i as int]@);
            crate::text::lemma_utf8_len_push(before + ls@[i as int]@, '\n');
            assert(out@ =~= (before + ls@[i as int]@).push('\n'));
            assert(out@ =~= before + all.skip(i as int)[0] + seq!['\n']);
        }
        *bytes = *bytes + lb + 1;
        i = i + 1;
    }
    proof {
        assert(all.skip(i as int) =~= Seq::<Seq<char>>::empty());
    }
}

/// A short excerpt of the lines that matter in a failure output, within
/// `max_chars` bytes: key lines first, then other lines.
pub fn extract_diagnostic_excerpt(output: &str, max_chars: usize) -> (r: String)
    ensures
        r@ == diagnostic_excerpt(output@, max_chars as nat),
        utf8_len(r@) <= max_chars,
{
    let ov = chars_of(output);
    let ls = split_lines(ov.as_slice());
    let kws = excerpt_keywords_table();
    let mut key: Vec<Vec<char>> = Vec::new();
    let mut other: Vec<Vec<char>> = Vec::new();
    let mut i: usize = 0;
    proof {
        assert(ls.deep_view().take(0) =~= Seq::<Seq<char>>::empty());
    }
    while i < ls.len()
        invariant
            i <= ls@.len(),
            str_views(kws@) == excerpt_keywords(),
            (key.deep_view(), other.deep_view()) == excerpt_split(ls.deep_view().take(i as int)),
        decreases ls@.len() - i,
    {
        proof {
            crate::text::lemma_chars_deep_view(ls@[i as int]);
            assert(ls.deep_view().take(i + 1).drop_last() =~= ls.deep_view().take(i as int));
        }
        let t = trim_chars(ls[i].as_slice());
        if any_pattern(t.as_slice(), &kws) {
            push_line(&mut key, t);
        } else if key.len() < 60 && other.len() < 60 - key.len() {
            push_line(&mut other, t);
        }
        i = i + 1;
    }
    proof {
        assert(ls.deep_view().take(i as int) =~= ls.deep_view());
    }
    let mut out: Vec<char> = Vec::new();
    let mut bytes: u128 = 0;
    fill(&mut out, &mut bytes, &key, 20, max_chars);
    if bytes < max_chars as u128 {
        fill(&mut out, &mut bytes, &other, 15, max_chars);
    }
    string_of(out.as_slice())
}

// ───────────────────────── compiler output ─────────────────────────

/// What the compiler output yields: the errors (each with its location),
/// the number of warnings, and, when the command failed but no error was
/// recognised, a raw excerpt.
#[derive(Debug, Clone)]
pub struct CompileResult {
    pub errors: Vec<String>,
    pub warning_count: usize,
    pub diagnostic_excerpt: Option<String>,
}

/// The report line of one error.
pub open spec fn error_entry(e: Seq<char>, loc: Option<Seq<char>>) -> Seq<char> {
    "- `"@ + e + "` at "@ + (match loc {
        Some(l) => l,
        None => "unknown location"@,
    })
}

/// Scan state after the given lines: finished error entries, warnings seen,
/// the error being read and its location.
pub open spec fn compile_scan(ls: Seq<Seq<char>>) -> (Seq<Seq<char>>, nat, Option<Seq<char>>, Option<Seq<char>>)
    decreases ls.len(),
{
    if ls.len() == 0 {
        (Seq::empty(), 0, None, None)
    } else {
        let st = compile_scan(ls.drop_last());
        let t = trim(ls.last());
        if starts_with(t, "error["@) || starts_with(t, "error:"@) {
            (
                match st.2 {
                    Some(e) => st.0.push(error_entry(e, st.3)),
                    None => st.0,
                },
                st.1,
                Some(t),
                None,
            )
        } else if starts_with(t, "warning:"@) || starts_with(t, "warning["@) {
            (st.0, st.1 + 1, st.2, st.3)
        } else if starts_with(t, "--> "@) {
            (st.0, st.1, st.2, Some(strip_prefix_all(t, "--> "@)))
        } else {
            st
        }
    }
}

/// The error entries of the output, at most 15 and then a line counting the rest.
pub open spec fn compile_errors(output: Seq<char>) -> Seq<Seq<char>> {
    let st = compile_scan(lines(output));
    let all = match st.2 {
        Some(e) => st.0.push(error_entry(e, st.3)),
        None => st.0,
    };
    if all.len() > 15 {
        all.take(15).push("... and "@ + decimal((all.len() - 15) as nat) + " more errors"@)
    } else {
        all
    }
}

proof fn lemma_scan_bounds(ls: Seq<Seq<char>>)
    ensures
        compile_scan(ls).0.len() <= ls.len(),
        compile_scan(ls).1 <= ls.len(),
        compile_scan(ls).2 is Some ==> compile_scan(ls).0.len() < ls.len(),
    decreases ls.len(),
{
    if ls.len() > 0 {
        lemma_scan_bounds(ls.drop_last());
    }
}

fn make_entry(e: &Vec<char>, loc: &Option<Vec<char>>) -> (r: Vec<char>)
    ensures
        r@ == error_entry(e@, match loc {
            Some(l) => Some(l@),
            None => None,
        }),
{
    let mut v: Vec<char> = Vec::new();
    push_str(&mut v, "- `");
    push_all(&mut v, e.as_slice());
    push_str(&mut v, "` at ");
    match loc {
        Some(l) => push_all(&mut v, l.as_slice()),
        None => push_str(&mut v, "unknown location"),
    }
    v
}

/// Reads compiler output: error entries with locations, warnings, and an
/// excerpt when the command failed without a recognised error.
pub fn classify_compile_output(output: &str, exit_code: i32) -> (r: CompileResult)
    ensures
        strs(r.errors@) == compile_errors(output@),
        r.warning_count == compile_scan(lines(output@)).1,
        r.diagnostic_excerpt is Some <==> (exit_code != 0 && compile_errors(output@).len() == 0),
        r.diagnostic_excerpt matches Some(x) ==> x@ == diagnostic_excerpt(output@, 3000),
{
    let ov = chars_of(output);
    let ls = split_lines(ov.as_slice());
    let mut errors: Vec<Vec<char>> = Vec::new();
    let mut warnings: usize = 0;
    let mut cur: Option<Vec<char>> = None;
    let mut loc: Option<Vec<char>> = None;
    let mut i: usize = 0;
    proof {
        assert(ls.deep_view().take(0) =~= Seq::<Seq<char>>::empty());
    }
    while i < ls.len()
        invariant
            i <= ls@.len(),
            ({
                let st = compile_scan(ls.deep_view().take(i as int));
                &&& errors.deep_view() == st.0
                &&& warnings == st.1
                &&& (match cur {
                    Some(c) => Some(c@),
                    None => None,
                }) == st.2
                &&& (match loc {
                    Some(l) => Some(l@),
                    None => None,
                }) == st.3
            }),
        decreases ls@.len() - i,
    {
        proof {
            crate::text::lemma_chars_deep_view(ls@[i as int]);
            assert(ls.deep_view().take(i + 1).drop_last() =~= ls.deep_view().take(i as int));
            lemma_scan_bounds(ls.deep_view().take(i as int));
        }
        let t = trim_chars(ls[i].as_slice());
        if starts_with_str(t.as_slice(), "error[") || starts_with_str(t.as_slice(), "error:") {
            match &cur {
                Some(e) => {
                    let entry = make_entry(e, &loc);
                    push_line(&mut errors, entry);
                },
                None => {},
            }
            cur = Some(t);
            loc = None;
        } else if starts_with_str(t.as_slice(), "warning:") || starts_with_str(t.as_slice(), "warning[") {
            warnings = warnings + 1;
        } else if starts_with_str(t.as_slice(), "--> ") {
            loc = Some(strip_prefix_all_chars(t.as_slice(), "--> "));
        }
        i = i + 1;
    }
    proof {
        assert(ls.deep_view().take(i as int) =~= ls.deep_view());
    }
    match &cur {
        Some(e) => {
            let entry = make_entry(e, &loc);
            push_line(&mut errors, entry);
        },
        None => {},
    }
    if errors.len() > 15 {
        let total = errors.len();
        let mut kept: Vec<Vec<char>> = Vec::new();
        let mut k: usize = 0;
        while k < 15
            invariant
                k <= 15 < errors@.len(),
                kept.deep_view() == errors.deep_view().take(k as int),
            decreases 15 - k,
        {
            proof {
                crate::text::lemma_chars_deep_view(errors@[k as int]);
                assert(errors.deep_view()[k as int] == errors@[k as int]@);
                assert(errors.deep_view().take(k + 1) =~= errors.deep_view().take(k as int).push(
                    errors.deep_view()[k as int],
                ));
            }
            let line = crate::text::slice_chars(errors[k].as_slice(), 0, errors[k].len());
            proof {
                assert(line@ =~= errors@[k as int]@);
            }
            push_line(&mut kept, line);
            k = k + 1;
            proof {
                assert(kept.deep_view() =~= errors.deep_view().take(k as int));
            }
        }
        let mut more: Vec<char> = Vec::new();
        push_str(&mut more, "... and ");
        let n = fmt_u64((total - 15) as u64);
        push_all(&mut more, n.as_slice());
        push_str(&mut more, " more errors");
        push_line(&mut kept, more);
        errors = kept;
    }
    let diagnostic_excerpt = if exit_code != 0 && errors.len() == 0 {
        Some(extract_diagnostic_excerpt(output, 3000))
    } else {
        None
    };
    CompileResult { errors: crate::text::strings_from(&errors), warning_count: warnings, diagnostic_excerpt }
}

// ───────────────────────── stderr summaries ─────────────────────────

/// Line beginnings that mark a key error line.
pub open spec fn key_prefixes() -> Seq<Seq<char>> {
    seq![
        "error["@,
        "error:"@,
        "Error:"@,
        "FAILED"@,
        "... FAILED"@,
        "AssertionError"@,
        "panic:"@,
        "thread '"@,
        "  -->"@,
        "Caused by:"@,
        "could not compile"@,
    ]
}

/// Words that mark a key error line.
pub open spec fn error_keywords() -> Seq<Seq<char>> {
    seq![
        "ImportError"@,
        "ModuleNotFoundError"@,
        "TypeError"@,
        "ValueError"@,
        "KeyError"@,
        "AttributeError"@,
        "Permission denied"@,
        "拒绝访问"@,
        "Access is denied"@,
        ".cargo-lock"@,
        "failed to open"@,
        "type annotations needed"@,
    ]
}

/// A line whose trimmed text begins with a key prefix or holds an error keyword.
pub open spec fn is_key_line(line: Seq<char>) -> bool {
    any_prefix(trim(line), key_prefixes()) || any_sub(trim(line), error_keywords())
}

/// The key lines, untrimmed, in order.
pub open spec fn key_lines_of(ls: Seq<Seq<char>>) -> Seq<Seq<char>>
    decreases ls.len(),
{
    if ls.len() == 0 {
        Seq::empty()
    } else if is_key_line(ls.last()) {
        key_lines_of(ls.drop_last()).push(ls.last())
    } else {
        key_lines_of(ls.drop_last())
    }
}

/// The numbered entry of key line `idx`, cut to 300 bytes.
pub open spec fn key_line_entry(line: Seq<char>, idx: int) -> Seq<char> {
    if utf8_len(line) > 300 {
        decimal((idx + 1) as nat) + ". "@ + floor_prefix(line, 300) + "...\n"@
    } else {
        decimal((idx + 1) as nat) + ". "@ + line + "\n"@
    }
}

/// The entries of the first `n` key lines.
pub open spec fn key_entries(keys: Seq<Seq<char>>, n: int) -> Seq<char>
    decreases n,
{
    if n <= 0 {
        Seq::empty()
    } else {
        key_entries(keys, n - 1) + key_line_entry(keys[n - 1], n - 1)
    }
}

/// The stderr text shortened to about `max` bytes: unchanged when it fits;
/// else its key error lines (at most ten listed) with counts, cut to `max`
/// bytes; else, with no key line, its head with a truncation note.
pub open spec fn truncated_stderr(stderr: Seq<char>, max: nat) -> Seq<char> {
    if utf8_len(stderr) <= max {
        stderr
    } else {
        let keys = key_lines_of(lines(stderr));
        let n = keys.len();
        if n == 0 {
            let head = floor_prefix(stderr, max);
            head + "...\n[Truncated: showing first "@ + decimal(utf8_len(head)) + " chars, total "@ + decimal(
                utf8_len(stderr),
            ) + " chars]"@
        } else {
            let body = "### Key errors ("@ + decimal(n) + " found)\n\n"@ + key_entries(keys, if n > 10 { 10 } else { n as int })
                + (if n > 10 { "\n... and "@ + decimal((n - 10) as nat) + " more errors omitted\n"@ } else { ""@ })
                + "\n[Full stderr: "@ + decimal(utf8_len(stderr)) + " chars, extracted "@ + decimal(n) + " key lines]"@;
            if utf8_len(body) > max {
                floor_prefix(body, max) + "..."@
            } else {
                body
            }
        }
    }
}

fn key_prefixes_table() -> (v: Vec<&'static str>)
    ensures
        str_views(v@) == key_prefixes(),
{
    let mut v: Vec<&'static str> = Vec::new();
    v.push("error[");
    v.push("error:");
    v.push("Error:");
    v.push("FAILED");
    v.push("... FAILED");
    v.push("AssertionError");
    v.push("panic:");
    v.push("thread '");
    v.push("  -->");
    v.push("Caused by:");
    v.push("could not compile");
    proof {
        assert(str_views(v@) =~= key_prefixes());
    }
    v
}

fn error_keywords_table() -> (v: Vec<&'static str>)
    ensures
        str_views(v@) == error_keywords(),
{
    let mut v: Vec<&'static str> = Vec::new();
    v.push("ImportError");
    v.push("ModuleNotFoundError");
    v.push("TypeError");
    v.push("ValueError");
    v.push("KeyError");
    v.push("AttributeError");
    v.push("Permission denied");
    v.push("拒绝访问");
    v.push("Access is denied");
    v.push(".cargo-lock");
    v.push("failed to open");
    v.push("type annotations needed");
    proof {
        assert(str_views(v@) =~= error_keywords());
    }
    v
}

/// Shortens stderr for a report, keeping the key error lines.
pub fn smart_truncate_stderr(stderr: &str, max_chars: usize) -> (r: String)
    ensures
        r@ == truncated_stderr(stderr@, max_chars as nat),
{
    let sv = chars_of(stderr);
    let total = utf8_len_of(sv.as_slice());
    if total <= max_chars as u128 {
        return stderr.to_owned();
    }
    let ls = split_lines(sv.as_slice());
    let prefixes = key_prefixes_table();
    let keywords = error_keywords_table();
    let mut keys: Vec<Vec<char>> = Vec::new();
    let mut i: usize = 0;
    proof {
        assert(ls.deep_view().take(0) =~= Seq::<Seq<char>>::empty());
    }
    while i < ls.len()
        invariant
            i <= ls@.len(),
            str_views(prefixes@) == key_prefixes(),
            str_views(keywords@) == error_keywords(),
            keys.deep_view() == key_lines_of(ls.deep_view().take(i as int)),
        decreases ls@.len() - i,
    {
        proof {
            crate::text::lemma_chars_deep_view(ls@[i as int]);
            assert(ls.deep_view().take(i + 1).drop_last() =~= ls.deep_view().take(i as int));
        }
        let t = trim_chars(ls[i].as_slice());
        if any_prefix_of(t.as_slice(), &prefixes) || any_pattern(t.as_slice(), &keywords) {
            let line = crate::text::slice_chars(ls[i].as_slice(), 0, ls[i].len());
            proof {
                assert(line@ =~= ls.deep_view()[i as int]);
            }
            push_line(&mut keys, line);
        }
        i = i + 1;
    }
    proof {
        assert(ls.deep_view().take(i as int) =~= ls.deep_view());
    }
    let mut out: Vec<char> = Vec::new();
    if keys.len() == 0 {
        let head = floor_prefix_chars(sv.as_slice(), max_chars as u128);
        let hb = utf8_len_of(head.as_slice());
        push_all(&mut out, head.as_slice());
        push_str(&mut out, "...\n[Truncated: showing first ");
        push_all(&mut out, crate::text::fmt_u128(hb).as_slice());
        push_str(&mut out, " chars, total ");
        push_all(&mut out, crate::text::fmt_u128(total).as_slice());
        push_str(&mut out, " chars]");
        return string_of(out.as_slice());
    }
    let n = keys.len();
    push_str(&mut out, "### Key errors (");
    push_all(&mut out, fmt_u64(n as u64).as_slice());
    push_str(&mut out, " found)\n\n");
    let ghost head = out@;
    let shown = if n > 10 { 10 } else { n };
    let mut k: usize = 0;
    while k < shown
        invariant
            k <= shown <= n == keys@.len(),
            shown == (if n > 10 { 10 } else { n }),
            out@ == head + key_entries(keys.deep_view(), k as int),
        decreases shown - k,
    {
        proof {
            crate::text::lemma_chars_deep_view(keys@[k as int]);
            assert(keys.deep_view()[k as int] == keys@[k as int]@);
        }
        let lb = utf8_len_of(keys[k].as_slice());
        push_all(&mut out, fmt_u64(k as u64 + 1).as_slice());
        push_str(&mut out, ". ");
        if lb > 300 {
            let cut = floor_prefix_chars(keys[k].as_slice(), 300);
            push_all(&mut out, cut.as_slice());
            push_str(&mut out, "...\n");
        } else {
            push_all(&mut out, keys[k].as_slice());
            push_str(&mut out, "\n");
        }
        proof {
            assert(out@ =~= head + key_entries(keys.deep_view(), k as int) + key_line_entry(
                keys.deep_view()[k as int],
                k as int,
            ));
        }
        k = k + 1;
    }
    if n > 10 {
        push_str(&mut out, "\n... and ");
        push_all(&mut out, fmt_u64((n - 10) as u64).as_slice());
        push_str(&mut out, " more errors omitted\n");
    } else {
        push_str(&mut out, "");
    }
    push_str(&mut out, "\n[Full stderr: ");
    push_all(&mut out, crate::text::fmt_u128(total).as_slice());
    push_str(&mut out, " chars, extracted ");
    push_all(&mut out, fmt_u64(n as u64).as_slice());
    push_str(&mut out, " key lines]");
    proof {
        let keys_s = key_lines_of(lines(stderr@));
        assert(keys.deep_view() == keys_s);
        assert(out@ =~= "### Key errors ("@ + decimal(n as nat) + " found)\n\n"@ + key_entries(
            keys_s,
            if n > 10 { 10 } else { n as int },
        ) + (if n > 10 { "\n... and "@ + decimal((n - 10) as nat) + " more errors omitted\n"@ } else { ""@ })
            + "\n[Full stderr: "@ + decimal(utf8_len(stderr@)) + " chars, extracted "@ + decimal(n as nat)
            + " key lines]"@);
    }
    let ob = utf8_len_of(out.as_slice());
    if ob > max_chars as u128 {
        let mut cut = floor_prefix_chars(out.as_slice(), max_chars as u128);
        push_str(&mut cut, "...");
        return string_of(cut.as_slice());
    }
    string_of(out.as_slice())
}

// ───────────────────────── test output counts ─────────────────────────

/// `s` split at every character of `seps` (`str::split` with a character set).
pub open spec fn split_pieces(s: Seq<char>, seps: Seq<char>) -> Seq<Seq<char>>
    decreases s.len(),
{
    if s.len() == 0 {
        seq![Seq::empty()]
    } else {
        let p = split_pieces(s.drop_last(), seps);
        if seps.contains(s.last()) {
            p.push(Seq::empty())
        } else {
            p.update(p.len() - 1, p.last().push(s.last()))
        }
    }
}

pub proof fn lemma_split_pieces_len(s: Seq<char>, seps: Seq<char>)
    ensures
        split_pieces(s, seps).len() >= 1,
    decreases s.len(),
{
    if s.len() > 0 {
        lemma_split_pieces_len(s.drop_last(), seps);
    }
}

/// The trimmed pieces that are not empty.
pub open spec fn nonempty_trims(ps: Seq<Seq<char>>) -> Seq<Seq<char>>
    decreases ps.len(),
{
    if ps.len() == 0 {
        Seq::empty()
    } else if trim(ps.last()).len() > 0 {
        nonempty_trims(ps.drop_last()).push(trim(ps.last()))
    } else {
        nonempty_trims(ps.drop_last())
    }
}

/// The tokens of a line split at the given separators.
pub open spec fn tokens_of(line: Seq<char>, seps: Seq<char>) -> Seq<Seq<char>> {
    nonempty_trims(split_pieces(line, seps))
}

/// Index of the first token (from `i`) that `kw` follows.
pub open spec fn window_from(tokens: Seq<Seq<char>>, kw: Seq<char>, i: int) -> Option<int>
    decreases tokens.len() - i,
{
    if i < 0 || i + 1 >= tokens.len() {
        None
    } else if tokens[i + 1] == kw {
        Some(i)
    } else {
        window_from(tokens, kw, i + 1)
    }
}

/// A decimal digit.
pub open spec fn is_digit(c: char) -> bool {
    '0' <= c && c <= '9'
}

/// The value of a string of decimal digits.
pub open spec fn digits_value(d: Seq<char>) -> nat
    decreases d.len(),
{
    if d.len() == 0 {
        0
    } else {
        digits_value(d.drop_last()) * 10 + ((d.last() as int - '0' as int) as nat)
    }
}

/// The text after an optional leading `+`.
pub open spec fn unsigned_digits(s: Seq<char>) -> Seq<char> {
    if s.len() > 0 && s[0] == '+' {
        s.skip(1)
    } else {
        s
    }
}

/// Every character is a decimal digit.
pub open spec fn all_digits(d: Seq<char>) -> bool {
    forall|i: int| 0 <= i < d.len() ==> is_digit(#[trigger] d[i])
}

/// `str::parse::<usize>`: an optional `+`, then one or more decimal digits,
/// whose value fits in `usize`.
pub open spec fn parse_usize(s: Seq<char>) -> Option<nat> {
    let d = unsigned_digits(s);
    if d.len() > 0 && all_digits(d) && digits_value(d) <= usize::MAX {
        Some(digits_value(d))
    } else {
        None
    }
}

proof fn lemma_parse_rejects(s: Seq<char>, d: Seq<char>, k: int)
    requires
        d == unsigned_digits(s),
        0 <= k < d.len(),
        !is_digit(d[k]) || digits_value(d) > usize::MAX,
    ensures
        parse_usize(s) is None,
{
}

/// The number that precedes `kw` among the tokens, if it parses.
pub open spec fn count_before(tokens: Seq<Seq<char>>, kw: Seq<char>) -> Option<nat> {
    match window_from(tokens, kw, 0) {
        Some(i) => parse_usize(tokens[i]),
        None => None,
    }
}

/// Index of the first line (from `i`) holding `p`.
pub open spec fn line_with(ls: Seq<Seq<char>>, p: Seq<char>, i: int) -> Option<int>
    decreases ls.len() - i,
{
    if i < 0 || i >= ls.len() {
        None
    } else if has_sub(ls[i], p) {
        Some(i)
    } else {
        line_with(ls, p, i + 1)
    }
}

/// Index of the first line (from `i`) holding "passed" or "failed".
pub open spec fn pass_fail_line(ls: Seq<Seq<char>>, i: int) -> Option<int>
    decreases ls.len() - i,
{
    if i < 0 || i >= ls.len() {
        None
    } else if has_sub(ls[i], "passed"@) || has_sub(ls[i], "failed"@) {
        Some(i)
    } else {
        pass_fail_line(ls, i + 1)
    }
}

/// Number of lines that report one test (`test … ...`).
pub open spec fn test_line_count(ls: Seq<Seq<char>>) -> nat
    decreases ls.len(),
{
    if ls.len() == 0 {
        0
    } else {
        test_line_count(ls.drop_last()) + (if starts_with(ls.last(), "test "@) && has_sub(ls.last(), "..."@) {
            1nat
        } else {
            0nat
        })
    }
}

/// (passed, failed, total) read from test output: from the cargo summary
/// line when there is one, else from the first line naming passes or
/// failures (with no total).
pub open spec fn test_counts(stdout: Seq<char>, stderr: Seq<char>) -> (Option<nat>, Option<nat>, Option<nat>) {
    let ls = lines(stdout + "\n"@ + stderr);
    match line_with(ls, "test result:"@, 0) {
        Some(k) => {
            let t = tokens_of(ls[k], seq![' ', ';', '.']);
            (count_before(t, "passed"@), count_before(t, "failed"@), Some(test_line_count(ls)))
        },
        None => match pass_fail_line(ls, 0) {
            Some(k) => {
                let t = tokens_of(ls[k], seq![' ', ',', '=']);
                (count_before(t, "passed"@), count_before(t, "failed"@), None)
            },
            None => (None, None, None),
        },
    }
}

proof fn lemma_pass_fail_line_at(ls: Seq<Seq<char>>, k: int, i: int)
    requires
        0 <= i <= k < ls.len(),
        has_sub(ls[k], "passed"@) || has_sub(ls[k], "failed"@),
        forall|m: int| 0 <= m < k ==> !has_sub(#[trigger] ls[m], "passed"@) && !has_sub(ls[m], "failed"@),
    ensures
        pass_fail_line(ls, i) == Some(k),
    decreases k - i,
{
    if i < k {
        lemma_pass_fail_line_at(ls, k, i + 1);
    }
}

proof fn lemma_no_line_with(ls: Seq<Seq<char>>, p: Seq<char>, i: int)
    requires
        0 <= i,
        forall|m: int| 0 <= m < ls.len() ==> !has_sub(#[trigger] ls[m], p),
    ensures
        line_with(ls, p, i) is None,
    decreases ls.len() - i,
{
    if i < ls.len() {
        lemma_no_line_with(ls, p, i + 1);
    }
}

/// Without a cargo summary line, the counts come from the first line that
/// mentions passes or failures, also when it mentions only failures (as
/// pytest's `= 2 failed in 0.05s =` does): both counts are read from that
/// line's tokens, and there is no total.
pub proof fn law_failures_counted_without_summary(stdout: Seq<char>, stderr: Seq<char>, k: int)
    requires
        ({
            let ls = lines(stdout + "\n"@ + stderr);
            &&& 0 <= k < ls.len()
            &&& forall|m: int| 0 <= m < ls.len() ==> !has_sub(#[trigger] ls[m], "test result:"@)
            &&& has_sub(ls[k], "failed"@)
            &&& forall|m: int| 0 <= m < k ==> !has_sub(#[trigger] ls[m], "failed"@)
            &&& forall|m: int| 0 <= m < k ==> !has_sub(#[trigger] ls[m], "passed"@)
        }),
    ensures
        ({
            let ls = lines(stdout + "\n"@ + stderr);
            let t = tokens_of(ls[k], seq![' ', ',', '=']);
            test_counts(stdout, stderr) == (count_before(t, "passed"@), count_before(t, "failed"@), None::<nat>)
        }),
{
    let ls = lines(stdout + "\n"@ + stderr);
    lemma_no_line_with(ls, "test result:"@, 0);
    assert forall|m: int| 0 <= m < k implies !has_sub(#[trigger] ls[m], "passed"@) && !has_sub(ls[m], "failed"@) by {}
    lemma_pass_fail_line_at(ls, k, 0);
}

/// A count is the number written just before the first `kw` token (not
/// counting a `kw` in first place): for `2 failed` it is what `2` parses to.
pub proof fn law_count_is_number_before_keyword(t: Seq<Seq<char>>, kw: Seq<char>, i: int)
    requires
        0 <= i,
        i + 1 < t.len(),
        t[i + 1] == kw,
        forall|q: int| 1 <= q <= i ==> #[trigger] t[q] != kw,
    ensures
        count_before(t, kw) == parse_usize(t[i]),
{
    lemma_window_at(t, kw, i, 0);
}

proof fn lemma_window_at(t: Seq<Seq<char>>, kw: Seq<char>, i: int, j: int)
    requires
        0 <= j <= i,
        i + 1 < t.len(),
        t[i + 1] == kw,
        forall|q: int| 1 <= q <= i ==> #[trigger] t[q] != kw,
    ensures
        window_from(t, kw, j) == Some(i),
    decreases i - j,
{
    if j < i {
        assert(t[j + 1] != kw);
        lemma_window_at(t, kw, i, j + 1);
    }
}

/// The value of an optional count.
pub open spec fn opt_nat(o: Option<usize>) -> Option<nat> {
    match o {
        Some(n) => Some(n as nat),
        None => None,
    }
}

/// The non-empty trimmed pieces of `line` split at the characters of `seps`.
/// The pieces of a line between separator characters (`str::split` on a
/// set of characters), empty pieces included.
pub fn split_at_any(line: &[char], seps: &[char]) -> (r: Vec<Vec<char>>)
    ensures
        r.deep_view() == split_pieces(line@, seps@),
{
    let mut pieces: Vec<Vec<char>> = Vec::new();
    let mut cur: Vec<char> = Vec::new();
    let mut i: usize = 0;
    proof {
        assert(line@.take(0) =~= Seq::<char>::empty());
        assert(pieces.deep_view().push(cur@) =~= split_pieces(line@.take(0), seps@));
    }
    while i < line.len()
        invariant
            i <= line@.len(),
            pieces.deep_view().push(cur@) == split_pieces(line@.take(i as int), seps@),
        decreases line@.len() - i,
    {
        let c = line[i];
        proof {
            assert(line@.take(i + 1).drop_last() =~= line@.take(i as int));
            assert(line@.take(i + 1).last() == c);
        }
        let mut is_sep = false;
        let mut j: usize = 0;
        while j < seps.len()
            invariant
                j <= seps@.len(),
                is_sep == (exists|k: int| 0 <= k < j && seps@[k] == c),
            decreases seps@.len() - j,
        {
            if seps[j] == c {
                is_sep = true;
            }
            j = j + 1;
        }
        proof {
            assert(is_sep == seps@.contains(c));
        }
        if is_sep {
            let ghost before = pieces.deep_view();
            let done = cur;
            push_line(&mut pieces, done);
            cur = Vec::new();
            proof {
                assert(pieces.deep_view().push(cur@) =~= before.push(done@).push(Seq::<char>::empty()));
            }
        } else {
            let ghost before = cur@;
            cur.push(c);
            proof {
                assert(pieces.deep_view().push(cur@) =~= pieces.deep_view().push(before).update(
                    pieces.deep_view().len() as int,
                    before.push(c),
                ));
            }
        }
        i = i + 1;
    }
    proof {
        assert(line@.take(i as int) =~= line@);
    }
    let last = cur;
    push_line(&mut pieces, last);
    pieces
}

pub fn tokens(line: &[char], seps: &[char]) -> (r: Vec<Vec<char>>)
    ensures
        r.deep_view() == tokens_of(line@, seps@),
{
    let pieces = split_at_any(line, seps);
    let ghost ps = pieces.deep_view();
    let mut out: Vec<Vec<char>> = Vec::new();
    let mut k: usize = 0;
    proof {
        assert(ps.take(0) =~= Seq::<Seq<char>>::empty());
    }
    while k < pieces.len()
        invariant
            k <= pieces@.len(),
            ps == pieces.deep_view(),
            ps == split_pieces(line@, seps@),
            out.deep_view() == nonempty_trims(ps.take(k as int)),
        decreases pieces@.len() - k,
    {
        proof {
            crate::text::lemma_chars_deep_view(pieces@[k as int]);
            assert(ps[k as int] == pieces@[k as int]@);
            assert(ps.take(k + 1).drop_last() =~= ps.take(k as int));
        }
        let t = trim_chars(pieces[k].as_slice());
        if t.len() > 0 {
            push_line(&mut out, t);
        }
        k = k + 1;
    }
    proof {
        assert(ps.take(k as int) =~= ps);
    }
    out
}

/// `str::parse::<usize>`.
fn parse_count(s: &[char]) -> (r: Option<usize>)
    ensures
        opt_nat(r) == parse_usize(s@),
{
    let start: usize = if s.len() > 0 && s[0] == '+' { 1 } else { 0 };
    let ghost d = if s@.len() > 0 && s@[0] == '+' { s@.skip(1) } else { s@ };
    proof {
        assert(d =~= s@.skip(start as int));
    }
    if start >= s.len() {
        proof {
            assert(d.len() == 0);
        }
        return None;
    }
    let mut acc: usize = 0;
    let mut i: usize = start;
    proof {
        assert(s@.subrange(start as int, start as int) =~= Seq::<char>::empty());
    }
    while i < s.len()
        invariant
            start <= i <= s@.len(),
            d == s@.skip(start as int),
            d == unsigned_digits(s@),
            forall|k: int| start <= k < i ==> is_digit(#[trigger] s@[k]),
            acc as nat == digits_value(s@.subrange(start as int, i as int)),
        decreases s@.len() - i,
    {
        let c = s[i];
        if !('0' <= c && c <= '9') {
            proof {
                assert(d[i - start] == c);
                assert(!is_digit(d[i - start]));
                lemma_parse_rejects(s@, d, i - start);
            }
            return None;
        }
        let dv: usize = (c as u32 - '0' as u32) as usize;
        proof {
            assert(s@.subrange(start as int, i + 1).drop_last() =~= s@.subrange(start as int, i as int));
            assert(s@.subrange(start as int, i + 1).last() == c);
            assert(digits_value(s@.subrange(start as int, i + 1)) == acc * 10 + dv);
        }
        let m = acc.checked_mul(10);
        match m {
            Some(m) => match m.checked_add(dv) {
                Some(v) => {
                    acc = v;
                },
                None => {
                    proof {
                        if all_digits(d) {
                            lemma_digits_prefix(d, (i - start + 1) as int);
                            assert(d.take(i - start + 1) =~= s@.subrange(start as int, i + 1));
                            assert(digits_value(d) > usize::MAX);
                            lemma_parse_rejects(s@, d, 0);
                        }
                    }
                    return None;
                },
            },
            None => {
                proof {
                    if all_digits(d) {
                        lemma_digits_prefix(d, (i - start + 1) as int);
                        assert(d.take(i - start + 1) =~= s@.subrange(start as int, i + 1));
                        assert(digits_value(d) > usize::MAX);
                        lemma_parse_rejects(s@, d, 0);
                    }
                }
                return None;
            },
        }
        i = i + 1;
    }
    proof {
        assert(s@.subrange(start as int, i as int) =~= d);
        assert forall|k: int| 0 <= k < d.len() implies is_digit(#[trigger] d[k]) by {
            assert(d[k] == s@[start + k]);
        }
    }
    Some(acc)
}

pub proof fn lemma_digits_prefix(d: Seq<char>, n: int)
    requires
        0 <= n <= d.len(),
        all_digits(d),
    ensures
        digits_value(d.take(n)) <= digits_value(d),
    decreases d.len() - n,
{
    if n < d.len() {
        lemma_digits_prefix(d, n + 1);
        assert(d.take(n + 1).drop_last() =~= d.take(n));
        assert(is_digit(d[n]));
    } else {
        assert(d.take(n) =~= d);
    }
}

fn count_before_kw(tokens: &Vec<Vec<char>>, kw: &str) -> (r: Option<usize>)
    ensures
        opt_nat(r) == count_before(tokens.deep_view(), kw@),
{
    let mut i: usize = 0;
    while tokens.len() > 0 && i < tokens.len() - 1
        invariant
            i <= tokens@.len(),
            window_from(tokens.deep_view(), kw@, 0) == window_from(tokens.deep_view(), kw@, i as int),
        decreases tokens@.len() - i,
    {
        proof {
            crate::text::lemma_chars_deep_view(tokens@[i + 1]);
            assert(tokens.deep_view()[i + 1] == tokens@[i + 1]@);
        }
        if eq_str(tokens[i + 1].as_slice(), kw) {
            proof {
                crate::text::lemma_chars_deep_view(tokens@[i as int]);
                assert(tokens.deep_view()[i as int] == tokens@[i as int]@);
            }
            return parse_count(tokens[i].as_slice());
        }
        i = i + 1;
    }
    None
}

/// (passed, failed, total) read from test output.
pub fn parse_test_output(stdout: &str, stderr: &str) -> (r: (Option<usize>, Option<usize>, Option<usize>))
    ensures
        (opt_nat(r.0), opt_nat(r.1), opt_nat(r.2)) == test_counts(stdout@, stderr@),
{
    let mut combined = chars_of(stdout);
    push_str(&mut combined, "\n");
    push_str(&mut combined, stderr);
    let ls = split_lines(combined.as_slice());
    let mut i: usize = 0;
    while i < ls.len()
        invariant
            i <= ls@.len(),
            combined@ == stdout@ + "\n"@ + stderr@,
            ls.deep_view() == lines(combined@),
            line_with(ls.deep_view(), "test result:"@, 0) == line_with(ls.deep_view(), "test result:"@, i as int),
        decreases ls@.len() - i,
    {
        proof {
            crate::text::lemma_chars_deep_view(ls@[i as int]);
            assert(ls.deep_view()[i as int] == ls@[i as int]@);
        }
        if contains_str(ls[i].as_slice(), "test result:") {
            proof {
                assert(combined@ == stdout@ + "\n"@ + stderr@);
                assert(line_with(ls.deep_view(), "test result:"@, i as int) == Some(i as int));
            }
            let seps: Vec<char> = vec![' ', ';', '.'];
            proof {
                assert(seps@ =~= seq![' ', ';', '.']);
            }
            let t = tokens(ls[i].as_slice(), seps.as_slice());
            let passed = count_before_kw(&t, "passed");
            let failed = count_before_kw(&t, "failed");
            let mut total: usize = 0;
            let mut j: usize = 0;
            proof {
                assert(ls.deep_view().take(0) =~= Seq::<Seq<char>>::empty());
            }
            while j < ls.len()
                invariant
                    j <= ls@.len(),
                    total as nat == test_line_count(ls.deep_view().take(j as int)),
                    total <= j,
                decreases ls@.len() - j,
            {
                proof {
                    crate::text::lemma_chars_deep_view(ls@[j as int]);
                    assert(ls.deep_view()[j as int] == ls@[j as int]@);
                    assert(ls.deep_view().take(j + 1).drop_last() =~= ls.deep_view().take(j as int));
                }
                if starts_with_str(ls[j].as_slice(), "test ") && contains_str(ls[j].as_slice(), "...") {
                    total = total + 1;
                }
                j = j + 1;
            }
            proof {
                assert(ls.deep_view().take(j as int) =~= ls.deep_view());
            }
            return (passed, failed, Some(total));
        }
        i = i + 1;
    }
    let mut k: usize = 0;
    while k < ls.len()
        invariant
            k <= ls@.len(),
            combined@ == stdout@ + "\n"@ + stderr@,
            ls.deep_view() == lines(combined@),
            line_with(ls.deep_view(), "test result:"@, 0) is None,
            pass_fail_line(ls.deep_view(), 0) == pass_fail_line(ls.deep_view(), k as int),
        decreases ls@.len() - k,
    {
        proof {
            crate::text::lemma_chars_deep_view(ls@[k as int]);
            assert(ls.deep_view()[k as int] == ls@[k as int]@);
        }
        if contains_str(ls[k].as_slice(), "passed") || contains_str(ls[k].as_slice(), "failed") {
            proof {
                assert(combined@ == stdout@ + "\n"@ + stderr@);
                assert(pass_fail_line(ls.deep_view(), k as int) == Some(k as int));
            }
            let seps: Vec<char> = vec![' ', ',', '='];
            proof {
                assert(seps@ =~= seq![' ', ',', '=']);
            }
            let t = tokens(ls[k].as_slice(), seps.as_slice());
            let passed = count_before_kw(&t, "passed");
            let failed = count_before_kw(&t, "failed");
            return (passed, failed, None);
        }
        k = k + 1;
    }
    (None, None, None)
}

// ───────────────────────── report pieces ─────────────────────────

/// A project that tests could be run in: its directory relative to the
/// working directory, and its detected type.
#[derive(Debug, Clone)]
pub struct ProjectCandidate {
    pub relative: String,
    pub project_type: String,
}

/// The numbered candidate lines, from candidate `0` up to `n`.
pub open spec fn candidate_lines(cs: Seq<ProjectCandidate>, n: int) -> Seq<char>
    decreases n,
{
    if n <= 0 {
        Seq::empty()
    } else {
        candidate_lines(cs, n - 1) + decimal(n as nat) + ". `"@ + cs[n - 1].relative@ + "` — `"@
            + cs[n - 1].project_type@ + "` project\n"@
    }
}

/// The message asking the caller to choose among several projects.
pub open spec fn ambiguous_message(cs: Seq<ProjectCandidate>) -> Seq<char> {
    "## Ambiguous project: multiple project types detected.\n\nSpecify `subproject` in your run_tests call to choose one:\n\n"@
        + candidate_lines(cs, cs.len() as int)
}

/// Asks the caller to choose among several detected projects.
pub fn ambiguous_project_message(candidates: &[ProjectCandidate]) -> (r: String)
    ensures
        r@ == ambiguous_message(candidates@),
{
    let mut v: Vec<char> = Vec::new();
    push_str(
        &mut v,
        "## Ambiguous project: multiple project types detected.\n\nSpecify `subproject` in your run_tests call to choose one:\n\n",
    );
    let ghost head = v@;
    let mut i: usize = 0;
    while i < candidates.len()
        invariant
            i <= candidates@.len(),
            v@ == head + candidate_lines(candidates@, i as int),
        decreases candidates@.len() - i,
    {
        push_all(&mut v, fmt_u64(i as u64 + 1).as_slice());
        push_str(&mut v, ". `");
        push_str(&mut v, candidates[i].relative.as_str());
        push_str(&mut v, "` — `");
        push_str(&mut v, candidates[i].project_type.as_str());
        push_str(&mut v, "` project\n");
        i = i + 1;
        proof {
            assert(v@ =~= head + candidate_lines(candidates@, i as int));
        }
    }
    string_of(v.as_slice())
}

/// Hint for output that reports something unimplemented.
pub open spec fn hint_unimplemented() -> Seq<char> {
    "A `unimplemented!()` / `todo!()` / `NotImplementedError` occurred — this is expected during TDD red phase. Write the real implementation to fix it."@
}

/// Hint for Rust tests that compiled but failed.
pub open spec fn hint_assertions() -> Seq<char> {
    "Compilation passed. Test assertions failed — fix the logic in your implementation, not the syntax."@
}

/// Hint for a Python import failure.
pub open spec fn hint_import() -> Seq<char> {
    "An import error occurred — check if the module exists and the project environment is set up (run setup_test_env)."@
}

/// The hints that apply to a test run.
pub open spec fn context_hints(project_type: Seq<char>, out: Seq<char>, exit_code: int, fail_count: int) -> Seq<Seq<char>> {
    (if has_sub(out, "not implemented"@) || has_sub(out, "not yet implemented"@) || has_sub(out, "NotImplementedError"@) {
        seq![hint_unimplemented()]
    } else {
        Seq::empty()
    }) + (if project_type == "rust"@ && exit_code != 0 && fail_count > 0 && !has_sub(out, "error["@) && !has_sub(
        out,
        "error:"@,
    ) {
        seq![hint_assertions()]
    } else {
        Seq::empty()
    }) + (if project_type == "python"@ && (has_sub(out, "ModuleNotFoundError"@) || has_sub(out, "ImportError"@)) {
        seq![hint_import()]
    } else {
        Seq::empty()
    })
}

/// The bulleted hint lines.
pub open spec fn hint_bullets(hs: Seq<Seq<char>>) -> Seq<char>
    decreases hs.len(),
{
    if hs.len() == 0 {
        Seq::empty()
    } else {
        hint_bullets(hs.drop_last()) + "- "@ + hs.last() + "\n"@
    }
}

/// The hints section (empty when no hint applies).
pub open spec fn hints_section(hs: Seq<Seq<char>>) -> Seq<char> {
    if hs.len() == 0 {
        Seq::empty()
    } else {
        "\n### Hints\n"@ + hint_bullets(hs)
    }
}

/// Appends the hints that apply to a test run to the report.
pub fn append_context_hints(report: &mut String, project_type: &str, combined_output: &str, exit_code: i32, fail_count: usize)
    ensures
        final(report)@ == old(report)@ + hints_section(
            context_hints(project_type@, combined_output@, exit_code as int, fail_count as int),
        ),
{
    let out = chars_of(combined_output);
    let o = out.as_slice();
    let mut hints: Vec<Vec<char>> = Vec::new();
    if contains_str(o, "not implemented") || contains_str(o, "not yet implemented") || contains_str(o, "NotImplementedError") {
        push_line(
            &mut hints,
            chars_of(
                "A `unimplemented!()` / `todo!()` / `NotImplementedError` occurred — this is expected during TDD red phase. Write the real implementation to fix it.",
            ),
        );
    }
    if str_eq(project_type, "rust") && exit_code != 0 && fail_count > 0 && !contains_str(o, "error[") && !contains_str(o, "error:") {
        push_line(
            &mut hints,
            chars_of("Compilation passed. Test assertions failed — fix the logic in your implementation, not the syntax."),
        );
    }
    if str_eq(project_type, "python") && (contains_str(o, "ModuleNotFoundError") || contains_str(o, "ImportError")) {
        push_line(
            &mut hints,
            chars_of(
                "An import error occurred — check if the module exists and the project environment is set up (run setup_test_env).",
            ),
        );
    }
    let ghost hs = context_hints(project_type@, combined_output@, exit_code as int, fail_count as int);
    proof {
        assert(hints.deep_view() =~= hs);
    }
    if hints.len() > 0 {
        let mut v = chars_of(report.as_str());
        push_str(&mut v, "\n### Hints\n");
        let ghost head = v@;
        let mut i: usize = 0;
        while i < hints.len()
            invariant
                i <= hints@.len(),
                hints.deep_view() == hs,
                v@ == head + hint_bullets(hs.take(i as int)),
            decreases hints@.len() - i,
        {
            proof {
                crate::text::lemma_chars_deep_view(hints@[i as int]);
                assert(hs[i as int] == hints@[i as int]@);
                assert(hs.take(i + 1).drop_last() =~= hs.take(i as int));
            }
            push_str(&mut v, "- ");
            push_all(&mut v, hints[i].as_slice());
            push_str(&mut v, "\n");
            i = i + 1;
            proof {
                assert(v@ =~= head + hint_bullets(hs.take(i as int)));
            }
        }
        proof {
            assert(hs.take(i as int) =~= hs);
        }
        *report = string_of(v.as_slice());
    }
}

// ───────────────────────── running tests ─────────────────────────

/// How a test run fails, as reported to the model.
#[derive(Debug, Clone)]
pub struct FailureReport {
    pub error_code: &'static str,
    pub message: String,
    pub diagnostic_grade: &'static str,
    pub fingerprint: String,
    pub should_modify_code: bool,
    pub suggested: Vec<String>,
}

/// The contents of a failure report.
pub open spec fn failure_is(
    f: FailureReport,
    code: Seq<char>,
    message: Seq<char>,
    grade: Seq<char>,
    fp: Seq<char>,
    modify: bool,
    suggested: Seq<Seq<char>>,
) -> bool {
    &&& f.error_code@ == code
    &&& f.message@ == message
    &&& f.diagnostic_grade@ == grade
    &&& f.fingerprint@ == fp
    &&& f.should_modify_code == modify
    &&& strs(f.suggested@) == suggested
}

/// The report when compiling the tests failed for an environment reason.
pub open spec fn environment_message(exit_code: int, combined: Seq<char>) -> Seq<char> {
    "## Environment Error\n\nTest compilation failed with an environment issue (exit="@ + crate::text::int_decimal(exit_code)
        + ").\n\n### Raw Diagnostic Excerpt\n"@ + diagnostic_excerpt(combined, 2000)
        + "\n\nThis is an environment or permission issue, not a code error. Do NOT modify source code. Report the environment issue instead."@
}

/// The parsed-errors section of a compile failure.
pub open spec fn error_section(combined: Seq<char>, exit_code: int) -> Seq<char> {
    let errs = compile_errors(combined);
    let excerpt = if exit_code != 0 && errs.len() == 0 {
        "\n### Raw Diagnostic Excerpt\n"@ + diagnostic_excerpt(combined, 3000) + "\n"@
    } else {
        ""@
    };
    (if errs.len() == 0 {
        "### Parsed Errors\nNo rustc-style errors were parsed.\n"@
    } else {
        "### Parsed Errors ("@ + decimal(errs.len()) + " found)\n"@ + join(errs, "\n"@) + "\n"@
    }) + excerpt
}

/// The report when compiling the tests failed.
pub open spec fn compile_failure_message(combined: Seq<char>, exit_code: int) -> Seq<char> {
    let w = compile_scan(lines(combined)).1;
    "## Compilation Failed\n\nTest compilation failed (exit="@ + crate::text::int_decimal(exit_code)
        + "). Fix errors before running tests.\n\n"@ + error_section(combined, exit_code) + (if w > 0 {
        "\n\n("@ + decimal(w) + " warnings suppressed — warnings are not errors, focus on fixing the errors above.)"@
    } else {
        ""@
    }) + "\n\n**No tests were executed.** Fix the errors above, then call run_tests again."@
}

/// The failure reported when compiling the tests failed with `exit_code`
/// and output `combined`.
pub open spec fn preflight_failure_is(f: FailureReport, combined: Seq<char>, exit_code: int, scope: Seq<char>) -> bool {
    if is_environment_failure(combined) {
        failure_is(
            f,
            "environment_error"@,
            environment_message(exit_code, combined),
            "raw_excerpt"@,
            fingerprint(combined, "environment_error"@),
            false,
            suggestions("environment_error"@, combined, scope),
        )
    } else {
        failure_is(
            f,
            "compile_error"@,
            compile_failure_message(combined, exit_code),
            if exit_code != 0 && compile_errors(combined).len() == 0 { "raw_excerpt"@ } else { "structured"@ },
            fingerprint(combined, "compile_error"@),
            true,
            suggestions("compile_error"@, combined, scope),
        )
    }
}

/// The failure report for a test compilation that failed with `exit_code`
/// and the given stdout and stderr.
pub fn preflight_failure(stdout: &str, stderr: &str, exit_code: i32, scope: &str) -> (f: FailureReport)
    ensures
        preflight_failure_is(f, stdout@ + "\n"@ + stderr@, exit_code as int, scope@),
{
    let mut cv = chars_of(stdout);
    push_str(&mut cv, "\n");
    push_str(&mut cv, stderr);
    let combined = string_of(cv.as_slice());
    let c = combined.as_str();
    match classify_execution_failure(c) {
        Some(env_err) => {
            let mut m: Vec<char> = Vec::new();
            push_str(&mut m, "## Environment Error\n\nTest compilation failed with an environment issue (exit=");
            push_all(&mut m, crate::text::fmt_i32(exit_code).as_slice());
            push_str(&mut m, ").\n\n### Raw Diagnostic Excerpt\n");
            let ex = extract_diagnostic_excerpt(c, 2000);
            push_str(&mut m, ex.as_str());
            push_str(
                &mut m,
                "\n\nThis is an environment or permission issue, not a code error. Do NOT modify source code. Report the environment issue instead.",
            );
            proof {
                assert(m@ =~= environment_message(exit_code as int, combined@));
            }
            FailureReport {
                error_code: env_err,
                message: string_of(m.as_slice()),
                diagnostic_grade: "raw_excerpt",
                fingerprint: compute_failure_fingerprint(c, env_err),
                should_modify_code: false,
                suggested: suggest_rust_diagnostic(env_err, c, scope),
            }
        },
        None => {
            let compiled = classify_compile_output(c, exit_code);
            let n = compiled.errors.len();
            let mut m: Vec<char> = Vec::new();
            push_str(&mut m, "## Compilation Failed\n\nTest compilation failed (exit=");
            push_all(&mut m, crate::text::fmt_i32(exit_code).as_slice());
            push_str(&mut m, "). Fix errors before running tests.\n\n");
            let ghost before_section = m@;
            let ghost errs = compile_errors(combined@);
            proof {
                assert(c@ == combined@);
                assert(strs(compiled.errors@) == errs);
                assert(n == errs.len());
            }
            if n == 0 {
                push_str(&mut m, "### Parsed Errors\nNo rustc-style errors were parsed.\n");
            } else {
                push_str(&mut m, "### Parsed Errors (");
                push_all(&mut m, fmt_u64(n as u64).as_slice());
                push_str(&mut m, " found)\n");
                let mut lines_v: Vec<Vec<char>> = Vec::new();
                let mut k: usize = 0;
                while k < n
                    invariant
                        k <= n == compiled.errors@.len(),
                        lines_v.deep_view() == strs(compiled.errors@).take(k as int),
                    decreases n - k,
                {
                    let line = chars_of(compiled.errors[k].as_str());
                    push_line(&mut lines_v, line);
                    k = k + 1;
                    proof {
                        assert(lines_v.deep_view() =~= strs(compiled.errors@).take(k as int));
                    }
                }
                proof {
                    assert(strs(compiled.errors@).take(k as int) =~= strs(compiled.errors@));
                }
                let nl = chars_of("\n");
                push_all(&mut m, join_chars(&lines_v, nl.as_slice()).as_slice());
                push_str(&mut m, "\n");
            }
            let ghost parsed_part = if errs.len() == 0 {
                "### Parsed Errors\nNo rustc-style errors were parsed.\n"@
            } else {
                "### Parsed Errors ("@ + decimal(errs.len()) + " found)\n"@ + join(errs, "\n"@) + "\n"@
            };
            proof {
                assert(m@ =~= before_section + parsed_part);
            }
            match &compiled.diagnostic_excerpt {
                Some(x) => {
                    push_str(&mut m, "\n### Raw Diagnostic Excerpt\n");
                    push_str(&mut m, x.as_str());
                    push_str(&mut m, "\n");
                    proof {
                        assert(m@ =~= before_section + parsed_part + ("\n### Raw Diagnostic Excerpt\n"@
                            + diagnostic_excerpt(combined@, 3000) + "\n"@));
                    }
                },
                None => {
                    proof {
                        reveal_strlit("");
                        assert(m@ =~= before_section + parsed_part + ""@);
                    }
                },
            }
            proof {
                assert(m@ =~= before_section + error_section(combined@, exit_code as int));
            }
            if compiled.warning_count > 0 {
                push_str(&mut m, "\n\n(");
                push_all(&mut m, fmt_u64(compiled.warning_count as u64).as_slice());
                push_str(&mut m, " warnings suppressed — warnings are not errors, focus on fixing the errors above.)");
            }
            push_str(&mut m, "\n\n**No tests were executed.** Fix the errors above, then call run_tests again.");
            proof {
                reveal_strlit("");
                assert(m@ =~= compile_failure_message(combined@, exit_code as int));
            }
            let grade = if compiled.diagnostic_excerpt.is_some() { "raw_excerpt" } else { "structured" };
            FailureReport {
                error_code: "compile_error",
                message: string_of(m.as_slice()),
                diagnostic_grade: grade,
                fingerprint: compute_failure_fingerprint(c, "compile_error"),
                should_modify_code: true,
                suggested: suggest_rust_diagnostic("compile_error", c, scope),
            }
        },
    }
}

/// What running the tests should do: run a command, report that no test
/// command is known, or refuse the request.
#[derive(Debug, Clone)]
pub enum TestPlan {
    Command(String),
    Unsupported,
    Refused { error_code: &'static str, message: String },
}

/// A test name may hold only alphanumerics, `_`, `:`, `.` and `-`.
pub open spec fn valid_test_name(tn: Seq<char>) -> bool {
    forall|i: int| 0 <= i < tn.len() ==> {
        let c = #[trigger] tn[i];
        is_alnum(c) || c == '_' || c == ':' || c == '.' || c == '-'
    }
}

/// The base test command for a project type, or `None` when the type is not supported.
pub open spec fn base_test_command(
    project_type: Seq<char>,
    scope: Seq<char>,
    has_vitest: bool,
    has_jest: bool,
    python_test_cmd: Seq<char>,
    windows: bool,
) -> Option<Seq<char>> {
    if project_type == "rust"@ {
        Some(
            cargo_cmd(
                if scope == "unit"@ {
                    "test --lib"@
                } else if scope == "integration"@ {
                    "test --tests"@
                } else {
                    "test"@
                },
                windows,
            ),
        )
    } else if project_type == "node"@ {
        Some(
            if has_vitest {
                "npx vitest run"@ + scope_suffix_of(scope)
            } else if has_jest {
                "npx jest --verbose"@ + scope_suffix_of(scope)
            } else {
                "npm test"@
            },
        )
    } else if project_type == "python"@ {
        Some(python_test_cmd)
    } else {
        None
    }
}

/// The test-name filter for a project type.
pub open spec fn name_filter(project_type: Seq<char>, tn: Seq<char>) -> Seq<char> {
    if project_type == "rust"@ {
        " "@ + tn
    } else if project_type == "python"@ {
        " -k \""@ + tn + "\""@
    } else if project_type == "node"@ {
        " -t \""@ + tn + "\""@
    } else {
        ""@
    }
}

/// The refusal for a test path outside the integration tests.
pub open spec fn scope_mismatch_message(p: Seq<char>) -> Seq<char> {
    "scope=integration but path "@ + p + " does not match integration test directory (tests/integration/)"@
}

/// The refusal for a malformed test name.
pub open spec fn invalid_test_name_message() -> Seq<char> {
    "test_name contains invalid characters. Only alphanumeric, _, ::, ., - are allowed."@
}

/// The test plan, as (kind, text): kind 0 runs the text as a command,
/// kind 1 means no test command is known, kind 2 refuses with error code
/// `"scope_mismatch"`, kind 3 refuses with error code `"invalid_test_name"`.
pub open spec fn test_plan(
    project_type: Seq<char>,
    scope: Seq<char>,
    has_vitest: bool,
    has_jest: bool,
    python_test_cmd: Seq<char>,
    path: Option<Seq<char>>,
    test_name: Option<Seq<char>>,
    windows: bool,
) -> (int, Seq<char>) {
    match base_test_command(project_type, scope, has_vitest, has_jest, python_test_cmd, windows) {
        None => (1, Seq::empty()),
        Some(base) => {
            if path is Some && scope == "integration"@ && !has_sub(path->0, "integration"@) {
                (2, scope_mismatch_message(path->0))
            } else {
                let with_path = match path {
                    Some(p) => base + " -- "@ + p,
                    None => base,
                };
                match test_name {
                    Some(tn) => if !valid_test_name(tn) {
                        (3, invalid_test_name_message())
                    } else {
                        (0, with_path + name_filter(project_type, tn))
                    },
                    None => (0, with_path),
                }
            }
        },
    }
}

/// The part of a test command that names a path: ` -- path`, or nothing.
pub open spec fn path_text(path: Option<Seq<char>>) -> Seq<char> {
    match path {
        Some(p) => " -- "@ + p,
        None => Seq::empty(),
    }
}

/// A valid test name narrows the run as each runner expects: pytest gets
/// ` -k "name"`, jest and vitest get ` -t "name"`, cargo gets the name as
/// its filter argument; each is appended to the base command (and the path
/// part, when a path is given).
pub proof fn law_test_name_filters(
    scope: Seq<char>,
    has_vitest: bool,
    has_jest: bool,
    python_test_cmd: Seq<char>,
    path: Option<Seq<char>>,
    tn: Seq<char>,
    windows: bool,
)
    requires
        valid_test_name(tn),
        path matches Some(p) ==> scope != "integration"@ || has_sub(p, "integration"@),
    ensures
        test_plan("python"@, scope, has_vitest, has_jest, python_test_cmd, path, Some(tn), windows) == (
            0int,
            python_test_cmd + path_text(path) + " -k \""@ + tn + "\""@,
        ),
        test_plan("node"@, scope, has_vitest, has_jest, python_test_cmd, path, Some(tn), windows) == (
            0int,
            base_test_command("node"@, scope, has_vitest, has_jest, python_test_cmd, windows)->0 + path_text(
                path,
            ) + " -t \""@ + tn + "\""@,
        ),
        test_plan("rust"@, scope, has_vitest, has_jest, python_test_cmd, path, Some(tn), windows) == (
            0int,
            base_test_command("rust"@, scope, has_vitest, has_jest, python_test_cmd, windows)->0 + path_text(
                path,
            ) + " "@ + tn,
        ),
{
    reveal_strlit("python");
    reveal_strlit("node");
    reveal_strlit("rust");
    assert("python"@.len() != "rust"@.len() && "python"@.len() != "node"@.len());
    assert("node"@[0] != "rust"@[0]);
    let k = " -k \""@ + tn + "\""@;
    let t = " -t \""@ + tn + "\""@;
    let nb = base_test_command("node"@, scope, has_vitest, has_jest, python_test_cmd, windows)->0;
    let rb = base_test_command("rust"@, scope, has_vitest, has_jest, python_test_cmd, windows)->0;
    match path {
        Some(p) => {
            assert(python_test_cmd + (" -- "@ + p) + " -k \""@ + tn + "\""@ =~= (python_test_cmd + " -- "@ + p) + k);
            assert(nb + (" -- "@ + p) + " -t \""@ + tn + "\""@ =~= (nb + " -- "@ + p) + t);
            assert(rb + (" -- "@ + p) + " "@ + tn =~= (rb + " -- "@ + p) + (" "@ + tn));
        },
        None => {
            assert(python_test_cmd + Seq::<char>::empty() + " -k \""@ + tn + "\""@ =~= python_test_cmd + k);
            assert(nb + Seq::<char>::empty() + " -t \""@ + tn + "\""@ =~= nb + t);
            assert(rb + Seq::<char>::empty() + " "@ + tn =~= rb + (" "@ + tn));
        },
    }
}

/// The base test command for a project type.
fn base_command(
    project_type: &str,
    scope: &str,
    has_vitest: bool,
    has_jest: bool,
    python_test_cmd: &str,
    windows: bool,
) -> (r: Option<Vec<char>>)
    ensures
        (match r {
            Some(c) => Some(c@),
            None => None,
        }) == base_test_command(project_type@, scope@, has_vitest, has_jest, python_test_cmd@, windows),
{
    if str_eq(project_type, "rust") {
        let sub = if str_eq(scope, "unit") {
            "test --lib"
        } else if str_eq(scope, "integration") {
            "test --tests"
        } else {
            "test"
        };
        Some(chars_of(rust_cargo_cmd_for(sub, windows).as_str()))
    } else if str_eq(project_type, "node") {
        if has_vitest {
            let mut v = chars_of("npx vitest run");
            push_str(&mut v, scope_suffix(scope));
            Some(v)
        } else if has_jest {
            let mut v = chars_of("npx jest --verbose");
            push_str(&mut v, scope_suffix(scope));
            Some(v)
        } else {
            Some(chars_of("npm test"))
        }
    } else if str_eq(project_type, "python") {
        Some(chars_of(python_test_cmd))
    } else {
        None
    }
}

/// The test-name filter for a project type.
fn name_filter_chars(project_type: &str, tn: &str) -> (r: Vec<char>)
    ensures
        r@ == name_filter(project_type@, tn@),
{
    let mut v: Vec<char> = Vec::new();
    if str_eq(project_type, "rust") {
        push_str(&mut v, " ");
        push_str(&mut v, tn);
    } else if str_eq(project_type, "python") {
        push_str(&mut v, " -k \"");
        push_str(&mut v, tn);
        push_str(&mut v, "\"");
    } else if str_eq(project_type, "node") {
        push_str(&mut v, " -t \"");
        push_str(&mut v, tn);
        push_str(&mut v, "\"");
    } else {
        proof {
            reveal_strlit("");
            assert(v@ =~= ""@);
        }
    }
    v
}

/// Whether a test name holds only alphanumerics, `_`, `:`, `.` and `-`.
fn is_valid_test_name(tn: &str) -> (r: bool)
    ensures
        r == valid_test_name(tn@),
{
    let tv = chars_of(tn);
    let mut i: usize = 0;
    while i < tv.len()
        invariant
            i <= tv@.len(),
            tv@ == tn@,
            forall|k: int| 0 <= k < i ==> {
                let c = #[trigger] tv@[k];
                is_alnum(c) || c == '_' || c == ':' || c == '.' || c == '-'
            },
        decreases tv@.len() - i,
    {
        let c = tv[i];
        if !(crate::text::char_is_alphanumeric(c) || c == '_' || c == ':' || c == '.' || c == '-') {
            proof {
                assert(tn@[i as int] == c);
            }
            return false;
        }
        i = i + 1;
    }
    true
}

/// Plans the test command for a project, on the given platform.
/// `has_vitest`/`has_jest` tell whether those runners are installed, and
/// `python_test_cmd` is the pytest command for the scope.
pub fn plan_test_command(
    project_type: &str,
    scope: &str,
    has_vitest: bool,
    has_jest: bool,
    python_test_cmd: &str,
    path: Option<&str>,
    test_name: Option<&str>,
    windows: bool,
) -> (r: TestPlan)
    ensures
        ({
            let plan = test_plan(
                project_type@,
                scope@,
                has_vitest,
                has_jest,
                python_test_cmd@,
                match path {
                    Some(p) => Some(p@),
                    None => None,
                },
                match test_name {
                    Some(t) => Some(t@),
                    None => None,
                },
                windows,
            );
            match r {
                TestPlan::Command(c) => plan.0 == 0 && c@ == plan.1,
                TestPlan::Unsupported => plan.0 == 1,
                TestPlan::Refused { error_code, message } => (plan.0 == 2 && error_code@ == "scope_mismatch"@
                    && message@ == plan.1) || (plan.0 == 3 && error_code@ == "invalid_test_name"@ && message@
                    == plan.1),
            }
        }),
{
    let mut cmd: Vec<char> = match base_command(project_type, scope, has_vitest, has_jest, python_test_cmd, windows) {
        Some(c) => c,
        None => {
            return TestPlan::Unsupported;
        },
    };
    match path {
        Some(p) => {
            let pv = chars_of(p);
            if str_eq(scope, "integration") && !contains_str(pv.as_slice(), "integration") {
                let mut m = chars_of("scope=integration but path ");
                push_str(&mut m, p);
                push_str(&mut m, " does not match integration test directory (tests/integration/)");
                return TestPlan::Refused { error_code: "scope_mismatch", message: string_of(m.as_slice()) };
            }
            push_str(&mut cmd, " -- ");
            push_str(&mut cmd, p);
        },
        None => {},
    }
    match test_name {
        Some(tn) => {
            if !is_valid_test_name(tn) {
                return TestPlan::Refused {
                    error_code: "invalid_test_name",
                    message: "test_name contains invalid characters. Only alphanumeric, _, ::, ., - are allowed.".to_owned(),
                };
            }
            let filter = name_filter_chars(project_type, tn);
            push_all(&mut cmd, filter.as_slice());
        },
        None => {},
    }
    TestPlan::Command(string_of(cmd.as_slice()))
}

/// The name a failed-test line reports, if it reports one.
pub open spec fn failed_name(line: Seq<char>) -> Option<Seq<char>> {
    let t = trim(line);
    if has_sub(t, "... FAILED"@) {
        Some(strip_suffix_all(strip_prefix_all(t, "test "@), " ... FAILED"@))
    } else if starts_with(t, "FAILED "@) {
        Some(strip_prefix_all(t, "FAILED "@))
    } else if crate::text::ends_with(t, " FAILED"@) && has_sub(t, " "@) {
        Some(strip_suffix_all(t, " FAILED"@))
    } else {
        None
    }
}

/// The names of the failed tests, in order.
pub open spec fn failed_names(ls: Seq<Seq<char>>) -> Seq<Seq<char>>
    decreases ls.len(),
{
    if ls.len() == 0 {
        Seq::empty()
    } else {
        match failed_name(ls.last()) {
            Some(n) => failed_names(ls.drop_last()).push(n),
            None => failed_names(ls.drop_last()),
        }
    }
}

/// The names of the tests that the output reports failed.
pub fn failed_test_names(stdout: &str) -> (r: Vec<String>)
    ensures
        strs(r@) == failed_names(lines(stdout@)),
{
    let sv = chars_of(stdout);
    let ls = split_lines(sv.as_slice());
    let mut out: Vec<Vec<char>> = Vec::new();
    let mut i: usize = 0;
    proof {
        assert(ls.deep_view().take(0) =~= Seq::<Seq<char>>::empty());
    }
    while i < ls.len()
        invariant
            i <= ls@.len(),
            out.deep_view() == failed_names(ls.deep_view().take(i as int)),
        decreases ls@.len() - i,
    {
        proof {
            crate::text::lemma_chars_deep_view(ls@[i as int]);
            assert(ls.deep_view()[i as int] == ls@[i as int]@);
            assert(ls.deep_view().take(i + 1).drop_last() =~= ls.deep_view().take(i as int));
        }
        let t = trim_chars(ls[i].as_slice());
        let ts = t.as_slice();
        if contains_str(ts, "... FAILED") {
            let a = strip_prefix_all_chars(ts, "test ");
            push_line(&mut out, strip_suffix_all_chars(a.as_slice(), " ... FAILED"));
        } else if starts_with_str(ts, "FAILED ") {
            push_line(&mut out, strip_prefix_all_chars(ts, "FAILED "));
        } else if crate::text::ends_with_str(ts, " FAILED") && contains_str(ts, " ") {
            push_line(&mut out, strip_suffix_all_chars(ts, " FAILED"));
        }
        i = i + 1;
    }
    proof {
        assert(ls.deep_view().take(i as int) =~= ls.deep_view());
    }
    crate::text::strings_from(&out)
}

/// What a finished test run yields: the report, the counts, the failed
/// tests, and how the run failed, if it did.
#[derive(Debug, Clone)]
pub struct TestRunSummary {
    pub report: String,
    pub passed: usize,
    pub failed: usize,
    pub total: usize,
    pub failed_tests: Vec<String>,
    pub failure: Option<FailureReport>,
}

/// A count, 0 when it could not be read.
pub open spec fn count_or_zero(o: Option<nat>) -> nat {
    match o {
        Some(n) => n,
        None => 0,
    }
}

/// The report of a finished test run.
pub open spec fn run_report(
    project_type: Seq<char>,
    scope: Seq<char>,
    cmd: Seq<char>,
    exit_code: int,
    stdout: Seq<char>,
    stderr: Seq<char>,
) -> Seq<char> {
    let counts = test_counts(stdout, stderr);
    let pass = count_or_zero(counts.0);
    let fail = count_or_zero(counts.1);
    let total = count_or_zero(counts.2);
    let failed = failed_names(lines(stdout));
    let st = truncated_stderr(stderr, 3000);
    "## Test Execution Report\n\nProject type: "@ + project_type + " | Scope: "@ + scope + " | Command: `"@ + cmd + "`\n"@
        + "Exit code: "@ + crate::text::int_decimal(exit_code) + " | Passed: "@ + decimal(pass) + " | Failed: "@ + decimal(
        fail,
    ) + (if total > 0 { " | Total: "@ + decimal(total) } else { ""@ }) + "\n"@ + (if failed.len() > 0 {
        "\n### Failed Tests\n"@ + hint_bullets(failed)
    } else {
        ""@
    }) + (if exit_code != 0 && st.len() > 0 { "\n### stderr Summary\n"@ + st } else { ""@ }) + (if exit_code == 0
        && failed.len() == 0 {
        "\nAll tests passed"@
    } else {
        ""@
    }) + hints_section(context_hints(project_type, stdout + "\n"@ + stderr, exit_code, fail as int))
}

/// The failure of a finished test run, if it failed: an environment error
/// when the output shows one, else a test failure.
pub open spec fn run_failure_is(
    f: Option<FailureReport>,
    report: Seq<char>,
    exit_code: int,
    stdout: Seq<char>,
    stderr: Seq<char>,
    scope: Seq<char>,
) -> bool {
    let combined = stdout + "\n"@ + stderr;
    let fail = count_or_zero(test_counts(stdout, stderr).1);
    let failed = failed_names(lines(stdout));
    if exit_code != 0 || fail > 0 {
        f matches Some(fr) && if is_environment_failure(combined) {
            failure_is(
                fr,
                "environment_error"@,
                report,
                "raw_excerpt"@,
                fingerprint(combined, "environment_error"@),
                false,
                suggestions("environment_error"@, combined, scope),
            )
        } else {
            failure_is(
                fr,
                "test_failure"@,
                report,
                if failed.len() > 0 { "structured"@ } else { "raw_excerpt"@ },
                fingerprint(combined, "test_failure"@),
                true,
                suggestions("test_failure"@, combined, scope),
            )
        }
    } else {
        f is None
    }
}

/// Reads a finished test run: counts, failed tests, the report, and the failure, if any.
pub fn summarize_test_run(project_type: &str, scope: &str, cmd: &str, exit_code: i32, stdout: &str, stderr: &str) -> (r:
    TestRunSummary)
    ensures
        r.report@ == run_report(project_type@, scope@, cmd@, exit_code as int, stdout@, stderr@),
        r.passed == count_or_zero(test_counts(stdout@, stderr@).0),
        r.failed == count_or_zero(test_counts(stdout@, stderr@).1),
        r.total == count_or_zero(test_counts(stdout@, stderr@).2),
        strs(r.failed_tests@) == failed_names(lines(stdout@)),
        run_failure_is(r.failure, r.report@, exit_code as int, stdout@, stderr@, scope@),
{
    let (p, f, t) = parse_test_output(stdout, stderr);
    let pass = match p {
        Some(v) => v,
        None => 0,
    };
    let fail = match f {
        Some(v) => v,
        None => 0,
    };
    let total = match t {
        Some(v) => v,
        None => 0,
    };
    let failed_tests = failed_test_names(stdout);
    let mut v: Vec<char> = Vec::new();
    push_str(&mut v, "## Test Execution Report\n\nProject type: ");
    push_str(&mut v, project_type);
    push_str(&mut v, " | Scope: ");
    push_str(&mut v, scope);
    push_str(&mut v, " | Command: `");
    push_str(&mut v, cmd);
    push_str(&mut v, "`\n");
    push_str(&mut v, "Exit code: ");
    push_all(&mut v, crate::text::fmt_i32(exit_code).as_slice());
    push_str(&mut v, " | Passed: ");
    push_all(&mut v, fmt_u64(pass as u64).as_slice());
    push_str(&mut v, " | Failed: ");
    push_all(&mut v, fmt_u64(fail as u64).as_slice());
    let ghost part1 = v@;
    if total > 0 {
        push_str(&mut v, " | Total: ");
        push_all(&mut v, fmt_u64(total as u64).as_slice());
    }
    push_str(&mut v, "\n");
    let ghost part2 = v@;
    proof {
        reveal_strlit("");
        assert(part2 =~= part1 + (if total > 0 { " | Total: "@ + decimal(total as nat) } else { ""@ }) + "\n"@);
    }
    let ghost fnames = failed_names(lines(stdout@));
    if failed_tests.len() > 0 {
        push_str(&mut v, "\n### Failed Tests\n");
        let ghost head = v@;
        let mut i: usize = 0;
        while i < failed_tests.len()
            invariant
                i <= failed_tests@.len(),
                strs(failed_tests@) == fnames,
                v@ == head + hint_bullets(fnames.take(i as int)),
            decreases failed_tests@.len() - i,
        {
            proof {
                assert(fnames.take(i + 1).drop_last() =~= fnames.take(i as int));
            }
            push_str(&mut v, "- ");
            push_str(&mut v, failed_tests[i].as_str());
            push_str(&mut v, "\n");
            i = i + 1;
            proof {
                assert(v@ =~= head + hint_bullets(fnames.take(i as int)));
            }
        }
        proof {
            assert(fnames.take(i as int) =~= fnames);
        }
    }
    let ghost part3 = v@;
    proof {
        reveal_strlit("");
        assert(part3 =~= part2 + (if fnames.len() > 0 { "\n### Failed Tests\n"@ + hint_bullets(fnames) } else { ""@ }));
    }
    if exit_code != 0 {
        let st = smart_truncate_stderr(stderr, 3000);
        let stv = chars_of(st.as_str());
        if stv.len() > 0 {
            push_str(&mut v, "\n### stderr Summary\n");
            push_str(&mut v, st.as_str());
        }
    }
    let ghost part4 = v@;
    proof {
        reveal_strlit("");
        let st = truncated_stderr(stderr@, 3000);
        assert(part4 =~= part3 + (if exit_code != 0 && st.len() > 0 { "\n### stderr Summary\n"@ + st } else { ""@ }));
    }
    if exit_code == 0 && failed_tests.len() == 0 {
        push_str(&mut v, "\nAll tests passed");
    }
    let ghost part5 = v@;
    proof {
        reveal_strlit("");
        assert(part5 =~= part4 + (if exit_code == 0 && fnames.len() == 0 { "\nAll tests passed"@ } else { ""@ }));
    }
    let mut cv = chars_of(stdout);
    push_str(&mut cv, "\n");
    push_str(&mut cv, stderr);
    let combined = string_of(cv.as_slice());
    let mut report = string_of(v.as_slice());
    append_context_hints(&mut report, project_type, combined.as_str(), exit_code, fail);
    proof {
        assert(report@ =~= run_report(project_type@, scope@, cmd@, exit_code as int, stdout@, stderr@));
    }
    let failure = if exit_code != 0 || fail > 0 {
        let c = combined.as_str();
        match classify_execution_failure(c) {
            Some(env_err) => Some(
                FailureReport {
                    error_code: env_err,
                    message: report.clone(),
                    diagnostic_grade: "raw_excerpt",
                    fingerprint: compute_failure_fingerprint(c, env_err),
                    should_modify_code: false,
                    suggested: suggest_rust_diagnostic(env_err, c, scope),
                },
            ),
            None => Some(
                FailureReport {
                    error_code: "test_failure",
                    message: report.clone(),
                    diagnostic_grade: if failed_tests.len() > 0 { "structured" } else { "raw_excerpt" },
                    fingerprint: compute_failure_fingerprint(c, "test_failure"),
                    should_modify_code: true,
                    suggested: suggest_rust_diagnostic("test_failure", c, scope),
                },
            ),
        }
    } else {
        None
    };
    TestRunSummary { report, passed: pass, failed: fail, total, failed_tests, failure }
}

// ───────────────────────── compile checks ─────────────────────────

/// What checking compilation should do: run a command with a time limit
/// in seconds, or skip with a reason given as a small JSON object.
#[derive(Debug, Clone)]
pub enum CompileCheckPlan {
    Run { command: String, timeout_secs: u64 },
    Skip(String),
}

/// The compile-check plan, as (command or skip text, time limit, skipped).
pub open spec fn compile_check_plan(
    project_type: Seq<char>,
    include_tests: bool,
    has_tsc: bool,
    python: Seq<char>,
    windows: bool,
) -> (Seq<char>, nat, bool) {
    if project_type == "rust"@ {
        if include_tests {
            (cargo_cmd("test --no-run 2>&1"@, windows), 300, false)
        } else {
            (cargo_cmd("check 2>&1"@, windows), 180, false)
        }
    } else if project_type == "node"@ {
        if has_tsc {
            ("npx tsc --noEmit 2>&1"@, 120, false)
        } else {
            ("{\"skipped\": true, \"reason\": \"no TypeScript compiler found\"}"@, 0, true)
        }
    } else if project_type == "python"@ {
        if windows {
            (python
                + " -m py_compile $(Get-ChildItem -Recurse -Filter *.py -Exclude .venv | ForEach-Object {$_.FullName}) 2>&1"@,
            60, false)
        } else {
            (python + " -m py_compile $(find . -name '*.py' -not -path './.venv/*') 2>&1"@, 60, false)
        }
    } else {
        ("{\"skipped\": true, \"reason\": \"unsupported project type: "@ + project_type + "\"}"@, 0, true)
    }
}

/// Plans a compile check for a project type; `has_tsc` tells whether the
/// TypeScript compiler is installed and `python` is the interpreter to use.
pub fn plan_compile_check(project_type: &str, include_tests: bool, has_tsc: bool, python: &str, windows: bool) -> (r:
    CompileCheckPlan)
    ensures
        ({
            let p = compile_check_plan(project_type@, include_tests, has_tsc, python@, windows);
            match r {
                CompileCheckPlan::Run { command, timeout_secs } => !p.2 && command@ == p.0 && timeout_secs == p.1,
                CompileCheckPlan::Skip(reason) => p.2 && reason@ == p.0,
            }
        }),
{
    if str_eq(project_type, "rust") {
        if include_tests {
            CompileCheckPlan::Run { command: rust_cargo_cmd_for("test --no-run 2>&1", windows), timeout_secs: 300 }
        } else {
            CompileCheckPlan::Run { command: rust_cargo_cmd_for("check 2>&1", windows), timeout_secs: 180 }
        }
    } else if str_eq(project_type, "node") {
        if has_tsc {
            CompileCheckPlan::Run { command: "npx tsc --noEmit 2>&1".to_owned(), timeout_secs: 120 }
        } else {
            CompileCheckPlan::Skip("{\"skipped\": true, \"reason\": \"no TypeScript compiler found\"}".to_owned())
        }
    } else if str_eq(project_type, "python") {
        let mut v = chars_of(python);
        if windows {
            push_str(
                &mut v,
                " -m py_compile $(Get-ChildItem -Recurse -Filter *.py -Exclude .venv | ForEach-Object {$_.FullName}) 2>&1",
            );
        } else {
            push_str(&mut v, " -m py_compile $(find . -name '*.py' -not -path './.venv/*') 2>&1");
        }
        CompileCheckPlan::Run { command: string_of(v.as_slice()), timeout_secs: 60 }
    } else {
        let mut v = chars_of("{\"skipped\": true, \"reason\": \"unsupported project type: ");
        push_str(&mut v, project_type);
        push_str(&mut v, "\"}");
        CompileCheckPlan::Skip(string_of(v.as_slice()))
    }
}

/// The header of a compile-check report.
pub open spec fn check_header(project_type: Seq<char>, cmd: Seq<char>, exit_code: int) -> Seq<char> {
    "## Compilation Check\n\nProject type: "@ + project_type + " | Command: `"@ + cmd + "`\nExit code: "@
        + crate::text::int_decimal(exit_code) + "\n\n"@
}

/// The note shown after a successful Rust check.
pub open spec fn rust_check_note() -> Seq<char> {
    "\n\n> ℹ️  `cargo check` compiles library and binary targets only. It does **not** compile `#[cfg(test)]` test code. Use `run_tests` to compile and run test targets."@
}

/// The report of a successful compile check.
pub open spec fn check_success_message(project_type: Seq<char>, cmd: Seq<char>, exit_code: int) -> Seq<char> {
    check_header(project_type, cmd, exit_code) + "✅ Compilation successful."@ + (if project_type == "rust"@ {
        rust_check_note()
    } else {
        ""@
    }) + ". You can now run tests."@
}

/// The failure of a compile check that exited with `exit_code`.
pub open spec fn check_failure_is(f: FailureReport, project_type: Seq<char>, cmd: Seq<char>, exit_code: int, combined: Seq<char>) -> bool {
    if is_environment_failure(combined) {
        failure_is(
            f,
            "environment_error"@,
            check_header(project_type, cmd, exit_code) + "❌ Environment issue detected.\n\n### Raw Diagnostic Excerpt\n"@
                + diagnostic_excerpt(combined, 2000)
                + "\n\nThis is an environment or permission issue, not a code error. Do NOT modify source code. Report the environment issue instead."@,
            "raw_excerpt"@,
            fingerprint(combined, "environment_error"@),
            false,
            Seq::empty(),
        )
    } else {
        let w = compile_scan(lines(combined)).1;
        failure_is(
            f,
            "compile_error"@,
            check_header(project_type, cmd, exit_code)
                + "❌ Compilation failed. Fix the errors below before running tests.\n\n"@ + error_section(combined, exit_code)
                + (if w > 0 {
                "\n\n("@ + decimal(w) + " warnings suppressed — warnings are not errors, focus on fixing the errors above.)"@
            } else {
                ""@
            }),
            if exit_code != 0 && compile_errors(combined).len() == 0 { "raw_excerpt"@ } else { "structured"@ },
            fingerprint(combined, "compile_error"@),
            true,
            suggestions("compile_error"@, combined, "all"@),
        )
    }
}

/// The outcome of a compile check that ran: the success report, or the failure.
pub fn summarize_compile_check(project_type: &str, cmd: &str, exit_code: i32, stdout: &str, stderr: &str) -> (r: Result<
    String,
    FailureReport,
>)
    ensures
        exit_code == 0 ==> (r matches Ok(m) && m@ == check_success_message(project_type@, cmd@, exit_code as int)),
        exit_code != 0 ==> (r matches Err(f) && check_failure_is(
            f,
            project_type@,
            cmd@,
            exit_code as int,
            stdout@ + "\n"@ + stderr@,
        )),
{
    let mut head: Vec<char> = Vec::new();
    push_str(&mut head, "## Compilation Check\n\nProject type: ");
    push_str(&mut head, project_type);
    push_str(&mut head, " | Command: `");
    push_str(&mut head, cmd);
    push_str(&mut head, "`\nExit code: ");
    push_all(&mut head, crate::text::fmt_i32(exit_code).as_slice());
    push_str(&mut head, "\n\n");
    if exit_code == 0 {
        let mut m = head;
        push_str(&mut m, "✅ Compilation successful.");
        if str_eq(project_type, "rust") {
            push_str(
                &mut m,
                "\n\n> ℹ️  `cargo check` compiles library and binary targets only. It does **not** compile `#[cfg(test)]` test code. Use `run_tests` to compile and run test targets.",
            );
        } else {
            push_str(&mut m, "");
        }
        push_str(&mut m, ". You can now run tests.");
        return Ok(string_of(m.as_slice()));
    }
    let mut cv = chars_of(stdout);
    push_str(&mut cv, "\n");
    push_str(&mut cv, stderr);
    let combined = string_of(cv.as_slice());
    let c = combined.as_str();
    match classify_execution_failure(c) {
        Some(env_err) => {
            let mut m = head;
            push_str(&mut m, "❌ Environment issue detected.\n\n### Raw Diagnostic Excerpt\n");
            push_str(&mut m, extract_diagnostic_excerpt(c, 2000).as_str());
            push_str(
                &mut m,
                "\n\nThis is an environment or permission issue, not a code error. Do NOT modify source code. Report the environment issue instead.",
            );
            let suggested: Vec<String> = Vec::new();
            proof {
                assert(strs(suggested@) =~= Seq::<Seq<char>>::empty());
            }
            return Err(
                FailureReport {
                    error_code: env_err,
                    message: string_of(m.as_slice()),
                    diagnostic_grade: "raw_excerpt",
                    fingerprint: compute_failure_fingerprint(c, env_err),
                    should_modify_code: false,
                    suggested,
                },
            );
        },
        None => {},
    }
    let compiled = classify_compile_output(c, exit_code);
    let mut m = head;
    push_str(&mut m, "❌ Compilation failed. Fix the errors below before running tests.\n\n");
    let section = parsed_error_section(&compiled, combined.as_str(), exit_code);
    push_all(&mut m, section.as_slice());
    if compiled.warning_count > 0 {
        push_str(&mut m, "\n\n(");
        push_all(&mut m, fmt_u64(compiled.warning_count as u64).as_slice());
        push_str(&mut m, " warnings suppressed — warnings are not errors, focus on fixing the errors above.)");
    } else {
        proof {
            reveal_strlit("");
        }
    }
    proof {
        let w = compile_scan(lines(combined@)).1;
        assert(m@ =~= check_header(project_type@, cmd@, exit_code as int)
            + "❌ Compilation failed. Fix the errors below before running tests.\n\n"@ + error_section(
            combined@,
            exit_code as int,
        ) + (if w > 0 {
            "\n\n("@ + decimal(w) + " warnings suppressed — warnings are not errors, focus on fixing the errors above.)"@
        } else {
            ""@
        }));
    }
    let grade = if compiled.diagnostic_excerpt.is_some() { "raw_excerpt" } else { "structured" };
    Err(
        FailureReport {
            error_code: "compile_error",
            message: string_of(m.as_slice()),
            diagnostic_grade: grade,
            fingerprint: compute_failure_fingerprint(c, "compile_error"),
            should_modify_code: true,
            suggested: suggest_rust_diagnostic("compile_error", c, "all"),
        },
    )
}

/// The parsed-errors section for a classified compiler output.
fn parsed_error_section(compiled: &CompileResult, combined: &str, exit_code: i32) -> (r: Vec<char>)
    requires
        strs(compiled.errors@) == compile_errors(combined@),
        compiled.diagnostic_excerpt is Some <==> (exit_code != 0 && compile_errors(combined@).len() == 0),
        compiled.diagnostic_excerpt matches Some(x) ==> x@ == diagnostic_excerpt(combined@, 3000),
    ensures
        r@ == error_section(combined@, exit_code as int),
{
    let ghost errs = compile_errors(combined@);
    let n = compiled.errors.len();
    let mut m: Vec<char> = Vec::new();
    if n == 0 {
        push_str(&mut m, "### Parsed Errors\nNo rustc-style errors were parsed.\n");
    } else {
        push_str(&mut m, "### Parsed Errors (");
        push_all(&mut m, fmt_u64(n as u64).as_slice());
        push_str(&mut m, " found)\n");
        let mut lines_v: Vec<Vec<char>> = Vec::new();
        let mut k: usize = 0;
        while k < n
            invariant
                k <= n == compiled.errors@.len(),
                lines_v.deep_view() == strs(compiled.errors@).take(k as int),
            decreases n - k,
        {
            let line = chars_of(compiled.errors[k].as_str());
            push_line(&mut lines_v, line);
            k = k + 1;
            proof {
                assert(lines_v.deep_view() =~= strs(compiled.errors@).take(k as int));
            }
        }
        proof {
            assert(strs(compiled.errors@).take(k as int) =~= strs(compiled.errors@));
        }
        let nl = chars_of("\n");
        push_all(&mut m, join_chars(&lines_v, nl.as_slice()).as_slice());
        push_str(&mut m, "\n");
    }
    let ghost parsed_part = m@;
    match &compiled.diagnostic_excerpt {
        Some(x) => {
            push_str(&mut m, "\n### Raw Diagnostic Excerpt\n");
            push_str(&mut m, x.as_str());
            push_str(&mut m, "\n");
            proof {
                assert(m@ =~= parsed_part + ("\n### Raw Diagnostic Excerpt\n"@ + diagnostic_excerpt(combined@, 3000) + "\n"@));
            }
        },
        None => {
            proof {
                reveal_strlit("");
                assert(m@ =~= parsed_part + ""@);
            }
        },
    }
    m
}

/// Whether tests can run in the chosen project, decided before any command runs.
#[derive(Debug, Clone)]
pub enum ProjectCheck {
    Proceed,
    Ambiguous(String),
    Unknown(String),
    Mismatch(String),
}

/// The message when no known project type was found.
pub open spec fn unknown_project_message(subproject: Option<Seq<char>>) -> Seq<char> {
    (match subproject {
        Some(s) => "No known project type found at '"@ + s + "' (Cargo.toml / package.json / pyproject.toml)."@,
        None => "Unable to detect known project type (Cargo.toml / package.json / pyproject.toml)."@,
    }) + ". Cannot determine test command. Use execute_command for custom commands."@
}

/// The message when the given project type differs from the detected one.
pub open spec fn mismatch_message(hint: Seq<char>, actual: Seq<char>, subproject: Option<Seq<char>>) -> Seq<char> {
    "project_type='"@ + hint + "' but detected '"@ + actual + "' at '"@ + (match subproject {
        Some(s) => s,
        None => "."@,
    }) + "'. Fix the project_type parameter or omit it for auto-detection."@
}

/// The decision, as (kind, message): 0 proceed, 1 ambiguous, 2 unknown, 3 mismatch.
///
/// With neither a subproject nor a type given, more than one candidate is
/// ambiguous when the root has no known type or there are more than two.
/// Then an unknown type stops the run, and a given type must agree with a
/// detected known one.
pub open spec fn project_check(
    project_type: Seq<char>,
    subproject: Option<Seq<char>>,
    type_hint: Option<Seq<char>>,
    candidates: Seq<ProjectCandidate>,
    root_type: Seq<char>,
    detected_type: Seq<char>,
) -> (int, Seq<char>) {
    if subproject is None && type_hint is None && candidates.len() > 1 && (root_type == "unknown"@ || candidates.len() > 2) {
        (1, ambiguous_message(candidates))
    } else if project_type == "unknown"@ {
        (2, unknown_project_message(subproject))
    } else if type_hint is Some && detected_type != "unknown"@ && detected_type != type_hint->0 {
        (3, mismatch_message(type_hint->0, detected_type, subproject))
    } else {
        (0, Seq::empty())
    }
}

/// Decides whether tests can run: `candidates` are the projects found
/// under the working directory, `root_type` the type detected there and
/// `detected_type` the type detected in the target directory.
pub fn check_test_project(
    project_type: &str,
    subproject: Option<&str>,
    type_hint: Option<&str>,
    candidates: &[ProjectCandidate],
    root_type: &str,
    detected_type: &str,
) -> (r: ProjectCheck)
    ensures
        ({
            let d = project_check(
                project_type@,
                match subproject {
                    Some(s) => Some(s@),
                    None => None,
                },
                match type_hint {
                    Some(t) => Some(t@),
                    None => None,
                },
                candidates@,
                root_type@,
                detected_type@,
            );
            match r {
                ProjectCheck::Proceed => d.0 == 0,
                ProjectCheck::Ambiguous(m) => d.0 == 1 && m@ == d.1,
                ProjectCheck::Unknown(m) => d.0 == 2 && m@ == d.1,
                ProjectCheck::Mismatch(m) => d.0 == 3 && m@ == d.1,
            }
        }),
{
    if subproject.is_none() && type_hint.is_none() && candidates.len() > 1 && (str_eq(root_type, "unknown")
        || candidates.len() > 2) {
        return ProjectCheck::Ambiguous(ambiguous_project_message(candidates));
    }
    if str_eq(project_type, "unknown") {
        let mut m: Vec<char> = Vec::new();
        match subproject {
            Some(s) => {
                push_str(&mut m, "No known project type found at '");
                push_str(&mut m, s);
                push_str(&mut m, "' (Cargo.toml / package.json / pyproject.toml).");
            },
            None => push_str(&mut m, "Unable to detect known project type (Cargo.toml / package.json / pyproject.toml)."),
        }
        push_str(&mut m, ". Cannot determine test command. Use execute_command for custom commands.");
        return ProjectCheck::Unknown(string_of(m.as_slice()));
    }
    match type_hint {
        Some(hint) => {
            if !str_eq(detected_type, "unknown") && !str_eq(detected_type, hint) {
                let mut m: Vec<char> = Vec::new();
                push_str(&mut m, "project_type='");
                push_str(&mut m, hint);
                push_str(&mut m, "' but detected '");
                push_str(&mut m, detected_type);
                push_str(&mut m, "' at '");
                match subproject {
                    Some(s) => push_str(&mut m, s),
                    None => push_str(&mut m, "."),
                }
                push_str(&mut m, "'. Fix the project_type parameter or omit it for auto-detection.");
                return ProjectCheck::Mismatch(string_of(m.as_slice()));
            }
        },
        None => {},
    }
    ProjectCheck::Proceed
}

} // verus!
