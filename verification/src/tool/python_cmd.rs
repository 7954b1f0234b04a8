//! Which Python interpreter to run, and the shell commands built on it.
use crate::text::{chars_of, push_str, str_eq, string_of};
use vstd::prelude::*;

verus! {

/// The interpreter commands tried, in order of preference.
pub open spec fn python_candidates_spec(windows: bool) -> Seq<Seq<char>> {
    if windows {
        seq!["python"@, "py"@, "python3"@]
    } else {
        seq!["python3"@, "python"@]
    }
}

/// The interpreter commands tried, in order of preference: on Windows
/// `python`, `py`, `python3`; elsewhere `python3`, `python`.
pub fn python_candidates(windows: bool) -> (r: Vec<&'static str>)
    ensures
        r@.map_values(|s: &'static str| s@) == python_candidates_spec(windows),
{
    let r = if windows {
        vec!["python", "py", "python3"]
    } else {
        vec!["python3", "python"]
    };
    proof {
        assert(r@.map_values(|s: &'static str| s@) =~= python_candidates_spec(windows));
    }
    r
}

/// Index of the first candidate from `i` on that answered, if any.
pub open spec fn first_available(avail: Seq<bool>, n: int, i: int) -> Option<int>
    decreases n - i,
{
    if i >= n || i < 0 {
        None
    } else if i < avail.len() && avail[i] {
        Some(i)
    } else {
        first_available(avail, n, i + 1)
    }
}

/// The chosen interpreter: the first candidate reported available, or the
/// first candidate when none is.
pub open spec fn chosen_python(windows: bool, avail: Seq<bool>) -> Seq<char> {
    let c = python_candidates_spec(windows);
    match first_available(avail, c.len() as int, 0) {
        Some(i) => c[i],
        None => c[0],
    }
}

/// Picks the interpreter command: `available[i]` tells whether candidate
/// `i` (see [`python_candidates`]) answered `--version`; a missing entry
/// counts as not available.
pub fn python_command(windows: bool, available: &Vec<bool>) -> (r: String)
    ensures
        r@ == chosen_python(windows, available@),
{
    let c = python_candidates(windows);
    let ghost cs = python_candidates_spec(windows);
    let mut i: usize = 0;
    proof {
        assert(c@.len() == cs.len());
    }
    while i < c.len()
        invariant
            i <= c@.len(),
            c@.len() == cs.len(),
            cs == python_candidates_spec(windows),
            c@.map_values(|s: &'static str| s@) == cs,
            first_available(available@, cs.len() as int, 0) == first_available(
                available@,
                cs.len() as int,
                i as int,
            ),
        decreases c@.len() - i,
    {
        if i < available.len() && available[i] {
            proof {
                assert(c@[i as int]@ == cs[i as int]);
            }
            let v = chars_of(c[i]);
            return string_of(v.as_slice());
        }
        i = i + 1;
    }
    proof {
        assert(c@[0]@ == cs[0]);
    }
    let v = chars_of(c[0]);
    string_of(v.as_slice())
}

/// The interpreter of the project's `.venv` when it exists, else the
/// system interpreter.
pub fn venv_python_or_system(venv_python: &str, venv_exists: bool, system_python: &str) -> (r:
    String)
    ensures
        r@ == (if venv_exists {
            venv_python@
        } else {
            system_python@
        }),
{
    let v = if venv_exists {
        chars_of(venv_python)
    } else {
        chars_of(system_python)
    };
    string_of(v.as_slice())
}

/// `<python> -m <module> <args>`.
pub fn python_module_cmd(python: &str, module: &str, args: &str) -> (r: String)
    ensures
        r@ == python@ + " -m "@ + module@ + " "@ + args@,
{
    let mut v = chars_of(python);
    push_str(&mut v, " -m ");
    push_str(&mut v, module);
    push_str(&mut v, " ");
    push_str(&mut v, args);
    string_of(v.as_slice())
}

/// The pytest arguments for a test scope.
pub open spec fn pytest_args(scope: Seq<char>) -> Seq<char> {
    if scope == "unit"@ {
        " -m pytest tests/ -v"@
    } else if scope == "integration"@ {
        " -m pytest tests/integration/ -v"@
    } else {
        " -m pytest -v"@
    }
}

/// The pytest command for a scope (`unit`: `tests/`, `integration`:
/// `tests/integration/`, anything else: all tests), run by `python`.
pub fn pytest_cmd(scope: &str, python: &str) -> (r: String)
    ensures
        r@ == python@ + pytest_args(scope@),
{
    let mut v = chars_of(python);
    if str_eq(scope, "unit") {
        push_str(&mut v, " -m pytest tests/ -v");
    } else if str_eq(scope, "integration") {
        push_str(&mut v, " -m pytest tests/integration/ -v");
    } else {
        push_str(&mut v, " -m pytest -v");
    }
    string_of(v.as_slice())
}

/// The command that creates the project's `.venv`.
pub fn venv_create_cmd(python: &str) -> (r: String)
    ensures
        r@ == python@ + " -m "@ + "venv"@ + " "@ + ".venv"@,
{
    python_module_cmd(python, "venv", ".venv")
}

} // verus!
