//! Preparing a project's test environment: which command runs next and
//! what is reported, from what is on disk and how each command ended.
//! The commands themselves are run by the caller.
use crate::text::{chars_of, fmt_i32, int_decimal, push_all, push_str, str_eq, string_of};
use crate::tool::output::{error_of, success_of, success_raw_of, ToolOutput};
use crate::tool::python_cmd::venv_create_cmd;
use vstd::prelude::*;

verus! {

/// The project type by its marker files: `Cargo.toml`, then
/// `package.json`, then a Python marker.
pub open spec fn project_type_spec(cargo_toml: bool, package_json: bool, python_marker: bool) -> Seq<char> {
    if cargo_toml {
        "rust"@
    } else if package_json {
        "node"@
    } else if python_marker {
        "python"@
    } else {
        "unknown"@
    }
}

/// The project type by its marker files (see [`project_type_spec`]).
pub fn project_type_from(cargo_toml: bool, package_json: bool, python_marker: bool) -> (r: &'static str)
    ensures
        r@ == project_type_spec(cargo_toml, package_json, python_marker),
{
    if cargo_toml {
        "rust"
    } else if package_json {
        "node"
    } else if python_marker {
        "python"
    } else {
        "unknown"
    }
}

/// What is known before anything runs.
pub struct EnvFacts {
    pub project_type: String,
    /// Recreate the environment even when it exists.
    pub force: bool,
    pub cargo_lock: bool,
    pub package_lock: bool,
    pub node_modules: bool,
    /// The `.venv` interpreter exists.
    pub venv_python: bool,
    pub windows: bool,
    /// The system interpreter command.
    pub python: String,
}

/// The command whose outcome is awaited.
#[derive(Debug, Clone, Copy, PartialEq, Eq, Structural)]
pub enum EnvStage {
    Fetch,
    /// `npm ci` (with a lock file) or `npm install`.
    Install(bool),
    Venv,
    Pip,
    PipDev,
}

/// How a command ended: its exit (success, and the code when there is
/// one), or the error that kept it from running.
pub enum RunOutcome {
    Exit(bool, Option<i32>),
    Error(String),
}

/// What to do next.
pub enum EnvAction {
    /// Run `command` with a timeout, then report its outcome for `stage`.
    Run(String, u64, EnvStage),
    Report(ToolOutput),
}

pub open spec fn op() -> Seq<char> {
    "setup_test_env"@
}

/// The exit code as reported: `-1` when there is none.
pub open spec fn code_text(code: Option<i32>) -> Seq<char> {
    match code {
        Some(c) => int_decimal(c as int),
        None => "-1"@,
    }
}

pub open spec fn pip_cmd(windows: bool) -> Seq<char> {
    if windows {
        ".venv/Scripts/pip install -e ."@
    } else {
        ".venv/bin/pip install -e ."@
    }
}

pub open spec fn pip_dev_cmd(windows: bool) -> Seq<char> {
    if windows {
        ".venv/Scripts/pip install -e \".[dev]\""@
    } else {
        ".venv/bin/pip install -e '.[dev]'"@
    }
}

pub open spec fn npm_cmd(lock: bool) -> Seq<char> {
    if lock {
        "npm ci"@
    } else {
        "npm install"@
    }
}

/// `a` runs `cmd` with a timeout of `secs` seconds, then awaits `stage`.
pub open spec fn runs(a: EnvAction, cmd: Seq<char>, secs: u64, stage: EnvStage) -> bool {
    a matches EnvAction::Run(c, t, s) && c@ == cmd && t == secs && s == stage
}

/// `a` reports the success of the tool with this message.
pub open spec fn reports_success(a: EnvAction, msg: Seq<char>) -> bool {
    a matches EnvAction::Report(o) && success_of(o, op(), ""@, msg)
}

/// `a` reports the error of the tool with this code and message.
pub open spec fn reports_error(a: EnvAction, code: Seq<char>, msg: Seq<char>) -> bool {
    a matches EnvAction::Report(o) && error_of(o, op(), ""@, code, msg)
}

fn success(msg: &[char]) -> (a: EnvAction)
    ensures
        reports_success(a, msg@),
{
    let m = string_of(msg);
    EnvAction::Report(ToolOutput::success("setup_test_env", "", m.as_str()))
}

fn failure(code: &str, msg: &[char]) -> (a: EnvAction)
    ensures
        reports_error(a, code@, msg@),
{
    let m = string_of(msg);
    EnvAction::Report(ToolOutput::error("setup_test_env", "", code, m.as_str()))
}

fn code_chars(code: Option<i32>) -> (r: Vec<char>)
    ensures
        r@ == code_text(code),
{
    match code {
        Some(c) => fmt_i32(c),
        None => chars_of("-1"),
    }
}

/// The first step: what runs first, or the report when nothing needs to.
pub fn setup_env_start(facts: &EnvFacts) -> (a: EnvAction)
    ensures
        facts.project_type@ == "rust"@ ==> (if !facts.cargo_lock || facts.force {
            runs(a, "cargo fetch"@, 600, EnvStage::Fetch)
        } else {
            reports_success(a, "rust environment ready (Cargo.lock exists)"@)
        }),
        facts.project_type@ == "node"@ ==> (if facts.node_modules && !facts.force {
            reports_success(a, "node_modules already exists"@)
        } else {
            runs(a, npm_cmd(facts.package_lock), 600, EnvStage::Install(facts.package_lock))
        }),
        facts.project_type@ == "python"@ ==> (if facts.venv_python && !facts.force {
            reports_success(a, ".venv already exists"@)
        } else {
            runs(a, facts.python@ + " -m "@ + "venv"@ + " "@ + ".venv"@, 300, EnvStage::Venv)
        }),
        facts.project_type@ != "rust"@ && facts.project_type@ != "node"@ && facts.project_type@
            != "python"@ ==> (a matches EnvAction::Report(o) && success_raw_of(
            o,
            op(),
            "{\"skipped\": true, \"reason\": \"unknown_project_type: "@ + facts.project_type@ + "\"}"@,
        )),
{
    proof {
        reveal_strlit("rust");
        reveal_strlit("node");
        reveal_strlit("python");
        assert("rust"@[0] != "node"@[0]);
    }
    let pt = facts.project_type.as_str();
    if str_eq(pt, "rust") {
        if !facts.cargo_lock || facts.force {
            let c = chars_of("cargo fetch");
            EnvAction::Run(string_of(c.as_slice()), 600, EnvStage::Fetch)
        } else {
            let m = chars_of("rust environment ready (Cargo.lock exists)");
            success(m.as_slice())
        }
    } else if str_eq(pt, "node") {
        if facts.node_modules && !facts.force {
            let m = chars_of("node_modules already exists");
            success(m.as_slice())
        } else {
            let c = if facts.package_lock {
                chars_of("npm ci")
            } else {
                chars_of("npm install")
            };
            EnvAction::Run(string_of(c.as_slice()), 600, EnvStage::Install(facts.package_lock))
        }
    } else if str_eq(pt, "python") {
        if facts.venv_python && !facts.force {
            let m = chars_of(".venv already exists");
            success(m.as_slice())
        } else {
            EnvAction::Run(venv_create_cmd(facts.python.as_str()), 300, EnvStage::Venv)
        }
    } else {
        let mut m = chars_of("{\"skipped\": true, \"reason\": \"unknown_project_type: ");
        push_str(&mut m, pt);
        push_str(&mut m, "\"}");
        let ms = string_of(m.as_slice());
        EnvAction::Report(ToolOutput::success_raw("setup_test_env", ms.as_str()))
    }
}

/// The next step once the command awaited in `stage` has ended;
/// `interpreter` is the interpreter tests will use at that moment (the
/// `.venv` one when it exists).
pub fn setup_env_next(facts: &EnvFacts, stage: EnvStage, outcome: RunOutcome, interpreter: &str) -> (a:
    EnvAction)
    ensures
        outcome matches RunOutcome::Error(e) ==> reports_error(a, "exec_error"@, e@),
        outcome matches RunOutcome::Exit(ok, code) ==> match stage {
            EnvStage::Fetch => if ok {
                reports_success(a, "cargo fetch completed"@)
            } else {
                reports_error(a, "fetch_failed"@, "cargo fetch failed exit="@ + code_text(code))
            },
            EnvStage::Install(lock) => if ok {
                reports_success(a, npm_cmd(lock) + " completed"@)
            } else {
                reports_error(a, "install_failed"@, npm_cmd(lock) + " failed exit="@ + code_text(code))
            },
            EnvStage::Venv => if ok {
                runs(a, pip_cmd(facts.windows), 300, EnvStage::Pip)
            } else {
                reports_error(a, "venv_failed"@, facts.python@ + " -m venv failed exit="@ + code_text(code))
            },
            EnvStage::Pip => if ok {
                reports_success(a, "python venv created + pip install. Tests will use: "@ + interpreter@)
            } else {
                runs(a, pip_dev_cmd(facts.windows), 300, EnvStage::PipDev)
            },
            EnvStage::PipDev => if ok {
                reports_success(
                    a,
                    "python venv created + pip install -e .[dev]. Tests will use: "@ + interpreter@,
                )
            } else {
                reports_success(
                    a,
                    "python venv created (pip install skipped or failed, environment unaffected)"@,
                )
            },
        },
{
    match outcome {
        RunOutcome::Error(e) => {
            let ev = chars_of(e.as_str());
            failure("exec_error", ev.as_slice())
        },
        RunOutcome::Exit(ok, code) => match stage {
            EnvStage::Fetch => {
                if ok {
                    let m = chars_of("cargo fetch completed");
                    success(m.as_slice())
                } else {
                    let mut m = chars_of("cargo fetch failed exit=");
                    let c = code_chars(code);
                    push_all(&mut m, c.as_slice());
                    failure("fetch_failed", m.as_slice())
                }
            },
            EnvStage::Install(lock) => {
                let mut m = if lock {
                    chars_of("npm ci")
                } else {
                    chars_of("npm install")
                };
                if ok {
                    push_str(&mut m, " completed");
                    success(m.as_slice())
                } else {
                    push_str(&mut m, " failed exit=");
                    let c = code_chars(code);
                    push_all(&mut m, c.as_slice());
                    failure("install_failed", m.as_slice())
                }
            },
            EnvStage::Venv => {
                if ok {
                    let c = if facts.windows {
                        chars_of(".venv/Scripts/pip install -e .")
                    } else {
                        chars_of(".venv/bin/pip install -e .")
                    };
                    EnvAction::Run(string_of(c.as_slice()), 300, EnvStage::Pip)
                } else {
                    let mut m = chars_of(facts.python.as_str());
                    push_str(&mut m, " -m venv failed exit=");
                    let c = code_chars(code);
                    push_all(&mut m, c.as_slice());
                    failure("venv_failed", m.as_slice())
                }
            },
            EnvStage::Pip => {
                if ok {
                    let mut m = chars_of("python venv created + pip install. Tests will use: ");
                    push_str(&mut m, interpreter);
                    success(m.as_slice())
                } else {
                    let c = if facts.windows {
                        chars_of(".venv/Scripts/pip install -e \".[dev]\"")
                    } else {
                        chars_of(".venv/bin/pip install -e '.[dev]'")
                    };
                    EnvAction::Run(string_of(c.as_slice()), 300, EnvStage::PipDev)
                }
            },
            EnvStage::PipDev => {
                if ok {
                    let mut m = chars_of("python venv created + pip install -e .[dev]. Tests will use: ");
                    push_str(&mut m, interpreter);
                    success(m.as_slice())
                } else {
                    let m = chars_of(
                        "python venv created (pip install skipped or failed, environment unaffected)",
                    );
                    success(m.as_slice())
                }
            },
        },
    }
}

} // verus!
