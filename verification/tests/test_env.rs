use shuji::tool::test_env::{
    project_type_from, setup_env_next, setup_env_start, EnvAction, EnvFacts, EnvStage, RunOutcome,
};

fn facts(project_type: &str) -> EnvFacts {
    EnvFacts {
        project_type: project_type.to_string(),
        force: false,
        cargo_lock: false,
        package_lock: true,
        node_modules: false,
        venv_python: false,
        windows: false,
        python: "python3".to_string(),
    }
}

fn run_of(a: EnvAction) -> (String, u64, EnvStage) {
    match a {
        EnvAction::Run(c, t, s) => (c, t, s),
        EnvAction::Report(_) => panic!("expected a command"),
    }
}

fn message_of(a: EnvAction) -> (bool, Option<String>, String) {
    match a {
        EnvAction::Report(o) => (o.ok, o.error_code, o.message.unwrap_or_default()),
        EnvAction::Run(..) => panic!("expected a report"),
    }
}

#[test]
fn test_setup_test_env_no_project() {
    let (ok, code, msg) = message_of(setup_env_start(&facts("unknown")));
    assert!(ok);
    assert!(code.is_none());
    assert_eq!(msg, "{\"skipped\": true, \"reason\": \"unknown_project_type: unknown\"}");
}

#[test]
fn rust_fetches_without_a_lock_file() {
    assert_eq!(run_of(setup_env_start(&facts("rust"))), ("cargo fetch".to_string(), 600, EnvStage::Fetch));
    let mut f = facts("rust");
    f.cargo_lock = true;
    assert_eq!(message_of(setup_env_start(&f)).2, "rust environment ready (Cargo.lock exists)");
    let (ok, code, msg) = message_of(setup_env_next(&f, EnvStage::Fetch, RunOutcome::Exit(false, Some(101)), "x"));
    assert!(!ok);
    assert_eq!(code.as_deref(), Some("fetch_failed"));
    assert_eq!(msg, "cargo fetch failed exit=101");
}

#[test]
fn node_uses_ci_with_a_lock_file() {
    let (cmd, secs, stage) = run_of(setup_env_start(&facts("node")));
    assert_eq!(cmd, "npm ci");
    assert_eq!(secs, 600);
    let (ok, _, msg) = message_of(setup_env_next(&facts("node"), stage, RunOutcome::Exit(true, Some(0)), "x"));
    assert!(ok);
    assert_eq!(msg, "npm ci completed");
    let (_, code, msg) = message_of(setup_env_next(&facts("node"), stage, RunOutcome::Exit(false, None), "x"));
    assert_eq!(code.as_deref(), Some("install_failed"));
    assert_eq!(msg, "npm ci failed exit=-1");
}

#[test]
fn python_creates_a_venv_then_installs() {
    let f = facts("python");
    let (cmd, secs, stage) = run_of(setup_env_start(&f));
    assert_eq!(cmd, "python3 -m venv .venv");
    assert_eq!(secs, 300);
    let (pip, _, stage2) = run_of(setup_env_next(&f, stage, RunOutcome::Exit(true, Some(0)), "x"));
    assert_eq!(pip, ".venv/bin/pip install -e .");
    let (dev, _, stage3) = run_of(setup_env_next(&f, stage2, RunOutcome::Exit(false, Some(1)), "x"));
    assert_eq!(dev, ".venv/bin/pip install -e '.[dev]'");
    let (ok, _, msg) = message_of(setup_env_next(&f, stage3, RunOutcome::Exit(false, Some(1)), "x"));
    assert!(ok);
    assert_eq!(msg, "python venv created (pip install skipped or failed, environment unaffected)");
    let (_, _, msg) = message_of(setup_env_next(&f, stage2, RunOutcome::Exit(true, Some(0)), ".venv/bin/python"));
    assert_eq!(msg, "python venv created + pip install. Tests will use: .venv/bin/python");
}

#[test]
fn a_command_that_cannot_run_is_an_exec_error() {
    let (ok, code, msg) = message_of(setup_env_next(&facts("python"), EnvStage::Venv, RunOutcome::Error("no shell".to_string()), "x"));
    assert!(!ok);
    assert_eq!(code.as_deref(), Some("exec_error"));
    assert_eq!(msg, "no shell");
}

#[test]
fn project_types_by_marker() {
    assert_eq!(project_type_from(true, true, true), "rust");
    assert_eq!(project_type_from(false, true, true), "node");
    assert_eq!(project_type_from(false, false, true), "python");
    assert_eq!(project_type_from(false, false, false), "unknown");
}
