use shuji::tool::python_cmd::{
    pytest_cmd, python_candidates, python_command, python_module_cmd, venv_create_cmd,
    venv_python_or_system,
};

#[test]
fn python_command_returns_non_empty() {
    let cmd = python_command(false, &vec![false, true]);
    assert!(!cmd.is_empty());
    assert!(cmd == "python" || cmd == "python3" || cmd == "py");
}

#[test]
fn pytest_cmd_contains_pytest() {
    let cmd = pytest_cmd("all", "python3");
    assert!(cmd.contains("pytest"));
    assert!(cmd.starts_with("python") || cmd.starts_with("py "));
}

#[test]
fn venv_python_or_system_falls_back_without_venv() {
    let py = venv_python_or_system("/p/.venv/bin/python", false, "python3");
    assert!(!py.is_empty());
    assert!(!py.contains(".venv"));
}

#[test]
fn venv_create_cmd_contains_venv() {
    let cmd = venv_create_cmd("python3");
    assert!(cmd.contains("venv"));
    assert!(cmd.contains(".venv"));
}

#[test]
fn first_available_candidate_wins() {
    assert_eq!(python_command(false, &vec![false, true]), "python");
    assert_eq!(python_command(false, &vec![true, true]), "python3");
    assert_eq!(python_command(true, &vec![false, true, true]), "py");
    assert_eq!(python_command(true, &vec![]), "python");
    assert_eq!(python_command(false, &vec![false, false]), "python3");
    assert_eq!(python_candidates(true), vec!["python", "py", "python3"]);
}

#[test]
fn pytest_scopes() {
    assert_eq!(pytest_cmd("unit", "py"), "py -m pytest tests/ -v");
    assert_eq!(pytest_cmd("integration", "py"), "py -m pytest tests/integration/ -v");
    assert_eq!(pytest_cmd("all", "py"), "py -m pytest -v");
    assert_eq!(python_module_cmd("python3", "pip", "install -e ."), "python3 -m pip install -e .");
    assert_eq!(venv_python_or_system("/p/.venv/bin/python", true, "python3"), "/p/.venv/bin/python");
}
