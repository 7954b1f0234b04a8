use shuji::validate::lint::{
    all_passed, contract_gate_summary, delivery_audit_line, delivery_gates, has_lint_script,
    lint_failure_summary, lint_gate_command, lint_gate_summary, lint_plan, lint_report,
    lint_unsupported_summary, lint_skip_note, lint_tool_verdict, DeliveryGate, LintPlan,
};
use shuji::validate::report::DeliveryOptions;
use shuji::validate::tests_runner::failed_test_lines;

#[test]
fn lint_plans() {
    assert!(matches!(lint_plan("rust", false, false), LintPlan::Run(c) if c == "cargo clippy -- -D warnings"));
    assert!(matches!(lint_plan("node", true, false), LintPlan::Run(c) if c == "npm run lint"));
    match lint_plan("node", false, true) {
        LintPlan::Skip(s) => {
            assert_eq!(s.summary, "package.json has no lint script, skipping lint");
            assert_eq!(s.reason.as_deref(), Some("no_lint_script"));
            assert!(!s.warning);
        }
        other => panic!("unexpected {:?}", other),
    }
    match lint_plan("python", false, false) {
        LintPlan::Skip(s) => {
            assert_eq!(s.reason.as_deref(), Some("ruff_not_found"));
            assert!(s.warning);
        }
        other => panic!("unexpected {:?}", other),
    }
    assert!(matches!(lint_plan("python", false, true), LintPlan::Run(c) if c == "ruff check ."));
    match lint_plan("go", true, true) {
        LintPlan::Skip(s) => {
            assert_eq!(s.summary, "Unsupported project type go, skipping lint");
            assert_eq!(s.reason, None);
        }
        other => panic!("unexpected {:?}", other),
    }
    assert!(has_lint_script(r#"{"scripts":{"lint":"eslint ."}}"#));
    assert!(!has_lint_script(r#"{"scripts":{"test":"jest"}}"#));
}

#[test]
fn lint_runs_are_counted_and_judged() {
    let r = lint_report(0, "warning: a\nok\nwarning: b", "error-free warning");
    assert!(r.pass);
    assert_eq!(r.summary, "lint passed");
    assert_eq!(r.warning_count, 3);
    assert_eq!(r.error_count, 1);
    let r = lint_report(101, "error[E1]: x\nerror: y", "");
    assert!(!r.pass);
    assert_eq!(r.summary, "lint failed (exit=101, errors=2)");
    let long = "é".repeat(2500);
    let r = lint_report(0, &long, "");
    assert_eq!(r.stdout_head.chars().count(), 2000);
    assert_eq!(r.stderr_head, "");
}

#[test]
fn lint_gate_texts() {
    assert_eq!(lint_gate_command("node"), Some("npm run lint"));
    assert_eq!(lint_gate_command("go"), None);
    assert_eq!(lint_gate_summary(0), "lint passed");
    assert_eq!(lint_gate_summary(-1), "lint failed (exit=-1)");
    assert_eq!(lint_failure_summary("timeout"), "lint execution failed: timeout");
    assert_eq!(lint_unsupported_summary("unknown"), "Unsupported project type unknown, skipping lint");
}

#[test]
fn delivery_gate_selection() {
    let mut opts = DeliveryOptions::default();
    assert_eq!(delivery_gates(true, true, &opts), vec![DeliveryGate::Tests]);
    assert_eq!(delivery_gates(false, true, &opts), vec![]);
    opts.run_contract_diff = true;
    opts.ctrt_id = Some("ctrt_2".to_string());
    opts.run_lint = true;
    assert_eq!(
        delivery_gates(true, false, &opts),
        vec![DeliveryGate::ContractDiff("ctrt_2".to_string()), DeliveryGate::Lint]
    );
    opts.ctrt_id = Some(String::new());
    assert_eq!(delivery_gates(true, true, &opts), vec![DeliveryGate::Tests, DeliveryGate::Lint]);
}

#[test]
fn delivery_verdicts() {
    assert!(all_passed(&vec![]));
    assert!(all_passed(&vec![true, true]));
    assert!(!all_passed(&vec![true, false]));
    assert_eq!(contract_gate_summary("ctrt_1", true), "Contract ctrt_1 exists");
    assert_eq!(
        contract_gate_summary("ctrt_1", false),
        "Contract ctrt_1 does not exist, skipping contract check"
    );
    assert_eq!(delivery_audit_line("rust", false, 3), "Validation rust: overall_pass=false (3 checks)");
}

#[test]
fn failed_tests_are_listed() {
    let out = "test a ... ok\n  test b ... FAILED  \nfailures:\ntest c ... FAILED";
    assert_eq!(failed_test_lines(out), vec!["test b ... FAILED".to_string(), "test c ... FAILED".to_string()]);
}

#[test]
fn lint_tool_verdicts() {
    assert_eq!(lint_tool_verdict(false, 1, "warning: x", ""), (true, "lint 通过 (warnings=1)".to_string()));
    assert_eq!(
        lint_tool_verdict(true, 1, "warning: x", ""),
        (false, "lint 失败 exit=1 errors=0 warnings=1".to_string())
    );
    assert_eq!(
        lint_tool_verdict(false, 2, "error: y", "warning"),
        (false, "lint 失败 exit=2 errors=1 warnings=1".to_string())
    );
    assert_eq!(
        lint_skip_note("no_lint_script", "node", false),
        r#"{"skipped": true, "reason": "no_lint_script", "project_type": "node"}"#
    );
    assert_eq!(
        lint_skip_note("ruff_not_found", "python", true),
        r#"{"skipped": true, "reason": "ruff_not_found", "project_type": "python", "warning": true}"#
    );
}
