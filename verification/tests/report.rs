use shuji::validate::report::{default_validate_config, DeliveryOptions, ValidateConfig};

#[test]
fn test_validate_config_default() {
    let config = ValidateConfig::default();
    assert!(config.enabled);
    assert!(config.tests.required);
    assert!(!config.contract_diff.enabled);
    assert!(!config.lint.enabled);
}

#[test]
fn test_delivery_options_default() {
    let opts = DeliveryOptions::default();
    assert_eq!(opts.test_scope, "all");
    assert!(!opts.run_lint);
    assert!(!opts.run_contract_diff);
    assert!(opts.ctrt_id.is_none());
}

#[test]
fn default_config_runs_all_tests_and_fails_lint_on_warnings() {
    let config = default_validate_config();
    assert_eq!(config.tests.scope, "all");
    assert!(!config.tests.forbid_unexplained_skip);
    assert!(config.contract_diff.ctrt_id.is_none());
    assert!(config.lint.fail_on_warning);
}
