//! Settings of the delivery validation gates.
use vstd::prelude::*;

verus! {

/// Which validation gates to run for a delivery.
#[derive(Debug, Clone)]
pub struct DeliveryOptions {
    pub ctrt_id: Option<String>,
    pub run_contract_diff: bool,
    pub run_lint: bool,
    pub test_scope: String,
}

/// Project-level validation settings.
#[derive(Debug, Clone)]
pub struct ValidateConfig {
    pub enabled: bool,
    pub tests: TestConfig,
    pub contract_diff: ContractDiffConfig,
    pub lint: LintConfig,
}

/// Settings of the test gate.
#[derive(Debug, Clone)]
pub struct TestConfig {
    pub required: bool,
    pub scope: String,
    pub forbid_unexplained_skip: bool,
}

/// Settings of the contract-diff gate.
#[derive(Debug, Clone)]
pub struct ContractDiffConfig {
    pub enabled: bool,
    pub ctrt_id: Option<String>,
}

/// Settings of the lint gate.
#[derive(Debug, Clone)]
pub struct LintConfig {
    pub enabled: bool,
    pub fail_on_warning: bool,
}

impl Default for DeliveryOptions {
    /// No contract, no contract diff, no lint, all tests.
    fn default() -> (o: Self)
        ensures
            o.ctrt_id is None,
            !o.run_contract_diff,
            !o.run_lint,
            o.test_scope@ == "all"@,
    {
        DeliveryOptions { ctrt_id: None, run_contract_diff: false, run_lint: false, test_scope: "all".to_owned() }
    }
}

/// The default validation settings: enabled, required tests over all
/// scopes with skips allowed, no contract diff, lint off (failing on
/// warnings when on).
pub open spec fn is_default_config(c: ValidateConfig) -> bool {
    &&& c.enabled
    &&& c.tests.required
    &&& c.tests.scope@ == "all"@
    &&& !c.tests.forbid_unexplained_skip
    &&& !c.contract_diff.enabled
    &&& c.contract_diff.ctrt_id is None
    &&& !c.lint.enabled
    &&& c.lint.fail_on_warning
}

impl Default for ValidateConfig {
    /// The default validation settings.
    fn default() -> (c: Self)
        ensures
            is_default_config(c),
    {
        ValidateConfig {
            enabled: true,
            tests: TestConfig { required: true, scope: "all".to_owned(), forbid_unexplained_skip: false },
            contract_diff: ContractDiffConfig { enabled: false, ctrt_id: None },
            lint: LintConfig { enabled: false, fail_on_warning: true },
        }
    }
}

/// The default validation settings.
pub fn default_validate_config() -> (c: ValidateConfig)
    ensures
        is_default_config(c),
{
    ValidateConfig::default()
}

} // verus!
