use shuji::validate::contract::{ContractSpec, FunctionSig};
use shuji::validate::diff::diff_contract_vs_code;

fn make_fn(name: &str, params: Vec<(&str, &str)>, ret: &str) -> FunctionSig {
    FunctionSig {
        name: name.to_string(),
        params: params
            .into_iter()
            .map(|(n, t)| (n.to_string(), t.to_string()))
            .collect(),
        return_type: ret.to_string(),
    }
}

#[test]
fn test_contract_matches_code() {
    let contract = ContractSpec {
        functions: vec![
            make_fn("hello", vec![], "String"),
            make_fn("add", vec![("a", "i32"), ("b", "i32")], "i32"),
        ],
        classes: vec![],
    };
    let code = vec![
        make_fn("hello", vec![], "String"),
        make_fn("add", vec![("a", "i32"), ("b", "i32")], "i32"),
    ];
    let diff = diff_contract_vs_code(&contract, &code);
    assert!(diff.is_clean(), "matching code should produce no diff");
}

#[test]
fn test_missing_function_in_code() {
    let contract = ContractSpec {
        functions: vec![make_fn("missing_fn", vec![], "()")],
        classes: vec![],
    };
    let code = vec![];
    let diff = diff_contract_vs_code(&contract, &code);
    assert_eq!(diff.missing_in_code.len(), 1);
    assert_eq!(diff.missing_in_code[0].name, "missing_fn");
    assert!(!diff.is_clean());
}

#[test]
fn test_extra_function_in_code() {
    let contract = ContractSpec {
        functions: vec![],
        classes: vec![],
    };
    let code = vec![make_fn("extra_fn", vec![], "()")];
    let diff = diff_contract_vs_code(&contract, &code);
    assert_eq!(diff.extra_in_code.len(), 1);
    assert_eq!(diff.extra_in_code[0].name, "extra_fn");
}

#[test]
fn test_signature_mismatch() {
    let contract = ContractSpec {
        functions: vec![make_fn("add", vec![("a", "i32"), ("b", "i32")], "i32")],
        classes: vec![],
    };
    let code = vec![make_fn("add", vec![("a", "i64"), ("b", "i64")], "i64")];
    let diff = diff_contract_vs_code(&contract, &code);
    assert_eq!(diff.signature_mismatch.len(), 1);
    assert_eq!(diff.signature_mismatch[0].name, "add");
}

#[test]
fn mismatch_renders_both_signatures() {
    let contract = ContractSpec {
        functions: vec![make_fn("f", vec![("a", "i32")], "i32")],
        classes: vec![],
    };
    let code = vec![make_fn("f", vec![], "()")];
    let diff = diff_contract_vs_code(&contract, &code);
    assert_eq!(diff.signature_mismatch[0].expected, "fn f(a: i32) -> i32");
    assert_eq!(diff.signature_mismatch[0].actual, "fn f() -> ()");
}
