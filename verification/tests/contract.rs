use shuji::validate::contract::{parse_contract, parse_function_sig, parse_params};

#[test]
fn test_parse_rust_fn() {
    let sig = parse_function_sig("fn create_user(name: str, email: str) -> User").unwrap();
    assert_eq!(sig.name, "create_user");
    assert_eq!(sig.params.len(), 2);
    assert_eq!(sig.params[0], ("name".into(), "str".into()));
    assert_eq!(sig.params[1], ("email".into(), "str".into()));
    assert_eq!(sig.return_type, "User");
}

#[test]
fn test_parse_python_fn() {
    let sig = parse_function_sig("def get_user(user_id: int) -> dict").unwrap();
    assert_eq!(sig.name, "get_user");
    assert_eq!(sig.params[0], ("user_id".into(), "int".into()));
    assert_eq!(sig.return_type, "dict");
}

#[test]
fn test_parse_ts_fn() {
    let sig = parse_function_sig("function formatDate(date: Date, format: string): string").unwrap();
    assert_eq!(sig.name, "formatDate");
    assert_eq!(sig.params.len(), 2);
}

#[test]
fn test_parse_fn_no_return() {
    let sig = parse_function_sig("fn do_thing(x: i32)").unwrap();
    assert_eq!(sig.name, "do_thing");
    assert_eq!(sig.return_type, "()");
}

#[test]
fn test_parse_fn_no_params() {
    let sig = parse_function_sig("fn ping() -> bool").unwrap();
    assert_eq!(sig.name, "ping");
    assert!(sig.params.is_empty());
    assert_eq!(sig.return_type, "bool");
}

#[test]
fn test_parse_contract_from_markdown() {
    let md = r#"# API Contract

## Functions

```rust
fn create_user(name: str, email: str) -> User
fn delete_user(id: u64) -> bool
```

## Description

Some text here.
"#;

    let spec = parse_contract(md);
    assert_eq!(spec.functions.len(), 2);
    assert_eq!(spec.functions[0].name, "create_user");
    assert_eq!(spec.functions[1].name, "delete_user");
}

#[test]
fn test_parse_params_with_types() {
    let params = parse_params("a: i32, b: String, c: bool");
    assert_eq!(params.len(), 3);
    assert_eq!(params[0], ("a".into(), "i32".into()));
    assert_eq!(params[1], ("b".into(), "String".into()));
    assert_eq!(params[2], ("c".into(), "bool".into()));
}

#[test]
fn test_parse_params_no_types() {
    let params = parse_params("x, y, z");
    assert_eq!(params.len(), 3);
    assert_eq!(params[0], ("x".into(), "unknown".into()));
}

#[test]
fn test_parse_params_empty() {
    let params = parse_params("");
    assert!(params.is_empty());
}

#[test]
fn test_not_a_function() {
    assert!(parse_function_sig("let x = 42;").is_none());
    assert!(parse_function_sig("class Foo {").is_none());
    assert!(parse_function_sig("// fn comment").is_none());
}

#[test]
fn inline_signature_named_in_a_block_is_not_listed_again() {
    let md = "fn a() -> bool\n```\nfn a(x: i32) -> i32\nfn a() -> u8\n```\n";
    let spec = parse_contract(md);
    assert_eq!(spec.functions.len(), 2);
    assert_eq!(spec.functions[0].return_type, "i32");
    assert_eq!(spec.functions[1].return_type, "u8");
}
