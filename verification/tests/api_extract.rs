use shuji::validate::api_extract::{extract_pub_fns_from_content, parse_fn_params};

#[test]
fn test_extract_pub_fn_simple() {
    let content = r#"
pub fn greet(name: &str) -> String {
    format!("Hello, {}", name)
}

pub async fn fetch_data(url: &str) -> Result<String, Error> {
    // ...
}
"#;
    let fns = extract_pub_fns_from_content(content);
    assert_eq!(fns.len(), 2, "should find both pub fns");
    assert_eq!(fns[0].name, "greet");
    assert_eq!(fns[1].name, "fetch_data");
}

#[test]
fn test_extract_skips_test_fns() {
    let content = r#"
pub fn real_func() -> i32 { 42 }

#[cfg(test)]
mod tests {
    #[test]
    fn test_real_func() {
        assert_eq!(real_func(), 42);
    }
}
"#;
    let fns = extract_pub_fns_from_content(content);
    assert_eq!(fns.len(), 1);
    assert_eq!(fns[0].name, "real_func");
}

#[test]
fn extract_reads_params_and_return_type() {
    let fns = extract_pub_fns_from_content("pub fn add(a: i32, mut b: i32) -> i32 { a + b }\n");
    assert_eq!(fns.len(), 1);
    assert_eq!(fns[0].params, vec![("a".to_string(), "i32".to_string()), ("b".to_string(), "i32".to_string())]);
    assert_eq!(fns[0].return_type, "i32");
}

#[test]
fn params_of_a_method() {
    let ps = parse_fn_params("&self, x: u8, y");
    assert_eq!(
        ps,
        vec![
            ("self".to_string(), "Self".to_string()),
            ("x".to_string(), "u8".to_string()),
            ("y".to_string(), "unknown".to_string()),
        ]
    );
}

#[test]
fn source_walk_skips_tests_and_target() {
    assert!(shuji::validate::api_extract::skips_source_dir("tests"));
    assert!(shuji::validate::api_extract::skips_source_dir("target"));
    assert!(!shuji::validate::api_extract::skips_source_dir("src"));
    assert!(!shuji::validate::api_extract::skips_source_dir("test"));
}
