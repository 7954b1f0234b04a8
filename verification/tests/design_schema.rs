use shuji::validate::design_schema::validate_design_output_block;

#[test]
fn test_valid_design_output_block() {
    let body = r#"
# Design doc

Some content here.

## 输出块

conclusions:
  - 使用 REST API 架构
pending_issues:
  - 数据库选型待定
refs:
  - reqs_001
  - dsgn_002
"#;
    assert!(validate_design_output_block(body).is_ok());
}

#[test]
fn test_missing_output_block() {
    let body = "# Design doc\n\nNo output block here.";
    let result = validate_design_output_block(body);
    assert!(result.is_err());
    assert!(result.unwrap_err()[0].contains("缺少"));
}

#[test]
fn test_missing_required_fields() {
    let body = r#"
## 输出块

some_field: value
"#;
    let result = validate_design_output_block(body);
    assert!(result.is_err());
}

#[test]
fn test_chinese_field_names() {
    let body = r#"
## 输出块

结论:
  - 使用微服务
待处理:
  - API 版本管理
引用:
  - reqs_001
"#;
    assert!(validate_design_output_block(body).is_ok());
}

#[test]
fn missing_fields_are_each_reported() {
    let body = "## 输出块\n\nconclusions:\n  - x\n";
    let errs = validate_design_output_block(body).unwrap_err();
    assert_eq!(errs.len(), 2);
}
