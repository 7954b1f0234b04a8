use shuji::tool::doc_policy::{allowed_doc_types, dept_doc_type_allowed};

#[test]
fn departments_create_their_own_types() {
    assert!(dept_doc_type_allowed("zhongshuling", "dsgn").is_ok());
    assert!(dept_doc_type_allowed("Zhongshuling", "plan").is_ok());
    assert!(dept_doc_type_allowed("menxiashizhong", "revw").is_ok());
    assert!(dept_doc_type_allowed("requirements_agent", "reqs").is_ok());
    assert!(dept_doc_type_allowed("survey_agent", "anls").is_ok());
    assert!(dept_doc_type_allowed("工部", "rprt").is_ok());
    assert_eq!(allowed_doc_types("bingbushangshu"), Some(vec!["ctrt".to_string(), "rprt".to_string()]));
}

#[test]
fn unknown_departments_are_not_restricted() {
    assert!(dept_doc_type_allowed("hubu", "plan").is_ok());
    assert!(dept_doc_type_allowed("", "dsgn").is_ok());
    assert_eq!(allowed_doc_types("hubu"), None);
}

#[test]
fn forbidden_types_are_refused() {
    let r = dept_doc_type_allowed("gongbushangshu", "dsgn").unwrap_err();
    assert_eq!(r.code, "forbidden_type");
    assert_eq!(
        r.message,
        "部门「工部」无权创建 dsgn 类型文档。该文档类型不属于本部门职责，请改由对应部门创建，或选择正确的类型。"
    );
    let n = dept_doc_type_allowed("neige", "plan").unwrap_err();
    assert_eq!(
        n.message,
        "部门「内阁」无权创建 plan 类型文档。内阁应通过 submit_pipeline_plan 提交可执行流程，而非创建 plan 文档；plan 由中书令创建。"
    );
    assert!(dept_doc_type_allowed("survey_agent", "task").is_err());
}
