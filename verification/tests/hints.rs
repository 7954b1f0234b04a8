use shuji::tool::dispatch::{
    dispatch_step, doc_id_from_write_result, document_write_succeeded, finish_tool_result,
    handle_route_to, invalidation_after, DispatchStep, Invalidation,
};
use shuji::tool::hints::{augment_error_with_hint, error_hint};

#[test]
fn successful_results_get_no_hint() {
    let raw = r#"{"ok":true,"operation":"read_file","message":"hi"}"#;
    assert_eq!(augment_error_with_hint("read_file", raw, "工部"), raw);
}

#[test]
fn missing_file_gets_the_list_dir_hint() {
    let raw = r#"{"ok":false,"operation":"read_file","error_code":"read_error","message":"File NOT FOUND: a.rs"}"#;
    let out = augment_error_with_hint("read_file", raw, "工部");
    let v: serde_json::Value = serde_json::from_str(&out).unwrap();
    assert_eq!(
        v["hint"].as_str().unwrap(),
        "HINT: 文件不存在。请先使用 list_dir 确认文件路径，或检查路径拼写。如果文件可能在其他位置，使用 search_text 搜索。"
    );
    assert_eq!(v["error_code"], "read_error");
    assert_eq!(v["ok"], false);
}

#[test]
fn plain_text_errors_stay_as_they_are() {
    let raw = "command failed badly";
    assert_eq!(augment_error_with_hint("execute_command", raw, "工部"), raw);
}

#[test]
fn hint_rules_in_order() {
    let none: Option<String> = None;
    let code = |c: &str| Some(c.to_string());
    assert!(error_hint("create_file", &none, "File already exists").starts_with("HINT: 文件已存在"));
    assert!(error_hint("edit_file", &none, "SEARCH block not matched").starts_with("HINT: SEARCH 块匹配失败"));
    assert!(error_hint("apply_patch", &none, "No such file").starts_with("HINT: 要修改的文件不存在"));
    assert!(error_hint("create_document", &code("forbidden_type"), "x").starts_with("HINT: 该文档类型不属于本部门职责"));
    assert!(error_hint("create_document", &none, "Invalid type given").starts_with("HINT: 文档类型不合法"));
    assert!(error_hint("read_document", &code("empty_id"), "x").starts_with("HINT: 文档 ID 不存在或格式错误"));
    assert!(error_hint("read_document", &none, "doc does not exist").starts_with("HINT: 文档 ID 不存在。先用"));
    assert!(error_hint("append_document", &code("doc_not_approved"), "x").starts_with("HINT: 该文档引用的审批文档"));
    assert!(error_hint("append_document", &none, "not found").starts_with("HINT: 要追加的文档"));
    assert!(error_hint("route_to", &code("unknown_target"), "x").starts_with("HINT: 目标部门名称无法识别"));
    assert!(error_hint("route_to", &code("doc_not_approved"), "x").starts_with("HINT: 路由被拒绝"));
    assert!(error_hint("list_dir", &code("ROLE_GATE"), "x").starts_with("HINT: 该工具不在本部门职责范围内"));
    assert!(error_hint("execute_command", &none, "no such command").starts_with("HINT: 命令不存在"));
    assert!(error_hint("unknown_tool", &none, "x").starts_with("HINT: 调用了不存在的工具"));
    assert!(error_hint("search_text", &none, "x").starts_with("HINT: 请确认参数正确"));
    assert!(error_hint("create_document", &none, "x").starts_with("HINT: 请检查参数是否完整"));
    assert!(error_hint("modify_file", &none, "x").starts_with("HINT: 请先 read_file"));
    assert!(error_hint("run_tests", &none, "x").starts_with("HINT: 请检查工具参数后重试"));
}

#[test]
fn finished_results_carry_the_hint_and_the_limit() {
    let raw = r#"{"ok":false,"error_code":"unknown_tool","message":"Unknown tool"}"#;
    let out = finish_tool_result("unknown_tool", raw, "工部");
    assert!(out.contains("\"hint\":\"HINT: 调用了不存在的工具"));
}

#[test]
fn dispatch_checks_paths_and_statuses() {
    match dispatch_step("read_file", Some(""), None, None, None, None) {
        DispatchStep::Answer(o) => {
            assert!(!o.ok);
            assert_eq!(o.error_code.as_deref(), Some("empty_path"));
            assert_eq!(o.message.as_deref(), Some("请指定要读取的文件路径（path 参数不能为空）。"));
        }
        other => panic!("unexpected {:?}", other),
    }
    assert!(matches!(dispatch_step("read_file", Some("a.rs"), None, None, None, None), DispatchStep::Run));
    assert!(matches!(dispatch_step("create_file", None, None, None, None, None), DispatchStep::Answer(_)));
    assert!(matches!(
        dispatch_step("set_document_status", None, Some("approved"), None, None, None),
        DispatchStep::Run
    ));
    match dispatch_step("set_document_status", None, Some("rejected"), None, None, None) {
        DispatchStep::Answer(o) => {
            assert_eq!(o.error_code.as_deref(), Some("invalid_status"));
            assert_eq!(o.path.as_deref(), Some("rejected"));
            assert_eq!(o.message.as_deref(), Some("状态值不合法：必须是 approved。当前值: rejected"));
        }
        other => panic!("unexpected {:?}", other),
    }
    match dispatch_step("set_document_status", None, None, None, None, None) {
        DispatchStep::Answer(o) => assert_eq!(o.error_code.as_deref(), Some("missing_status")),
        other => panic!("unexpected {:?}", other),
    }
}

#[test]
fn dispatch_routes_and_documents() {
    match dispatch_step("append_document", None, None, Some("plan_2"), None, None) {
        DispatchStep::CheckAppendRefs(id) => assert_eq!(id, "plan_2"),
        other => panic!("unexpected {:?}", other),
    }
    assert!(matches!(dispatch_step("append_document", None, None, Some(""), None, None), DispatchStep::Run));
    match dispatch_step("find_document", None, None, Some("dsgn_1"), None, None) {
        DispatchStep::Answer(o) => {
            assert!(o.ok);
            assert_eq!(
                o.message.as_deref(),
                Some("find_document is deprecated. Use read_document(id=\"dsgn_1\") instead — it finds + reads in one call.")
            );
        }
        other => panic!("unexpected {:?}", other),
    }
    match dispatch_step("route_to", None, None, None, Some("工部"), Some("task_3")) {
        DispatchStep::CheckRouteRefs(s) => assert_eq!(s, "task_3"),
        other => panic!("unexpected {:?}", other),
    }
    assert!(matches!(dispatch_step("route_to", None, None, None, Some("中书令"), Some("task_3")), DispatchStep::Route));
    assert!(matches!(dispatch_step("route_to", None, None, None, Some("工部"), None), DispatchStep::Route));
    assert!(matches!(dispatch_step("route", None, None, None, None, None), DispatchStep::Answer(_)));
    assert!(matches!(dispatch_step("search_text", None, None, None, None, None), DispatchStep::Run));
    match dispatch_step("fly", None, None, None, None, None) {
        DispatchStep::Answer(o) => {
            assert_eq!(o.operation, "unknown_tool");
            assert_eq!(o.path.as_deref(), Some("fly"));
            assert_eq!(o.message.as_deref(), Some("Unknown tool"));
        }
        other => panic!("unexpected {:?}", other),
    }
}

#[test]
fn route_requests() {
    let o = handle_route_to("", "task_1", None, true);
    assert_eq!(o.error_code.as_deref(), Some("missing_target"));
    let o = handle_route_to("工部", "", None, true);
    assert_eq!(o.error_code.as_deref(), Some("missing_subject"));
    let o = handle_route_to("工部", "task_1", Some("later"), true);
    assert_eq!(o.error_code.as_deref(), Some("invalid_type"));
    assert_eq!(o.message.as_deref(), Some("Invalid route type: later, must be task/replace/interrupt"));
    let o = handle_route_to("火部", "task_1", None, false);
    assert_eq!(o.error_code.as_deref(), Some("unknown_target"));
    assert_eq!(o.path.as_deref(), Some("火部"));
    let o = handle_route_to("工部", "task_1", None, true);
    assert!(o.ok);
    assert_eq!(o.message.as_deref(), Some("Route to 工部 (task): task_1"));
    let o = handle_route_to("工部", "task_1", Some("interrupt"), true);
    assert_eq!(o.message.as_deref(), Some("Route to 工部 (interrupt): task_1"));
}

#[test]
fn stale_reads_after_writes() {
    assert_eq!(invalidation_after("edit_file"), Invalidation::PathAndParent);
    assert_eq!(invalidation_after("append_document"), Invalidation::DocumentDir);
    assert_eq!(invalidation_after("read_file"), Invalidation::Nothing);
    assert!(document_write_succeeded(r#"{"ok":true,"path":"x"}"#));
    assert!(!document_write_succeeded(r#"{"ok": true}"#));
}

#[test]
fn written_document_ids() {
    assert_eq!(
        doc_id_from_write_result("modify_document", Some("plan_1"), "{}"),
        Some("plan_1".to_string())
    );
    assert_eq!(
        doc_id_from_write_result("create_document", Some("plan_1"), r#"{"ok":true,"path":"dsgn_4"}"#),
        Some("dsgn_4".to_string())
    );
    assert_eq!(doc_id_from_write_result("create_document", None, r#"{"ok":false,"path":"dsgn_4"}"#), None);
    assert_eq!(doc_id_from_write_result("append_document", Some(""), r#"{"ok":true,"path":""}"#), None);
}
