use shuji::tool::doc_tools::{
    append_parts, appended_body, check_doc_type, check_modify_doc_request, doc_place,
    modified_body, parse_refs, plan_new_document, render_refs, revert_if_approved,
    update_message, DocPlace,
};
use shuji::tool::documents::{parse_doc, DocMeta};

#[test]
fn doc_type_checks() {
    assert_eq!(check_doc_type("").unwrap_err().code, "empty_type");
    let e = check_doc_type("memo").unwrap_err();
    assert_eq!(e.code, "invalid_type");
    assert_eq!(
        e.message,
        "Invalid document type: memo, supported types: dsgn, plan, pdsg, ddtl, task, ctrt, rprt, revw, precepts, anls, reqs"
    );
    assert!(check_doc_type("revw").is_ok());
}

#[test]
fn refs_are_rendered_and_parsed_back() {
    assert_eq!(render_refs(None), "[-1]");
    assert_eq!(render_refs(Some(vec![])), "[-1]");
    assert_eq!(render_refs(Some(vec![None])), "[-1]");
    assert_eq!(render_refs(Some(vec![Some(3), None, Some(-4)])), "[3, -4]");
    assert_eq!(parse_refs("[3, 4]"), vec![3, 4]);
    assert_eq!(parse_refs("[-1]"), Vec::<u64>::new());
    assert_eq!(parse_refs("[]"), Vec::<u64>::new());
    assert_eq!(parse_refs(" [7, x, +8 ] "), vec![7, 8]);
}

#[test]
fn documents_live_by_type() {
    match doc_place("dsgn_4") {
        DocPlace::At(p) => assert_eq!(p, ".shuji/designs/dsgn_4.md"),
        DocPlace::Report => panic!("not a report"),
    }
    assert!(matches!(doc_place("rprt_2"), DocPlace::Report));
}

#[test]
fn a_new_review_waits_for_approval() {
    let d = plan_new_document("revw", "menxiashizhong", 12, "2026-01-01T00:00:00", "[3]");
    assert_eq!(d.meta.id, "revw_12");
    assert_eq!(d.meta.status, "in_review");
    assert_eq!(d.meta.refs, "[3]");
    assert!(d.rel_path.ends_with("revw_12.md"));
    assert!(d.message.starts_with("Document revw_12 created successfully"));
    let (meta, body) = parse_doc(&d.content).unwrap();
    assert_eq!(meta.id, "revw_12");
    assert_eq!(meta.status, "in_review");
    assert_eq!(body, "");
}

#[test]
fn reports_go_under_their_department() {
    let p = plan_new_document("plan", "zhongshuling", 13, "t", "[-1]");
    assert_eq!(p.meta.status, "in_review");
    let g = plan_new_document("dsgn", "zhongshuling", 14, "t", "[-1]");
    assert_eq!(g.meta.status, "");
    let d = plan_new_document("rprt", "gongbushangshu", 5, "t", "[-1]");
    assert_eq!(d.rel_path, ".shuji/reports/gongbushangshu/rprt_5.md");
    assert_eq!(d.meta.status, "");
}

#[test]
fn append_part_checks() {
    assert_eq!(append_parts("", None, "x").unwrap_err().code, "empty_id");
    assert_eq!(append_parts("a", Some(vec![]), "").unwrap_err().code, "empty_contents");
    let six: Vec<String> = (0..6).map(|i| i.to_string()).collect();
    assert_eq!(append_parts("a", Some(six), "").unwrap_err().code, "too_many_contents");
    let e = append_parts("a", Some(vec!["x".to_string(), "".to_string()]), "").unwrap_err();
    assert_eq!(e.code, "empty_content_item");
    assert_eq!(e.message, "contents[1] cannot be empty");
    let e = append_parts("a", Some(vec!["y".repeat(6001)]), "").unwrap_err();
    assert_eq!(e.message, "contents[0] too long (6001 chars), max 6000 chars.");
    assert_eq!(append_parts("a", None, "").unwrap_err().code, "empty_content");
    assert_eq!(append_parts("a", None, "z").unwrap(), vec!["z".to_string()]);
}

#[test]
fn appending_to_empty_and_non_empty_bodies() {
    let parts = vec!["a".to_string(), "b".to_string()];
    assert_eq!(appended_body("", &parts), "a\nb");
    assert_eq!(appended_body("body", &parts), "body\na\nb");
}

#[test]
fn modifying_a_body() {
    assert_eq!(modified_body("x y", None, "z").unwrap(), "x y");
    assert_eq!(modified_body("x y", Some("y"), "z").unwrap(), "x z");
    assert_eq!(modified_body("x y", Some(""), "z").unwrap_err().code, "empty_old_text");
    assert_eq!(modified_body("x y", Some("q"), "z").unwrap_err().code, "not_found");
    assert_eq!(check_modify_doc_request("", None, None).unwrap_err().code, "empty_id");
    let e = check_modify_doc_request("a", Some(&"o".repeat(3001)), None).unwrap_err();
    assert_eq!(e.message, "old_text too long (3001 chars), max 3000. Narrow your match range.");
    assert!(check_modify_doc_request("a", Some("o"), Some("n")).is_ok());
}

#[test]
fn approved_reviews_are_sent_back() {
    let mut m = DocMeta {
        id: "revw_1".to_string(),
        doc_type: "revw".to_string(),
        author: "门下侍中".to_string(),
        timestamp: "t".to_string(),
        refs: "[-1]".to_string(),
        status: "approved".to_string(),
        notes: "".to_string(),
        approved_hash: "abc".to_string(),
    };
    assert!(revert_if_approved(&mut m));
    assert_eq!(m.status, "in_review");
    assert_eq!(m.approved_hash, "");
    assert!(!revert_if_approved(&mut m));
    m.doc_type = "plan".to_string();
    m.status = "approved".to_string();
    assert!(revert_if_approved(&mut m));
    m.doc_type = "dsgn".to_string();
    m.status = "approved".to_string();
    assert!(!revert_if_approved(&mut m));
    assert_eq!(update_message(false, true), "Modified successfully. 已批准文档内容变更，已自动转入重审");
    assert_eq!(update_message(true, false), "Appended successfully");
}
