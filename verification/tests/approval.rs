use shuji::tool::approval::{
    apply_status, check_status_request, dangling_ref_message, is_must_approve_id,
    reference_verdict, route_verdict, subject_verdict, ApprovalRead, DirectRef, RefLookup,
};
use shuji::tool::doc_tools::{document_view, not_found_hint};
use shuji::tool::documents::DocMeta;

fn meta(doc_type: &str) -> DocMeta {
    DocMeta {
        id: "revw_3".to_string(),
        doc_type: doc_type.to_string(),
        author: "menxia".to_string(),
        timestamp: "2024-01-01 00:00:00".to_string(),
        refs: "plan_2".to_string(),
        status: "in_review".to_string(),
        notes: String::new(),
        approved_hash: String::new(),
    }
}

#[test]
fn status_request_checks() {
    let e = check_status_request("", "approved").unwrap_err();
    assert_eq!(e.code, "empty_params");
    assert_eq!(e.message, "id and status cannot be empty");
    assert_eq!(check_status_request("revw_1", "").unwrap_err().code, "empty_params");
    let e = check_status_request("revw_1", "maybe").unwrap_err();
    assert_eq!(e.code, "invalid_status");
    assert_eq!(e.message, "status must be approved or rejected");
    assert!(check_status_request("revw_1", "approved").is_ok());
    assert!(check_status_request("revw_1", "rejected").is_ok());
}

#[test]
fn approving_records_the_body_hash() {
    let mut m = meta("revw");
    let r = apply_status(&mut m, "revw_3", "abc", "approved", false, 0, "", "T1").unwrap();
    assert_eq!(r, "Document revw_3 status set to approved");
    assert_eq!(m.status, "approved");
    assert_eq!(m.timestamp, "T1");
    assert_eq!(
        m.approved_hash,
        "ba7816bf8f01cfea414140de5dae2223b00361a396177a9cb410ff61f20015ad"
    );
    assert_eq!(m.notes, "");
}

#[test]
fn rejecting_clears_the_hash_and_keeps_the_note() {
    let mut m = meta("revw");
    m.approved_hash = "old".to_string();
    apply_status(&mut m, "revw_3", "abc", "rejected", false, 0, "redo it", "T2").unwrap();
    assert_eq!(m.status, "rejected");
    assert_eq!(m.approved_hash, "");
    assert_eq!(m.notes, "朱批[rejected @T2]: redo it");
}

#[test]
fn automatic_approval_notes_the_rounds() {
    let mut m = meta("revw");
    apply_status(&mut m, "revw_3", "", "approved", true, 3, "ignored", "T3").unwrap();
    assert_eq!(m.notes, "[auto_approved @T3] 超时自动放行（内阁连续 3 轮未请示）");
    assert_eq!(m.approved_hash.len(), 64);
    assert!(m.approved_hash.chars().all(|c| c.is_ascii_hexdigit() && !c.is_ascii_uppercase()));
}

#[test]
fn only_plans_and_reviews_take_a_status() {
    let mut p = meta("plan");
    assert_eq!(apply_status(&mut p, "plan_1", "x", "approved", false, 0, "", "T").unwrap(), "Document plan_1 status set to approved");
    assert_eq!(p.status, "approved");
    let mut m = meta("dsgn");
    let before = m.clone();
    let e = apply_status(&mut m, "dsgn_1", "x", "approved", false, 0, "", "T").unwrap_err();
    assert_eq!(e.code, "wrong_type");
    assert_eq!(e.message, "Only plan and revw document types can have approval status set");
    assert_eq!(m.status, before.status);
    assert_eq!(m.approved_hash, before.approved_hash);
}

#[test]
fn must_approve_ids() {
    assert!(is_must_approve_id("revw_1"));
    assert!(is_must_approve_id("revw"));
    assert!(is_must_approve_id("plan_1"));
    assert!(!is_must_approve_id("dsgn_1"));
    assert!(!is_must_approve_id("revwx_1"));
}

#[test]
fn verdicts() {
    assert_eq!(
        subject_verdict("revw_1", "revw", "in_review").unwrap_err(),
        "Document revw_1 is still awaiting emperor approval (status: in_review). Please handle the approval first."
    );
    assert_eq!(
        subject_verdict("revw_1", "revw", "rejected").unwrap_err(),
        "Document revw_1 has been rejected (status: rejected). Please address the rejection feedback first."
    );
    assert!(subject_verdict("revw_1", "revw", "approved").is_ok());
    assert_eq!(
        subject_verdict("plan_1", "plan", "in_review").unwrap_err(),
        "Document plan_1 is still awaiting emperor approval (status: in_review). Please handle the approval first."
    );
    assert!(subject_verdict("dsgn_1", "dsgn", "rejected").is_ok());
    assert_eq!(
        reference_verdict("task_1", "revw_2", "in_review").unwrap_err(),
        "Document task_1 references revw_2, which is still awaiting emperor approval (status: in_review). Please handle the approval first."
    );
    assert_eq!(
        reference_verdict("task_1", "revw_2", "rejected").unwrap_err(),
        "Document task_1 references revw_2, which has been rejected (status: rejected). Please address the rejection feedback first."
    );
    assert!(reference_verdict("task_1", "revw_2", "approved").is_ok());
}

#[test]
fn dangling_messages() {
    assert_eq!(dangling_ref_message("task_1", "plan_9", false), "断链：文档 task_1 引用的 plan_9 不存在");
    assert_eq!(dangling_ref_message("task_1", "plan_9", true), "断链：文档 task_1 间接引用的 plan_9 不存在");
}

#[test]
fn document_view_whole_body() {
    let m = meta("revw");
    let v = document_view(&m, "# T\nhello", None, 0).unwrap();
    assert_eq!(
        v,
        "revw_3 | type: revw | author: menxia | time: 2024-01-01 00:00:00 | status: in_review | refs: plan_2\n--- Body ---\n# T\nhello"
    );
    let mut m2 = meta("plan");
    m2.status = String::new();
    let v = document_view(&m2, "abcdef", Some(""), 3).unwrap();
    assert!(v.contains("| status: - |"));
    assert!(v.ends_with("--- Body ---\nabc...\n\n[Truncated: showing first 3 of 6 chars]"));
}

#[test]
fn document_view_missing_section() {
    let m = meta("revw");
    let e = document_view(&m, "# T\n## A\nx\n", Some("Nope"), 0).unwrap_err();
    assert_eq!(e.code, "section_not_found");
    assert_eq!(
        e.message,
        "Section \"Nope\" not found in the document.\nAvailable sections (1 total):\n## A"
    );
    let v = document_view(&m, "# T\n## A\nx\n## B\ny", Some("A"), 0).unwrap();
    assert!(v.ends_with("\n--- Section [A] ---\n## A\nx"));
}

#[test]
fn not_found_hints() {
    let h = not_found_hint("dsgn_3.md", "dsgn_3", &vec!["plan_1".to_string(), "dsgn_2".to_string()]);
    assert_eq!(
        h,
        "read_document expects a document ID like dsgn_3 or plan_1 — not a filename path or context JSON. Normalized \"dsgn_3.md\" → \"dsgn_3\" but still not found. Do not pass file paths or .md extensions; use the ID only. Available IDs in .shuji/designs: plan_1, dsgn_2"
    );
    let h = not_found_hint("x", "x", &vec![]);
    assert_eq!(
        h,
        "read_document expects a document ID like dsgn_3 or plan_1 — not a filename path or context JSON. No documents in .shuji/designs yet — list_dir .shuji/designs first."
    );
}

fn found(num: u64, id: &str, approval: Option<ApprovalRead>) -> RefLookup {
    RefLookup { num, id: Some(id.to_string()), approval }
}

fn status(s: &str) -> Option<ApprovalRead> {
    Some(ApprovalRead::Status(s.to_string()))
}

#[test]
fn route_goes_on_when_everything_is_approved() {
    let refs = vec![
        DirectRef {
            lookup: found(3, "revw_003", status("approved")),
            indirect: vec![found(1, "reqs_001", None), found(2, "revw_002", status("approved"))],
        },
        DirectRef { lookup: found(4, "dsgn_004", None), indirect: vec![] },
    ];
    assert_eq!(route_verdict("task_005", "task", "draft", &refs), Ok(()));
    assert_eq!(route_verdict("task_005", "task", "draft", &vec![]), Ok(()));
}

#[test]
fn route_held_back_by_its_own_pending_review() {
    let r = route_verdict("revw_007", "revw", "in_review", &vec![]);
    assert_eq!(
        r,
        Err("Document revw_007 is still awaiting emperor approval (status: in_review). Please handle the approval first."
            .to_string())
    );
    assert_eq!(route_verdict("dsgn_007", "dsgn", "in_review", &vec![]), Ok(()));
}

#[test]
fn route_held_back_by_a_named_review() {
    let refs = vec![DirectRef { lookup: found(3, "revw_003", status("rejected")), indirect: vec![] }];
    assert_eq!(
        route_verdict("task_005", "task", "draft", &refs),
        Err("Document task_005 references revw_003, which has been rejected (status: rejected). Please address the rejection feedback first."
            .to_string())
    );
}

#[test]
fn route_held_back_by_a_review_named_through_a_document() {
    let refs = vec![DirectRef {
        lookup: found(4, "dsgn_004", None),
        indirect: vec![found(1, "reqs_001", None), found(2, "revw_002", status("in_review"))],
    }];
    assert_eq!(
        route_verdict("task_005", "task", "draft", &refs),
        Err("Document task_005 references revw_002, which is still awaiting emperor approval (status: in_review). Please handle the approval first."
            .to_string())
    );
}

#[test]
fn route_held_back_by_dangling_numbers() {
    let direct = vec![DirectRef { lookup: RefLookup { num: 9, id: None, approval: None }, indirect: vec![] }];
    assert_eq!(
        route_verdict("task_005", "task", "draft", &direct),
        Err("断链：文档 task_005 引用的 9 不存在".to_string())
    );
    let indirect = vec![DirectRef {
        lookup: found(4, "dsgn_004", None),
        indirect: vec![RefLookup { num: 12, id: None, approval: None }],
    }];
    assert_eq!(
        route_verdict("task_005", "task", "draft", &indirect),
        Err("断链：文档 task_005 间接引用的 12 不存在".to_string())
    );
}

#[test]
fn route_held_back_by_an_unreadable_review() {
    let failed = vec![DirectRef {
        lookup: found(3, "revw_003", Some(ApprovalRead::Failed("no frontmatter".to_string()))),
        indirect: vec![],
    }];
    assert_eq!(route_verdict("task_005", "task", "draft", &failed), Err("no frontmatter".to_string()));
    let missing = vec![DirectRef { lookup: found(3, "revw_003", Some(ApprovalRead::Missing)), indirect: vec![] }];
    assert_eq!(
        route_verdict("task_005", "task", "draft", &missing),
        Err("断链：文档 task_005 引用的 revw_003 不存在".to_string())
    );
}

#[test]
fn route_reports_the_first_refusal_in_order() {
    let refs = vec![
        DirectRef { lookup: found(2, "revw_002", status("in_review")), indirect: vec![] },
        DirectRef { lookup: RefLookup { num: 9, id: None, approval: None }, indirect: vec![] },
    ];
    let r = route_verdict("task_005", "task", "draft", &refs);
    assert!(r.unwrap_err().contains("revw_002"));
}
