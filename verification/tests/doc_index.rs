use shuji::tool::doc_index::{
    doc_id_request, doc_ids_from_names, latest_doc_id, latest_non_empty_doc_id, ref_id_candidates,
};

fn names(v: &[&str]) -> Vec<String> {
    v.iter().map(|s| s.to_string()).collect()
}

#[test]
fn reference_numbers_expand_by_type() {
    let c = ref_id_candidates(3);
    assert_eq!(c.len(), 22);
    assert_eq!(c[0], "dsgn_3");
    assert_eq!(c[1], "dsgn_003");
    assert_eq!(c[21], "precepts_003");
    let c = ref_id_candidates(1234);
    assert_eq!(c[2], "plan_1234");
    assert_eq!(c[3], "plan_1234");
    assert_eq!(ref_id_candidates(42)[1], "dsgn_042");
}

#[test]
fn requested_ids_are_normalised() {
    assert_eq!(doc_id_request("  dsgn_3.md "), ("dsgn_3".to_string(), None));
    assert_eq!(doc_id_request("7"), ("7".to_string(), Some(7)));
    assert_eq!(doc_id_request("007.md"), ("007".to_string(), Some(7)));
    assert_eq!(doc_id_request(""), ("".to_string(), None));
    assert_eq!(doc_id_request("+7"), ("+7".to_string(), None));
    assert_eq!(doc_id_request("99999999999999999999"), ("99999999999999999999".to_string(), None));
}

#[test]
fn hint_ids_are_sorted_and_limited() {
    let n = names(&["plan_2.md", "README.md", "dsgn_10.md", "dsgn_1.md", "notes.txt", "anls_1.md"]);
    assert_eq!(doc_ids_from_names(&n, 10), vec!["anls_1", "dsgn_1", "dsgn_10", "plan_2"]);
    assert_eq!(doc_ids_from_names(&n, 2), vec!["anls_1", "dsgn_1"]);
}

#[test]
fn newest_document_by_number() {
    let n = names(&["dsgn_2.md", "plan_7.md", "revw_9.md", "dsgn_7.md", "x.txt"]);
    assert_eq!(latest_doc_id(&n, &vec!["dsgn", "plan"]), Some("dsgn_7".to_string()));
    assert_eq!(latest_doc_id(&n, &vec!["task"]), None);
    let bad = names(&["dsgn_2.md", "dsgn_draft.md", "dsgn_9.md"]);
    assert_eq!(latest_doc_id(&bad, &vec!["dsgn"]), None);
}

#[test]
fn newest_non_empty_document() {
    let n = names(&["revw_3.md", "revw_8.md", "revw_draft.md"]);
    assert_eq!(
        latest_non_empty_doc_id(&n, &vec![true, false, false], &vec!["revw"]),
        Some("revw_3".to_string())
    );
    assert_eq!(latest_non_empty_doc_id(&n, &vec![true, true, true], &vec!["revw"]), None);
}
