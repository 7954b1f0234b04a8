use shuji::tool::documents::{
    append_note_entry, build_doc, dept_to_author, extract_section, parse_doc, type_to_dir, DocMeta,
};

fn meta() -> DocMeta {
    DocMeta {
        id: "dsgn_3".to_string(),
        doc_type: "dsgn".to_string(),
        author: "中书令".to_string(),
        timestamp: "2026-01-01T10:00:00".to_string(),
        refs: "[1, 2]".to_string(),
        status: "approved".to_string(),
        notes: "first | second".to_string(),
        approved_hash: "abc123".to_string(),
    }
}

#[test]
fn what_is_written_is_read_back() {
    let m = meta();
    let text = build_doc(&m, "  \n# Title\nbody");
    let (back, body) = parse_doc(&text).unwrap();
    assert_eq!(back.id, m.id);
    assert_eq!(back.doc_type, m.doc_type);
    assert_eq!(back.author, m.author);
    assert_eq!(back.timestamp, m.timestamp);
    assert_eq!(back.refs, m.refs);
    assert_eq!(back.status, m.status);
    assert_eq!(back.notes, m.notes);
    assert_eq!(back.approved_hash, m.approved_hash);
    assert_eq!(body, "# Title\nbody");
}

#[test]
fn empty_optional_fields_are_left_out_and_read_back_empty() {
    let mut m = meta();
    m.status = String::new();
    m.notes = String::new();
    m.approved_hash = String::new();
    let text = build_doc(&m, "b");
    assert!(!text.contains("status:"));
    let (back, body) = parse_doc(&text).unwrap();
    assert_eq!(back.status, "");
    assert_eq!(back.notes, "");
    assert_eq!(body, "b");
}

#[test]
fn parse_errors_name_what_is_missing() {
    assert_eq!(parse_doc("no frontmatter").unwrap_err(), "Missing YAML frontmatter start marker");
    assert_eq!(parse_doc("---\nid: x\n").unwrap_err(), "Missing YAML frontmatter end marker");
    assert_eq!(parse_doc("---\ntype: dsgn\n---\n").unwrap_err(), "Document missing id field");
}

#[test]
fn notes_stay_on_one_line() {
    assert_eq!(append_note_entry("", "a"), "a");
    assert_eq!(append_note_entry("x\ny", "z"), "x | y | z");
}

#[test]
fn sections_and_names() {
    let body = "## Goals\nship it\n## Risks\nnone\n";
    assert_eq!(extract_section(body, "Goals").unwrap(), "## Goals\nship it");
    assert!(extract_section(body, "Missing").is_err());
    assert_eq!(type_to_dir("ddtl"), "designs/detail");
    assert_eq!(dept_to_author("ZhongShuLing"), "中书令");
}
