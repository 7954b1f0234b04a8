//! The groups of tools that departments are given, by tool name. A group's
//! definitions (descriptions and parameter schemas) are built from these
//! names where the model's tool list is assembled.
use crate::text::strs;
use vstd::prelude::*;

verus! {

pub(crate) fn names_of(v: &[&str]) -> (r: Vec<String>)
    ensures
        strs(r@) == v@.map_values(|s: &str| s@),
{
    let mut out: Vec<String> = Vec::new();
    let mut i: usize = 0;
    while i < v.len()
        invariant
            i <= v@.len(),
            strs(out@) == v@.take(i as int).map_values(|s: &str| s@),
        decreases v@.len() - i,
    {
        let ghost prev = out@;
        let o = v[i].to_owned();
        assert(o@ == v@[i as int]@);
        out.push(o);
        proof {
            assert(out@ == prev.push(o));
            assert(strs(out@) =~= strs(prev).push(o@));
            assert(v@.take(i + 1) =~= v@.take(i as int).push(v@[i as int]));
            assert(strs(out@) =~= v@.take(i + 1).map_values(|s: &str| s@));
        }
        i = i + 1;
    }
    proof {
        assert(v@.take(v@.len() as int) =~= v@);
    }
    out
}

/// Inspection for departments that work with documents.
pub open spec fn doc_inspect_names() -> Seq<Seq<char>> {
    seq!["read_document"@, "list_dir"@, "search_text"@]
}

/// Inspection for departments that read and change source files.
pub open spec fn code_inspect_names() -> Seq<Seq<char>> {
    seq!["read_file"@, "list_dir_tree"@, "search_text"@]
}

/// The least inspection: reading documents and listing a folder.
pub open spec fn minimal_inspect_names() -> Seq<Seq<char>> {
    seq!["read_document"@, "list_dir"@]
}

/// File writing for code departments: every edit goes through a patch or
/// an exact edit, so whole-file modify and append are left out.
pub open spec fn code_write_names() -> Seq<Seq<char>> {
    seq!["create_file"@, "edit_file"@, "apply_patch"@, "delete_file"@, "rename_file"@]
}

/// All file writing tools.
pub open spec fn file_write_names() -> Seq<Seq<char>> {
    seq![
        "create_file"@,
        "edit_file"@,
        "apply_patch"@,
        "modify_file"@,
        "append_file"@,
        "delete_file"@,
        "rename_file"@,
    ]
}

/// The document tools: create, modify, append and set a status.
pub open spec fn document_names() -> Seq<Seq<char>> {
    seq!["create_document"@, "modify_document"@, "append_document"@, "set_document_status"@]
}

/// Document-oriented inspection tools.
pub fn doc_inspect_tools() -> (r: Vec<String>)
    ensures
        strs(r@) == doc_inspect_names(),
{
    let v = ["read_document", "list_dir", "search_text"];
    names_of(v.as_slice())
}

/// Code-oriented inspection tools.
pub fn code_inspect_tools() -> (r: Vec<String>)
    ensures
        strs(r@) == code_inspect_names(),
{
    let v = ["read_file", "list_dir_tree", "search_text"];
    names_of(v.as_slice())
}

/// Minimal inspection tools.
pub fn minimal_inspect_tools() -> (r: Vec<String>)
    ensures
        strs(r@) == minimal_inspect_names(),
{
    let v = ["read_document", "list_dir"];
    names_of(v.as_slice())
}

/// The older name of the document-oriented inspection tools.
pub fn inspect_tools() -> (r: Vec<String>)
    ensures
        strs(r@) == doc_inspect_names(),
{
    doc_inspect_tools()
}

/// File write tools for code departments.
pub fn file_write_tools_for_code() -> (r: Vec<String>)
    ensures
        strs(r@) == code_write_names(),
{
    let v = ["create_file", "edit_file", "apply_patch", "delete_file", "rename_file"];
    names_of(v.as_slice())
}

/// All file write tools.
pub fn file_write_tools() -> (r: Vec<String>)
    ensures
        strs(r@) == file_write_names(),
{
    let v = [
        "create_file",
        "edit_file",
        "apply_patch",
        "modify_file",
        "append_file",
        "delete_file",
        "rename_file",
    ];
    names_of(v.as_slice())
}

/// The document tools.
pub fn document_tools() -> (r: Vec<String>)
    ensures
        strs(r@) == document_names(),
{
    let v = ["create_document", "modify_document", "append_document", "set_document_status"];
    names_of(v.as_slice())
}

/// The command tool.
pub fn execute_command_tool() -> (r: Vec<String>)
    ensures
        strs(r@) == seq!["execute_command"@],
{
    let v = ["execute_command"];
    names_of(v.as_slice())
}

/// The test tool.
pub fn run_tests_tool() -> (r: Vec<String>)
    ensures
        strs(r@) == seq!["run_tests"@],
{
    let v = ["run_tests"];
    names_of(v.as_slice())
}

/// The log summary tool.
pub fn summarize_logs_tool() -> (r: Vec<String>)
    ensures
        strs(r@) == seq!["summarize_logs"@],
{
    let v = ["summarize_logs"];
    names_of(v.as_slice())
}

} // verus!
