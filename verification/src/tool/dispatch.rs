//! The decisions around a tool call: what is checked before the tool
//! runs, what a route asks for, which cached reads a write makes stale,
//! and how much of a result is handed back to the model.
use crate::text::{
    chars_of, decimal, first_n, first_n_chars, fmt_u128, fmt_u64, has_sub, push_all, push_str,
    str_eq, string_of, utf8_len, utf8_len_of, contains_str,
};
use crate::tool::hints::{augment_error_with_hint, with_hint};
use crate::tool::output::{
    error_of, json_field, json_member, success_of, success_raw_of, FieldView, JsonField, ToolOutput,
};
use vstd::prelude::*;

verus! {

/// The byte limit on a result of the named tool.
pub open spec fn result_limit(name: Seq<char>) -> nat {
    if name == "read_file"@ || name == "read_document"@ || name == "search_text"@ || name
        == "list_dir"@ {
        8000
    } else if name == "execute_command"@ || name == "run_tests"@ || name == "run_lint"@ || name
        == "summarize_logs"@ {
        4000
    } else {
        16000
    }
}

/// A tool result cut to its limit: the first `limit` characters and a note
/// saying how much was shown, when its UTF-8 length exceeds the limit.
pub open spec fn truncated_result(name: Seq<char>, content: Seq<char>) -> Seq<char> {
    let limit = result_limit(name);
    if utf8_len(content) > limit {
        first_n(content, limit) + "...\n[Truncated: showing first "@ + decimal(limit) + " of "@
            + decimal(utf8_len(content))
            + " chars. To continue, narrow your search and retry (truncated: true)]"@
    } else {
        content
    }
}

fn limit_for(name: &str) -> (r: usize)
    ensures
        r == result_limit(name@),
{
    if str_eq(name, "read_file") || str_eq(name, "read_document") || str_eq(name, "search_text")
        || str_eq(name, "list_dir") {
        8000
    } else if str_eq(name, "execute_command") || str_eq(name, "run_tests") || str_eq(
        name,
        "run_lint",
    ) || str_eq(name, "summarize_logs") {
        4000
    } else {
        16000
    }
}

/// Cuts a verbose tool result to the limit of its tool, with a note that
/// tells the model how to continue.
pub fn truncate_tool_result_by_name(name: &str, content: &str) -> (r: String)
    ensures
        r@ == truncated_result(name@, content@),
{
    let limit = limit_for(name);
    let cv = chars_of(content);
    let total = utf8_len_of(cv.as_slice());
    if total > limit as u128 {
        let mut v = first_n_chars(cv.as_slice(), limit);
        push_str(&mut v, "...\n[Truncated: showing first ");
        let a = fmt_u64(limit as u64);
        push_all(&mut v, a.as_slice());
        push_str(&mut v, " of ");
        let b = fmt_u128(total);
        push_all(&mut v, b.as_slice());
        push_str(&mut v, " chars. To continue, narrow your search and retry (truncated: true)]");
        string_of(v.as_slice())
    } else {
        string_of(cv.as_slice())
    }
}

/// A tool result as the model finally sees it: with the hint for a
/// failure added, then cut to the limit of its tool.
pub fn finish_tool_result(name: &str, raw_result: &str, dept: &str) -> (r: String)
    ensures
        r@ == truncated_result(name@, with_hint(name@, raw_result@)),
{
    let h = augment_error_with_hint(name, raw_result, dept);
    truncate_tool_result_by_name(name, h.as_str())
}

// ───────────────────────── before the tool runs ─────────────────────────

/// What happens to a tool call before (or instead of) running the tool.
#[derive(Debug)]
pub enum DispatchStep {
    /// The call is answered with this result; the tool does not run.
    Answer(ToolOutput),
    /// The tool runs.
    Run,
    /// The documents that this one names must be approved for an append;
    /// then the tool runs.
    CheckAppendRefs(String),
    /// The documents that this subject names must be approved for a
    /// route; then the route is handled.
    CheckRouteRefs(String),
    /// The route is handled (see [`handle_route_to`]).
    Route,
}

/// The text of an optional string argument; empty when absent.
pub open spec fn arg_text(a: Option<&str>) -> Seq<char> {
    match a {
        Some(s) => s@,
        None => Seq::empty(),
    }
}

/// The tools that run as they are called.
pub open spec fn runs_directly(name: Seq<char>) -> bool {
    name == "list_dir"@ || name == "list_dir_tree"@ || name == "append_file"@ || name
        == "delete_file"@ || name == "rename_file"@ || name == "modify_file"@ || name
        == "apply_patch"@ || name == "edit_file"@ || name == "create_document"@ || name
        == "modify_document"@ || name == "read_document"@ || name == "search_text"@ || name
        == "run_tests"@ || name == "check_compile"@ || name == "run_lint"@ || name
        == "setup_test_env"@ || name == "execute_command"@ || name == "summarize_logs"@ || name
        == "init_checklist"@ || name == "update_checklist_item"@ || name == "add_violation"@
        || name == "request_reauth"@ || name == "request_decision"@
}

/// The tools that the dispatcher knows.
pub open spec fn known_tool(name: Seq<char>) -> bool {
    runs_directly(name) || name == "read_file"@ || name == "create_file"@ || name
        == "set_document_status"@ || name == "append_document"@ || name == "find_document"@
        || name == "route_to"@ || name == "route"@
}

/// The departments that carry work out; a route to one of them waits
/// for the approval of the documents its subject names.
pub open spec fn executing_dept(to: Seq<char>) -> bool {
    to == "尚书令"@ || to == "吏部"@ || to == "兵部"@ || to == "工部"@ || to == "刑部"@ || to
        == "礼部"@
}

fn runs_directly_exec(name: &str) -> (r: bool)
    ensures
        r == runs_directly(name@),
{
    str_eq(name, "list_dir") || str_eq(name, "list_dir_tree") || str_eq(name, "append_file")
        || str_eq(name, "delete_file") || str_eq(name, "rename_file") || str_eq(
        name,
        "modify_file",
    ) || str_eq(name, "apply_patch") || str_eq(name, "edit_file") || str_eq(
        name,
        "create_document",
    ) || str_eq(name, "modify_document") || str_eq(name, "read_document") || str_eq(
        name,
        "search_text",
    ) || str_eq(name, "run_tests") || str_eq(name, "check_compile") || str_eq(name, "run_lint")
        || str_eq(name, "setup_test_env") || str_eq(name, "execute_command") || str_eq(
        name,
        "summarize_logs",
    ) || str_eq(name, "init_checklist") || str_eq(name, "update_checklist_item") || str_eq(
        name,
        "add_violation",
    ) || str_eq(name, "request_reauth") || str_eq(name, "request_decision")
}

fn executing_dept_exec(to: &str) -> (r: bool)
    ensures
        r == executing_dept(to@),
{
    str_eq(to, "尚书令") || str_eq(to, "吏部") || str_eq(to, "兵部") || str_eq(to, "工部") || str_eq(
        to,
        "刑部",
    ) || str_eq(to, "礼部")
}

fn arg_is_empty(a: Option<&str>) -> (r: bool)
    ensures
        r == (arg_text(a).len() == 0),
{
    match a {
        Some(s) => {
            let v = chars_of(s);
            v.len() == 0
        },
        None => true,
    }
}

/// `r` is what the dispatcher does with a call of tool `name`: a file
/// read or creation needs a path; a status change only approves; an append
/// to a named document waits for its references' approval; the lookup by
/// name is retired in favour of the read; a route to an executing
/// department waits for its subject's references' approval; the bare
/// route tag is answered with a pointer to the route tool; the other known
/// tools run, and an unknown tool is refused.
pub open spec fn dispatch_is(
    r: DispatchStep,
    name: Seq<char>,
    path: Option<&str>,
    status: Option<&str>,
    id: Option<&str>,
    to: Option<&str>,
    subject: Option<&str>,
) -> bool {
    if name == "read_file"@ {
        if arg_text(path).len() == 0 {
            r matches DispatchStep::Answer(o) && error_of(
                o,
                "read_file"@,
                ""@,
                "empty_path"@,
                "请指定要读取的文件路径（path 参数不能为空）。"@,
            )
        } else {
            r is Run
        }
    } else if name == "create_file"@ {
        if arg_text(path).len() == 0 {
            r matches DispatchStep::Answer(o) && error_of(
                o,
                "create_file"@,
                ""@,
                "empty_path"@,
                "请指定要创建的文件路径（path 参数不能为空）。"@,
            )
        } else {
            r is Run
        }
    } else if name == "set_document_status"@ {
        match status {
            Some(s) => if s@ == "approved"@ {
                r is Run
            } else {
                r matches DispatchStep::Answer(o) && error_of(
                    o,
                    "set_document_status"@,
                    s@,
                    "invalid_status"@,
                    "状态值不合法：必须是 approved。当前值: "@ + s@,
                )
            },
            None => r matches DispatchStep::Answer(o) && error_of(
                o,
                "set_document_status"@,
                ""@,
                "missing_status"@,
                "请指定状态值（status 参数）。合法值: approved"@,
            ),
        }
    } else if name == "append_document"@ {
        if arg_text(id).len() > 0 {
            r matches DispatchStep::CheckAppendRefs(i) && i@ == arg_text(id)
        } else {
            r is Run
        }
    } else if name == "find_document"@ {
        r matches DispatchStep::Answer(o) && success_raw_of(
            o,
            "find_document"@,
            "find_document is deprecated. Use read_document(id=\""@ + arg_text(id)
                + "\") instead — it finds + reads in one call."@,
        )
    } else if name == "route_to"@ {
        if executing_dept(arg_text(to)) && arg_text(subject).len() > 0 {
            r matches DispatchStep::CheckRouteRefs(s) && s@ == arg_text(subject)
        } else {
            r is Route
        }
    } else if name == "route"@ {
        r matches DispatchStep::Answer(o) && success_raw_of(
            o,
            "route"@,
            "Please use the route_to tool instead of outputting a raw route tag."@,
        )
    } else if runs_directly(name) {
        r is Run
    } else {
        r matches DispatchStep::Answer(o) && error_of(
            o,
            "unknown_tool"@,
            name,
            "unknown_tool"@,
            "Unknown tool"@,
        )
    }
}

/// What the dispatcher does with a call of tool `name`, given its string
/// arguments `path`, `status`, `id`, `to` and `subject` (absent when
/// missing or not a string).
pub fn dispatch_step(
    name: &str,
    path: Option<&str>,
    status: Option<&str>,
    id: Option<&str>,
    to: Option<&str>,
    subject: Option<&str>,
) -> (r: DispatchStep)
    ensures
        dispatch_is(r, name@, path, status, id, to, subject),
{
    if str_eq(name, "read_file") {
        if arg_is_empty(path) {
            return DispatchStep::Answer(
                ToolOutput::error(
                    "read_file",
                    "",
                    "empty_path",
                    "请指定要读取的文件路径（path 参数不能为空）。",
                ),
            );
        }
        return DispatchStep::Run;
    }
    if str_eq(name, "create_file") {
        if arg_is_empty(path) {
            return DispatchStep::Answer(
                ToolOutput::error(
                    "create_file",
                    "",
                    "empty_path",
                    "请指定要创建的文件路径（path 参数不能为空）。",
                ),
            );
        }
        return DispatchStep::Run;
    }
    if str_eq(name, "set_document_status") {
        return match status {
            Some(s) => {
                if str_eq(s, "approved") {
                    DispatchStep::Run
                } else {
                    let mut m = chars_of("状态值不合法：必须是 approved。当前值: ");
                    push_str(&mut m, s);
                    let ms = string_of(m.as_slice());
                    DispatchStep::Answer(
                        ToolOutput::error("set_document_status", s, "invalid_status", ms.as_str()),
                    )
                }
            },
            None => DispatchStep::Answer(
                ToolOutput::error(
                    "set_document_status",
                    "",
                    "missing_status",
                    "请指定状态值（status 参数）。合法值: approved",
                ),
            ),
        };
    }
    if str_eq(name, "append_document") {
        return match id {
            Some(i) => {
                let v = chars_of(i);
                if v.len() > 0 {
                    DispatchStep::CheckAppendRefs(string_of(v.as_slice()))
                } else {
                    DispatchStep::Run
                }
            },
            None => DispatchStep::Run,
        };
    }
    if str_eq(name, "find_document") {
        let mut m = chars_of("find_document is deprecated. Use read_document(id=\"");
        match id {
            Some(i) => push_str(&mut m, i),
            None => {},
        }
        push_str(&mut m, "\") instead — it finds + reads in one call.");
        let ms = string_of(m.as_slice());
        return DispatchStep::Answer(ToolOutput::success_raw("find_document", ms.as_str()));
    }
    if str_eq(name, "route_to") {
        let t = match to {
            Some(t) => executing_dept_exec(t),
            None => {
                proof {
                    reveal_strlit("尚书令");
                    reveal_strlit("吏部");
                    reveal_strlit("兵部");
                    reveal_strlit("工部");
                    reveal_strlit("刑部");
                    reveal_strlit("礼部");
                    assert("尚书令"@.len() == 3 && "吏部"@.len() == 2 && "兵部"@.len() == 2);
                    assert("工部"@.len() == 2 && "刑部"@.len() == 2 && "礼部"@.len() == 2);
                    assert(!executing_dept(arg_text(to)));
                }
                false
            },
        };
        if t {
            match subject {
                Some(s) => {
                    let v = chars_of(s);
                    if v.len() > 0 {
                        return DispatchStep::CheckRouteRefs(string_of(v.as_slice()));
                    }
                },
                None => {},
            }
        }
        return DispatchStep::Route;
    }
    if str_eq(name, "route") {
        return DispatchStep::Answer(
            ToolOutput::success_raw(
                "route",
                "Please use the route_to tool instead of outputting a raw route tag.",
            ),
        );
    }
    if runs_directly_exec(name) {
        return DispatchStep::Run;
    }
    DispatchStep::Answer(ToolOutput::error("unknown_tool", name, "unknown_tool", "Unknown tool"))
}

/// The names a route may target: each department's Chinese name, and the
/// English names that the route tool's refusal message lists.
pub open spec fn department_names() -> Seq<Seq<char>> {
    seq![
        "内阁"@, "中书令"@, "门下侍中"@, "尚书令"@, "吏部"@, "兵部"@, "工部"@, "刑部"@, "礼部"@,
        "cabinet"@, "architect"@, "personnel"@, "war"@, "works"@, "justice"@, "rites"@,
    ]
}

/// Whether `name` is one of the [`department_names`].
pub fn is_known_department(name: &str) -> (r: bool)
    ensures
        r == department_names().contains(name@),
{
    let names: Vec<&str> = vec![
        "内阁", "中书令", "门下侍中", "尚书令", "吏部", "兵部", "工部", "刑部", "礼部",
        "cabinet", "architect", "personnel", "war", "works", "justice", "rites",
    ];
    assert(names@.map_values(|s: &str| s@) =~= department_names());
    let mut i: usize = 0;
    while i < names.len()
        invariant
            i <= names@.len(),
            names@.map_values(|s: &str| s@) == department_names(),
            forall|j: int| 0 <= j < i ==> department_names()[j] != name@,
        decreases names@.len() - i,
    {
        assert(department_names()[i as int] == names@[i as int]@);
        if str_eq(names[i], name) {
            return true;
        }
        i = i + 1;
    }
    false
}

/// The route a legacy `route_to` call asks for, checked: a target and a
/// subject are needed, the route type (`task` when not given) is `task`,
/// `replace` or `interrupt`, and the target must name a department
/// (`target_known`).
pub fn handle_route_to(to: &str, subject: &str, route_type: Option<&str>, target_known: bool) -> (r:
    ToolOutput)
    ensures
        ({
            let t = match route_type {
                Some(t) => t@,
                None => "task"@,
            };
            if to@.len() == 0 {
                error_of(r, "route_to"@, ""@, "missing_target"@, "Missing target department (to parameter)"@)
            } else if subject@.len() == 0 {
                error_of(r, "route_to"@, ""@, "missing_subject"@, "Missing document ID (subject parameter)"@)
            } else if t != "task"@ && t != "replace"@ && t != "interrupt"@ {
                error_of(
                    r,
                    "route_to"@,
                    ""@,
                    "invalid_type"@,
                    "Invalid route type: "@ + t + ", must be task/replace/interrupt"@,
                )
            } else if !target_known {
                error_of(
                    r,
                    "route_to"@,
                    to@,
                    "unknown_target"@,
                    "无法识别目标部门 '"@ + to@
                        + "' 可用部门: 内阁、中书令、门下侍中、尚书令、吏部、兵部、工部、刑部、礼部。请使用中文全称或英文名称(cabinet/architect/personnel/war/works/justice/rites)。"@,
                )
            } else {
                success_of(r, "route_to"@, ""@, "Route to "@ + to@ + " ("@ + t + "): "@ + subject@)
            }
        }),
{
    proof {
        reveal_strlit("task");
    }
    let tv = chars_of(to);
    if tv.len() == 0 {
        return ToolOutput::error(
            "route_to",
            "",
            "missing_target",
            "Missing target department (to parameter)",
        );
    }
    let sv = chars_of(subject);
    if sv.len() == 0 {
        return ToolOutput::error(
            "route_to",
            "",
            "missing_subject",
            "Missing document ID (subject parameter)",
        );
    }
    let t = match route_type {
        Some(t) => t,
        None => "task",
    };
    if !(str_eq(t, "task") || str_eq(t, "replace") || str_eq(t, "interrupt")) {
        let mut m = chars_of("Invalid route type: ");
        push_str(&mut m, t);
        push_str(&mut m, ", must be task/replace/interrupt");
        let ms = string_of(m.as_slice());
        return ToolOutput::error("route_to", "", "invalid_type", ms.as_str());
    }
    if !target_known {
        let mut m = chars_of("无法识别目标部门 '");
        push_str(&mut m, to);
        push_str(
            &mut m,
            "' 可用部门: 内阁、中书令、门下侍中、尚书令、吏部、兵部、工部、刑部、礼部。请使用中文全称或英文名称(cabinet/architect/personnel/war/works/justice/rites)。",
        );
        let ms = string_of(m.as_slice());
        return ToolOutput::error("route_to", to, "unknown_target", ms.as_str());
    }
    let mut m = chars_of("Route to ");
    push_str(&mut m, to);
    push_str(&mut m, " (");
    push_str(&mut m, t);
    push_str(&mut m, "): ");
    push_str(&mut m, subject);
    let ms = string_of(m.as_slice());
    ToolOutput::success("route_to", "", ms.as_str())
}

// ───────────────────────── after the tool ran ─────────────────────────

/// Which cached reads a call of a tool makes stale.
#[derive(Debug, Clone, Copy, PartialEq, Eq, Structural)]
pub enum Invalidation {
    /// None.
    Nothing,
    /// The written path and its parent directory.
    PathAndParent,
    /// The document directory `.shuji`.
    DocumentDir,
}

/// Writes to files make the path and its directory stale; writes to
/// documents make the document directory stale.
pub open spec fn invalidation_of(name: Seq<char>) -> Invalidation {
    if name == "create_file"@ || name == "modify_file"@ || name == "append_file"@ || name
        == "delete_file"@ || name == "rename_file"@ || name == "apply_patch"@ || name
        == "edit_file"@ {
        Invalidation::PathAndParent
    } else if name == "create_document"@ || name == "modify_document"@ || name
        == "append_document"@ || name == "set_document_status"@ {
        Invalidation::DocumentDir
    } else {
        Invalidation::Nothing
    }
}

/// Which cached reads a call of tool `name` makes stale.
pub fn invalidation_after(name: &str) -> (r: Invalidation)
    ensures
        r == invalidation_of(name@),
{
    if str_eq(name, "create_file") || str_eq(name, "modify_file") || str_eq(name, "append_file")
        || str_eq(name, "delete_file") || str_eq(name, "rename_file") || str_eq(
        name,
        "apply_patch",
    ) || str_eq(name, "edit_file") {
        Invalidation::PathAndParent
    } else if str_eq(name, "create_document") || str_eq(name, "modify_document") || str_eq(
        name,
        "append_document",
    ) || str_eq(name, "set_document_status") {
        Invalidation::DocumentDir
    } else {
        Invalidation::Nothing
    }
}

/// A document write succeeded: its result holds `"ok":true` as written.
pub fn document_write_succeeded(raw_result: &str) -> (r: bool)
    ensures
        r == has_sub(raw_result@, "\"ok\":true"@),
{
    let v = chars_of(raw_result);
    contains_str(v.as_slice(), "\"ok\":true")
}

/// The document a successful write touched: the `id` argument (except for
/// a creation, whose id is not known beforehand), else the `path` member of
/// a result whose `ok` member is `true`.
pub open spec fn written_doc_id(name: Seq<char>, id: Option<Seq<char>>, raw: Seq<char>) -> Option<
    Seq<char>,
> {
    if name != "create_document"@ && (id matches Some(i) && i.len() > 0) {
        id
    } else if json_member(raw, "ok"@) == FieldView::Bool(true) && (json_member(raw, "path"@) matches FieldView::Text(
        p,
    ) && p.len() > 0) {
        match json_member(raw, "path"@) {
            FieldView::Text(p) => Some(p),
            _ => None,
        }
    } else {
        None
    }
}

/// The id of the document that a write touched (see [`written_doc_id`]).
pub fn doc_id_from_write_result(name: &str, id: Option<&str>, raw_result: &str) -> (r: Option<
    String,
>)
    ensures
        crate::tool::output::opt_view(r) == written_doc_id(
            name@,
            match id {
                Some(i) => Some(i@),
                None => None,
            },
            raw_result@,
        ),
{
    proof {
        reveal_strlit("create_document");
    }
    if !str_eq(name, "create_document") {
        match id {
            Some(i) => {
                let v = chars_of(i);
                if v.len() > 0 {
                    return Some(string_of(v.as_slice()));
                }
            },
            None => {},
        }
    }
    match json_field(raw_result, "ok") {
        JsonField::Bool(true) => match json_field(raw_result, "path") {
            JsonField::Text(p) => {
                let pv = chars_of(p.as_str());
                if pv.len() > 0 {
                    Some(p)
                } else {
                    None
                }
            },
            _ => None,
        },
        _ => None,
    }
}

} // verus!
