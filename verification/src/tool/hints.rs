//! Correction hints attached to failed tool results, so that the model
//! knows what to do differently on its next call.
use crate::text::{chars_of, contains_str, has_sub, str_eq, string_of, to_lowercase, lowercase};
use crate::tool::output::{opt_view, reported_code, reported_message, reports_error, ToolOutput};
use serde_json::Value;
use vstd::prelude::*;

verus! {

/// The hint texts, by number.
pub open spec fn hint_text(k: int) -> Seq<char> {
    if k == 0 {
        "HINT: 文件不存在。请先使用 list_dir 确认文件路径，或检查路径拼写。如果文件可能在其他位置，使用 search_text 搜索。"@
    } else if k == 1 {
        "HINT: 文件已存在。请使用 edit_file（单处修改）或 apply_patch（多处修改）来更新现有文件，不要重复创建。"@
    } else if k == 2 {
        "HINT: SEARCH 块匹配失败。请先 read_file 获取文件当前内容，确保 SEARCH 块与文件中完全一致的代码段匹配（包括缩进和空格）。"@
    } else if k == 3 {
        "HINT: 要修改的文件不存在。请先使用 read_file 确认文件路径和当前内容，再进行修改。"@
    } else if k == 4 {
        "HINT: 该文档类型不属于本部门职责。内阁出流程请用 submit_pipeline_plan，不要 create_document(type=\"plan\")；plan/dsgn 由中书令创建，revw 由门下侍中创建。"@
    } else if k == 5 {
        "HINT: 文档类型不合法。请使用以下之一：dsgn（设计文档）、plan（计划）、pdsg（阶段设计）、revw（审核报告）、anls（分析文档）、rprt（工作报告）。"@
    } else if k == 6 {
        "HINT: 文档 ID 不存在或格式错误。先用 list_dir 浏览 .shuji/designs，从文件名得到 ID（如 dsgn_3.md → id=\"dsgn_3\"，不要带 .md）。不要用 context/pipeline 下的 JSON 文件名。"@
    } else if k == 7 {
        "HINT: 文档 ID 不存在。先用 list_dir 浏览 .shuji/designs，使用返回行中的 id=\"...\" 参数调用 read_document。"@
    } else if k == 8 {
        "HINT: 该文档引用的审批文档尚未通过审批。这是系统门禁异常——如果目标是 revw 文档，请勿创建新的 revw 重试。如果是非 revw 文档引用了未审批的 revw，请等待审批完成后再操作。"@
    } else if k == 9 {
        "HINT: 要追加的文档 ID 不存在。请先使用 create_document 创建文档，然后再追加内容。"@
    } else if k == 10 {
        "HINT: 目标部门名称无法识别。请使用中文全称：内阁、中书令、门下侍中、尚书令、吏部、兵部、工部、刑部、礼部。"@
    } else if k == 11 {
        "HINT: 路由被拒绝，因为目标文档涉及的内容尚未通过审批。请先完成审批流程。"@
    } else if k == 12 {
        "HINT: 该工具不在本部门职责范围内。请改用文档工具产出交付物，或通过尚书令/内阁调度下游部门。"@
    } else if k == 13 {
        "HINT: 命令不存在或找不到可执行文件。请检查命令名称和路径是否正确。"@
    } else if k == 14 {
        "HINT: 调用了不存在的工具。请检查工具名称拼写。可用工具列表在 system prompt 中有定义。"@
    } else if k == 15 {
        "HINT: 请确认参数正确，或检查目标文件/文档是否存在。"@
    } else if k == 16 {
        "HINT: 请检查参数是否完整（路径、内容等），或确认目标路径不重复。"@
    } else if k == 17 {
        "HINT: 请先 read_file 获取文件最新内容，确保修改基准确确。"@
    } else {
        "HINT: 请检查工具参数后重试。如果持续失败，考虑换一种实现方式。"@
    }
}

/// The error code is `c`.
pub open spec fn code_is(code: Option<Seq<char>>, c: Seq<char>) -> bool {
    code == Some(c)
}

/// Which hint a failed call of tool `name` gets, from its error code and
/// the lowercase form of its message; the first rule that applies wins.
pub open spec fn hint_number(name: Seq<char>, code: Option<Seq<char>>, lower: Seq<char>) -> int {
    let not_found = has_sub(lower, "not found"@);
    let no_such = has_sub(lower, "no such"@);
    let patching = name == "edit_file"@ || name == "apply_patch"@;
    if name == "read_file"@ && (not_found || has_sub(lower, "no such file"@)) {
        0
    } else if name == "create_file"@ && has_sub(lower, "already exists"@) {
        1
    } else if patching && (has_sub(lower, "search"@) || not_found) {
        2
    } else if patching && (no_such || not_found) {
        3
    } else if name == "create_document"@ && code_is(code, "forbidden_type"@) {
        4
    } else if name == "create_document"@ && has_sub(lower, "type"@) && (has_sub(lower, "invalid"@)
        || has_sub(lower, "illegal"@)) {
        5
    } else if name == "read_document"@ && (code_is(code, "not_found"@) || code_is(code, "empty_id"@)) {
        6
    } else if name == "read_document"@ && (not_found || has_sub(lower, "does not exist"@)) {
        7
    } else if name == "append_document"@ && code_is(code, "doc_not_approved"@) {
        8
    } else if name == "append_document"@ && not_found {
        9
    } else if name == "route_to"@ && code_is(code, "unknown_target"@) {
        10
    } else if name == "route_to"@ && code_is(code, "doc_not_approved"@) {
        11
    } else if code_is(code, "ROLE_GATE"@) || code_is(code, "CONTRACT_TOOL"@) {
        12
    } else if name == "execute_command"@ && (not_found || no_such) {
        13
    } else if name == "unknown_tool"@ {
        14
    } else if name == "read_file"@ || name == "read_document"@ || name == "list_dir"@ || name
        == "search_text"@ {
        15
    } else if name == "create_file"@ || name == "create_document"@ {
        16
    } else if name == "edit_file"@ || name == "apply_patch"@ || name == "modify_file"@ {
        17
    } else {
        18
    }
}

/// The hint for a failed call of tool `name`.
pub open spec fn hint_for(name: Seq<char>, code: Option<Seq<char>>, message: Seq<char>) -> Seq<char> {
    hint_text(hint_number(name, code, lowercase(message)))
}

fn hint_text_of(k: u8) -> (r: &'static str)
    requires
        k <= 18,
    ensures
        r@ == hint_text(k as int),
{
    if k == 0 {
        "HINT: 文件不存在。请先使用 list_dir 确认文件路径，或检查路径拼写。如果文件可能在其他位置，使用 search_text 搜索。"
    } else if k == 1 {
        "HINT: 文件已存在。请使用 edit_file（单处修改）或 apply_patch（多处修改）来更新现有文件，不要重复创建。"
    } else if k == 2 {
        "HINT: SEARCH 块匹配失败。请先 read_file 获取文件当前内容，确保 SEARCH 块与文件中完全一致的代码段匹配（包括缩进和空格）。"
    } else if k == 3 {
        "HINT: 要修改的文件不存在。请先使用 read_file 确认文件路径和当前内容，再进行修改。"
    } else if k == 4 {
        "HINT: 该文档类型不属于本部门职责。内阁出流程请用 submit_pipeline_plan，不要 create_document(type=\"plan\")；plan/dsgn 由中书令创建，revw 由门下侍中创建。"
    } else if k == 5 {
        "HINT: 文档类型不合法。请使用以下之一：dsgn（设计文档）、plan（计划）、pdsg（阶段设计）、revw（审核报告）、anls（分析文档）、rprt（工作报告）。"
    } else if k == 6 {
        "HINT: 文档 ID 不存在或格式错误。先用 list_dir 浏览 .shuji/designs，从文件名得到 ID（如 dsgn_3.md → id=\"dsgn_3\"，不要带 .md）。不要用 context/pipeline 下的 JSON 文件名。"
    } else if k == 7 {
        "HINT: 文档 ID 不存在。先用 list_dir 浏览 .shuji/designs，使用返回行中的 id=\"...\" 参数调用 read_document。"
    } else if k == 8 {
        "HINT: 该文档引用的审批文档尚未通过审批。这是系统门禁异常——如果目标是 revw 文档，请勿创建新的 revw 重试。如果是非 revw 文档引用了未审批的 revw，请等待审批完成后再操作。"
    } else if k == 9 {
        "HINT: 要追加的文档 ID 不存在。请先使用 create_document 创建文档，然后再追加内容。"
    } else if k == 10 {
        "HINT: 目标部门名称无法识别。请使用中文全称：内阁、中书令、门下侍中、尚书令、吏部、兵部、工部、刑部、礼部。"
    } else if k == 11 {
        "HINT: 路由被拒绝，因为目标文档涉及的内容尚未通过审批。请先完成审批流程。"
    } else if k == 12 {
        "HINT: 该工具不在本部门职责范围内。请改用文档工具产出交付物，或通过尚书令/内阁调度下游部门。"
    } else if k == 13 {
        "HINT: 命令不存在或找不到可执行文件。请检查命令名称和路径是否正确。"
    } else if k == 14 {
        "HINT: 调用了不存在的工具。请检查工具名称拼写。可用工具列表在 system prompt 中有定义。"
    } else if k == 15 {
        "HINT: 请确认参数正确，或检查目标文件/文档是否存在。"
    } else if k == 16 {
        "HINT: 请检查参数是否完整（路径、内容等），或确认目标路径不重复。"
    } else if k == 17 {
        "HINT: 请先 read_file 获取文件最新内容，确保修改基准确确。"
    } else {
        "HINT: 请检查工具参数后重试。如果持续失败，考虑换一种实现方式。"
    }
}

fn code_matches(code: &Option<String>, c: &str) -> (r: bool)
    ensures
        r == code_is(opt_view(*code), c@),
{
    match code {
        Some(s) => str_eq(s.as_str(), c),
        None => false,
    }
}

/// The number of the hint (see [`hint_number`]) for a failed call.
pub fn hint_number_of(name: &str, code: &Option<String>, lower: &[char]) -> (r: u8)
    ensures
        r as int == hint_number(name@, opt_view(*code), lower@),
        r <= 18,
{
    let not_found = contains_str(lower, "not found");
    let no_such = contains_str(lower, "no such");
    let patching = str_eq(name, "edit_file") || str_eq(name, "apply_patch");
    if str_eq(name, "read_file") && (not_found || contains_str(lower, "no such file")) {
        0
    } else if str_eq(name, "create_file") && contains_str(lower, "already exists") {
        1
    } else if patching && (contains_str(lower, "search") || not_found) {
        2
    } else if patching && (no_such || not_found) {
        3
    } else if str_eq(name, "create_document") && code_matches(code, "forbidden_type") {
        4
    } else if str_eq(name, "create_document") && contains_str(lower, "type") && (contains_str(
        lower,
        "invalid",
    ) || contains_str(lower, "illegal")) {
        5
    } else if str_eq(name, "read_document") && (code_matches(code, "not_found") || code_matches(
        code,
        "empty_id",
    )) {
        6
    } else if str_eq(name, "read_document") && (not_found || contains_str(lower, "does not exist")) {
        7
    } else if str_eq(name, "append_document") && code_matches(code, "doc_not_approved") {
        8
    } else if str_eq(name, "append_document") && not_found {
        9
    } else if str_eq(name, "route_to") && code_matches(code, "unknown_target") {
        10
    } else if str_eq(name, "route_to") && code_matches(code, "doc_not_approved") {
        11
    } else if code_matches(code, "ROLE_GATE") || code_matches(code, "CONTRACT_TOOL") {
        12
    } else if str_eq(name, "execute_command") && (not_found || no_such) {
        13
    } else if str_eq(name, "unknown_tool") {
        14
    } else if str_eq(name, "read_file") || str_eq(name, "read_document") || str_eq(name, "list_dir")
        || str_eq(name, "search_text") {
        15
    } else if str_eq(name, "create_file") || str_eq(name, "create_document") {
        16
    } else if str_eq(name, "edit_file") || str_eq(name, "apply_patch") || str_eq(name, "modify_file") {
        17
    } else {
        18
    }
}

/// The hint for a failed call of tool `name` with this error code and message.
pub fn error_hint(name: &str, code: &Option<String>, message: &str) -> (r: &'static str)
    ensures
        r@ == hint_for(name@, opt_view(*code), message@),
{
    let mv = chars_of(message);
    let lower = to_lowercase(mv.as_slice());
    let k = hint_number_of(name, code, lower.as_slice());
    hint_text_of(k)
}

/// The JSON object `raw` with its member `key` set to the string `value`,
/// as `serde_json` writes it; none when `raw` is no JSON object.
pub uninterp spec fn json_with_member(raw: Seq<char>, key: Seq<char>, value: Seq<char>) -> Option<
    Seq<char>,
>;

/// Parses `raw` with `serde_json::from_str`, and when it is an object,
/// inserts `key` with the string `value` (`Map::insert`) and writes it back
/// with `serde_json::to_string`. The contract names the result; JSON
/// grammar and printing are not restated.
#[verifier::external_body]
fn insert_json_member(raw: &str, key: &str, value: &str) -> (r: Option<String>)
    ensures
        opt_view(r) == json_with_member(raw@, key@, value@),
{
    match serde_json::from_str::<Value>(raw) {
        Ok(mut v) => match v.as_object_mut() {
            Some(obj) => {
                obj.insert(key.to_string(), Value::String(value.to_string()));
                serde_json::to_string(obj).ok()
            },
            None => None,
        },
        Err(_) => None,
    }
}

/// A tool result with the hint for its failure added, as the model sees it:
/// a result that reports no error is handed back as it is; so is one that
/// is no JSON object.
pub open spec fn with_hint(name: Seq<char>, raw: Seq<char>) -> Seq<char> {
    if !reports_error(raw) {
        raw
    } else {
        let message = match reported_message(raw) {
            Some(m) => m,
            None => Seq::empty(),
        };
        match json_with_member(raw, "hint"@, hint_for(name, reported_code(raw), message)) {
            Some(s) => s,
            None => raw,
        }
    }
}

/// Adds to a failed tool result a `hint` member that tells the model what
/// to do differently. The department takes no part in the choice.
pub fn augment_error_with_hint(name: &str, raw_result: &str, dept: &str) -> (r: String)
    ensures
        r@ == with_hint(name@, raw_result@),
{
    let rv = chars_of(raw_result);
    if !ToolOutput::is_error(raw_result) {
        return string_of(rv.as_slice());
    }
    let code = ToolOutput::error_code(raw_result);
    let message = match ToolOutput::extract_message(raw_result) {
        Some(m) => m,
        None => {
            let e: Vec<char> = Vec::new();
            string_of(e.as_slice())
        },
    };
    let hint = error_hint(name, &code, message.as_str());
    match insert_json_member(raw_result, "hint", hint) {
        Some(s) => s,
        None => string_of(rv.as_slice()),
    }
}

} // verus!
