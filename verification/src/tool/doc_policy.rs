//! Which document types each department may create.
use crate::text::{chars_of, lowercase, push_str, str_eq, string_of, strs};
use crate::tool::documents::{author_of, dept_to_author};
use crate::tool::output::{refuses, Refusal};
use crate::tool::registry::names_of;
use vstd::prelude::*;

verus! {

/// The document types a department (by its lower-cased name, in pinyin or
/// Chinese) may create; `None` for a department the rules do not know,
/// which is not restricted.
pub open spec fn allowed_types_of(lower: Seq<char>) -> Option<Seq<Seq<char>>> {
    if lower == "requirements_agent"@ {
        Some(seq!["reqs"@, "task"@])
    } else if lower == "survey_agent"@ {
        Some(seq!["anls"@])
    } else if lower == "neige"@ || lower == "内阁"@ {
        Some(seq!["task"@])
    } else if lower == "zhongshuling"@ || lower == "中书令"@ {
        Some(seq!["dsgn"@, "plan"@, "pdsg"@, "anls"@, "precepts"@])
    } else if lower == "menxiashizhong"@ || lower == "门下侍中"@ {
        Some(seq!["revw"@])
    } else if lower == "shangshuling"@ || lower == "尚书令"@ {
        Some(seq!["task"@, "rprt"@])
    } else if lower == "libushangshu"@ || lower == "吏部"@ {
        Some(seq!["ddtl"@, "pdsg"@])
    } else if lower == "bingbushangshu"@ || lower == "兵部"@ {
        Some(seq!["ctrt"@, "rprt"@])
    } else if lower == "gongbushangshu"@ || lower == "工部"@ || lower == "xingbushangshu"@ || lower
        == "刑部"@ || lower == "liburshangshu"@ || lower == "礼部"@ {
        Some(seq!["rprt"@])
    } else {
        None
    }
}

/// The department is the cabinet (内阁).
pub open spec fn is_cabinet(lower: Seq<char>) -> bool {
    lower == "neige"@ || lower == "内阁"@
}

/// The refusal for a department creating a type it may not create, if so.
pub open spec fn type_refusal(dept: Seq<char>, doc_type: Seq<char>) -> Option<Seq<char>> {
    let lower = lowercase(dept);
    match allowed_types_of(lower) {
        Some(types) => if types.contains(doc_type) {
            None
        } else {
            Some(
                "部门「"@ + author_of(lower) + "」无权创建 "@ + doc_type + " 类型文档。"@ + if is_cabinet(lower)
                    && doc_type == "plan"@ {
                    "内阁应通过 submit_pipeline_plan 提交可执行流程，而非创建 plan 文档；plan 由中书令创建。"@
                } else {
                    "该文档类型不属于本部门职责，请改由对应部门创建，或选择正确的类型。"@
                },
            )
        },
        None => None,
    }
}

/// The document types `dept` may create (see [`allowed_types_of`]).
pub fn allowed_doc_types(dept: &str) -> (r: Option<Vec<String>>)
    ensures
        match allowed_types_of(lowercase(dept@)) {
            Some(t) => r matches Some(v) && strs(v@) == t,
            None => r is None,
        },
{
    let dv = chars_of(dept);
    let lv = crate::text::to_lowercase(dv.as_slice());
    let l = string_of(lv.as_slice());
    let s = l.as_str();
    let names: Option<&[&str]> = if str_eq(s, "requirements_agent") {
        Some(&["reqs", "task"])
    } else if str_eq(s, "survey_agent") {
        Some(&["anls"])
    } else if str_eq(s, "neige") || str_eq(s, "内阁") {
        Some(&["task"])
    } else if str_eq(s, "zhongshuling") || str_eq(s, "中书令") {
        Some(&["dsgn", "plan", "pdsg", "anls", "precepts"])
    } else if str_eq(s, "menxiashizhong") || str_eq(s, "门下侍中") {
        Some(&["revw"])
    } else if str_eq(s, "shangshuling") || str_eq(s, "尚书令") {
        Some(&["task", "rprt"])
    } else if str_eq(s, "libushangshu") || str_eq(s, "吏部") {
        Some(&["ddtl", "pdsg"])
    } else if str_eq(s, "bingbushangshu") || str_eq(s, "兵部") {
        Some(&["ctrt", "rprt"])
    } else if str_eq(s, "gongbushangshu") || str_eq(s, "工部") || str_eq(s, "xingbushangshu") || str_eq(
        s,
        "刑部",
    ) || str_eq(s, "liburshangshu") || str_eq(s, "礼部") {
        Some(&["rprt"])
    } else {
        None
    };
    match names {
        Some(v) => {
            let r = names_of(v);
            assert(v@.map_values(|s: &str| s@) =~= allowed_types_of(lowercase(dept@))->0);
            Some(r)
        },
        None => None,
    }
}

/// Whether department `dept` may create a document of type `doc_type`:
/// refused with `forbidden_type` when the department's list of types does
/// not hold it; a department the rules do not know is not restricted.
pub fn dept_doc_type_allowed(dept: &str, doc_type: &str) -> (r: Result<(), Refusal>)
    ensures
        match type_refusal(dept@, doc_type@) {
            Some(m) => refuses(r, "forbidden_type"@, m),
            None => r is Ok,
        },
{
    let types = match allowed_doc_types(dept) {
        Some(t) => t,
        None => {
            return Ok(());
        },
    };
    let mut i: usize = 0;
    while i < types.len()
        invariant
            i <= types@.len(),
            allowed_types_of(lowercase(dept@)) == Some(strs(types@)),
            forall|j: int| 0 <= j < i ==> strs(types@)[j] != doc_type@,
        decreases types@.len() - i,
    {
        if str_eq(types[i].as_str(), doc_type) {
            assert(strs(types@)[i as int] == doc_type@);
            return Ok(());
        }
        i = i + 1;
    }
    assert(!strs(types@).contains(doc_type@));
    let dv = chars_of(dept);
    let lv = crate::text::to_lowercase(dv.as_slice());
    let l = string_of(lv.as_slice());
    let s = l.as_str();
    let mut m = chars_of("部门「");
    push_str(&mut m, dept_to_author(dept));
    push_str(&mut m, "」无权创建 ");
    push_str(&mut m, doc_type);
    push_str(&mut m, " 类型文档。");
    if (str_eq(s, "neige") || str_eq(s, "内阁")) && str_eq(doc_type, "plan") {
        push_str(&mut m, "内阁应通过 submit_pipeline_plan 提交可执行流程，而非创建 plan 文档；plan 由中书令创建。");
    } else {
        push_str(&mut m, "该文档类型不属于本部门职责，请改由对应部门创建，或选择正确的类型。");
    }
    let msg = string_of(m.as_slice());
    Err(Refusal::new("forbidden_type", msg.as_str()))
}

} // verus!
