//! Checks that a design document carries a well-formed output block
//! (`## 输出块`) with its conclusions, pending issues and references.
use crate::text::{chars_of, contains_str, find, first_occ_from, has_sub, slice_chars, strs};
use vstd::prelude::*;

verus! {

/// The heading of the output block.
pub open spec fn block_heading() -> Seq<char> {
    "## 输出块"@
}

/// The text of the output block: after its heading, up to the next
/// second-level heading (or the end).
pub open spec fn output_block(body: Seq<char>) -> Option<Seq<char>> {
    match first_occ_from(body, block_heading(), 0) {
        None => None,
        Some(k) => {
            let after = body.skip(k + block_heading().len());
            match first_occ_from(after, "\n## "@, 0) {
                Some(j) => Some(after.take(j)),
                None => Some(after),
            }
        },
    }
}

/// The problems found in the output block of `body`, in order.
pub open spec fn design_block_errors(body: Seq<char>) -> Seq<Seq<char>> {
    match output_block(body) {
        None => seq!["缺少 ## 输出块 章节"@],
        Some(b) => (if !has_sub(b, "conclusions"@) && !has_sub(b, "结论"@) {
            seq!["输出块缺少 conclusions/结论 字段"@]
        } else {
            Seq::empty()
        }) + (if !has_sub(b, "pending_issues"@) && !has_sub(b, "待处理"@) {
            seq!["输出块缺少 pending_issues/待处理 字段"@]
        } else {
            Seq::empty()
        }) + (if !has_sub(b, "refs"@) && !has_sub(b, "引用"@) {
            seq!["输出块缺少 refs/引用 字段"@]
        } else {
            Seq::empty()
        }),
    }
}

/// The output block of the document, if it has one.
fn output_block_of(bv: &[char]) -> (r: Option<Vec<char>>)
    ensures
        (match r {
            Some(b) => Some(b@),
            None => None,
        }) == output_block(bv@),
{
    let heading = chars_of("## 输出块");
    let pos = match find(bv, heading.as_slice()) {
        Some(p) => p,
        None => {
            return None;
        },
    };
    let n = bv.len();
    let hl = heading.len();
    proof {
        assert(crate::text::occurs_at(bv@, heading@, pos as int));
        assert(pos + hl <= n);
    }
    let after = slice_chars(bv, pos + hl, n);
    proof {
        assert(after@ =~= bv@.skip(pos + block_heading().len()));
    }
    let sep = chars_of("\n## ");
    match find(after.as_slice(), sep.as_slice()) {
        Some(j) => Some(slice_chars(after.as_slice(), 0, j)),
        None => Some(after),
    }
}

/// Validates the output block of a design document: `Ok` when it exists
/// and names conclusions, pending issues and references (in English or
/// Chinese), else the list of problems.
pub fn validate_design_output_block(body: &str) -> (r: Result<(), Vec<String>>)
    ensures
        r is Ok <==> design_block_errors(body@).len() == 0,
        r matches Err(es) ==> strs(es@) == design_block_errors(body@),
{
    let bv = chars_of(body);
    let mut errors: Vec<String> = Vec::new();
    let block = match output_block_of(bv.as_slice()) {
        Some(b) => b,
        None => {
            errors.push("缺少 ## 输出块 章节".to_owned());
            proof {
                assert(strs(errors@) =~= design_block_errors(body@));
            }
            return Err(errors);
        },
    };
    let b = block.as_slice();
    let c1 = contains_str(b, "conclusions") || contains_str(b, "结论");
    let c2 = contains_str(b, "pending_issues") || contains_str(b, "待处理");
    let c3 = contains_str(b, "refs") || contains_str(b, "引用");
    if !c1 {
        errors.push("输出块缺少 conclusions/结论 字段".to_owned());
    }
    if !c2 {
        errors.push("输出块缺少 pending_issues/待处理 字段".to_owned());
    }
    if !c3 {
        errors.push("输出块缺少 refs/引用 字段".to_owned());
    }
    proof {
        assert(strs(errors@) =~= design_block_errors(body@));
    }
    if errors.len() == 0 {
        Ok(())
    } else {
        Err(errors)
    }
}

} // verus!
