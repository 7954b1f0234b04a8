//! The text work behind the file tools: the checks on their requests, a
//! single SEARCH/REPLACE edit, a find-and-replace, and the numbered excerpt
//! a read returns.
use crate::text::{
    chars_of, contains, count_from, count_matches, decimal, floor_prefix, floor_prefix_chars,
    fmt_u128, fmt_u64, has_sub, join, join_chars, lines, push_all, push_line, push_str,
    replace_first, replace_first_chars, slice_chars, split_lines, string_of, utf8_len,
    utf8_len_of,
};
use crate::tool::output::{refuses, Refusal};
use crate::tool::patch::{preview_chars, search_preview};
use vstd::prelude::*;

verus! {

// ───────────────────────── create_file ─────────────────────────

/// The checks on a create_file request: a path, and at most 8000 bytes of
/// content.
pub fn check_create_request(path: &str, content: &str) -> (r: Result<(), Refusal>)
    ensures
        path@.len() == 0 ==> refuses(r, "empty_path"@, "File path is empty"@),
        path@.len() > 0 && utf8_len(content@) > 8000 ==> refuses(
            r,
            "content_too_long"@,
            "content length "@ + decimal(utf8_len(content@))
                + " exceeds max 8000 chars. Use create_file + append_file to write in chunks."@,
        ),
        path@.len() > 0 && utf8_len(content@) <= 8000 ==> r is Ok,
{
    let pv = chars_of(path);
    if pv.len() == 0 {
        return Err(Refusal::new("empty_path", "File path is empty"));
    }
    let cv = chars_of(content);
    let n = utf8_len_of(cv.as_slice());
    if n > 8000 {
        let mut m = chars_of("content length ");
        let d = fmt_u128(n);
        push_all(&mut m, d.as_slice());
        push_str(&mut m, " exceeds max 8000 chars. Use create_file + append_file to write in chunks.");
        return Err(Refusal::with_chars("content_too_long", m.as_slice()));
    }
    Ok(())
}

// ───────────────────────── append_file ─────────────────────────

/// The checks on an append_file request: a path, some content, and at most
/// 2000 bytes of it.
pub fn check_append_request(path: &str, content: &str) -> (r: Result<(), Refusal>)
    ensures
        path@.len() == 0 ==> refuses(r, "empty_path"@, "文件路径为空"@),
        path@.len() > 0 && content@.len() == 0 ==> refuses(r, "empty_content"@, "追加内容为空"@),
        path@.len() > 0 && content@.len() > 0 && utf8_len(content@) > 2000 ==> refuses(
            r,
            "content_too_long"@,
            "content 长度 "@ + decimal(utf8_len(content@))
                + " 超过上限 2000 字符。请拆分成多次 append_file 调用，每次 ≤2000 字符。"@,
        ),
        path@.len() > 0 && content@.len() > 0 && utf8_len(content@) <= 2000 ==> r is Ok,
{
    let pv = chars_of(path);
    if pv.len() == 0 {
        return Err(Refusal::new("empty_path", "文件路径为空"));
    }
    let cv = chars_of(content);
    if cv.len() == 0 {
        return Err(Refusal::new("empty_content", "追加内容为空"));
    }
    let n = utf8_len_of(cv.as_slice());
    if n > 2000 {
        let mut m = chars_of("content 长度 ");
        let d = fmt_u128(n);
        push_all(&mut m, d.as_slice());
        push_str(&mut m, " 超过上限 2000 字符。请拆分成多次 append_file 调用，每次 ≤2000 字符。");
        return Err(Refusal::with_chars("content_too_long", m.as_slice()));
    }
    Ok(())
}

// ───────────────────────── edit_file ─────────────────────────

/// The checks on an edit_file request made before the file is read.
pub fn check_edit_request(path: &str, search: &str) -> (r: Result<(), Refusal>)
    ensures
        path@.len() == 0 ==> refuses(r, "empty_path"@, "文件路径为空"@),
        path@.len() > 0 && search@.len() == 0 ==> refuses(
            r,
            "empty_search"@,
            "search 内容为空"@,
        ),
        path@.len() > 0 && search@.len() > 0 ==> r is Ok,
{
    let pv = chars_of(path);
    if pv.len() == 0 {
        return Err(Refusal::new("empty_path", "文件路径为空"));
    }
    let sv = chars_of(search);
    if sv.len() == 0 {
        return Err(Refusal::new("empty_search", "search 内容为空"));
    }
    Ok(())
}

/// The message of a successful edit.
pub open spec fn edit_summary(before: nat, after: nat) -> Seq<char> {
    "成功替换 1 处文本（"@ + decimal(before) + " 字节 → "@ + decimal(after) + " 字节）"@
}

/// Replaces the one occurrence of `search` in the file's content by
/// `replace`: refused when `search` does not occur, or occurs more than
/// once (occurrences counted without overlap). Gives the new content and
/// the success message.
pub fn edit_content(content: &str, search: &str, replace: &str) -> (r: Result<
    (String, String),
    Refusal,
>)
    requires
        search@.len() > 0,
    ensures
        count_from(content@, search@, 0) == 0 ==> refuses(
            r,
            "search_not_found"@,
            "SEARCH 文本未在文件中找到。\n查找的文本：\n```\n"@ + search_preview(search@)
                + "\n```\n请用 read_file 确认文件最新内容后再试。"@,
        ),
        count_from(content@, search@, 0) > 1 ==> refuses(
            r,
            "search_ambiguous"@,
            "SEARCH 文本在文件中出现 "@ + decimal(count_from(content@, search@, 0))
                + " 次，不唯一。请在 search 中包含更多上下文行。"@,
        ),
        count_from(content@, search@, 0) == 1 ==> (r matches Ok(p) && p.0@ == replace_first(
            content@,
            search@,
            replace@,
        ) && p.1@ == edit_summary(
            utf8_len(content@),
            utf8_len(replace_first(content@, search@, replace@)),
        )),
{
    let cv = chars_of(content);
    let sv = chars_of(search);
    let n = count_matches(cv.as_slice(), sv.as_slice());
    if n == 0 {
        let mut m = chars_of("SEARCH 文本未在文件中找到。\n查找的文本：\n```\n");
        let p = preview_chars(sv.as_slice());
        push_all(&mut m, p.as_slice());
        push_str(&mut m, "\n```\n请用 read_file 确认文件最新内容后再试。");
        return Err(Refusal::with_chars("search_not_found", m.as_slice()));
    }
    if n > 1 {
        let mut m = chars_of("SEARCH 文本在文件中出现 ");
        let d = fmt_u64(n as u64);
        push_all(&mut m, d.as_slice());
        push_str(&mut m, " 次，不唯一。请在 search 中包含更多上下文行。");
        return Err(Refusal::with_chars("search_ambiguous", m.as_slice()));
    }
    let rv = chars_of(replace);
    let out = replace_first_chars(cv.as_slice(), sv.as_slice(), rv.as_slice());
    let mut m = chars_of("成功替换 1 处文本（");
    let a = fmt_u128(utf8_len_of(cv.as_slice()));
    push_all(&mut m, a.as_slice());
    push_str(&mut m, " 字节 → ");
    let b = fmt_u128(utf8_len_of(out.as_slice()));
    push_all(&mut m, b.as_slice());
    push_str(&mut m, " 字节）");
    Ok((string_of(out.as_slice()), string_of(m.as_slice())))
}

// ───────────────────────── modify_file ─────────────────────────

/// Replaces the first occurrence of `old_text` in the file's content by
/// `new_text`: refused when `old_text` is empty, when either text is over
/// 800 bytes, or when `old_text` does not occur. Gives the new content and
/// the success message.
pub fn modify_content(content: &str, old_text: &str, new_text: &str) -> (r: Result<
    (String, String),
    Refusal,
>)
    ensures
        old_text@.len() == 0 ==> refuses(r, "empty_old_text"@, "old_text 不能为空"@),
        old_text@.len() > 0 && (utf8_len(old_text@) > 800 || utf8_len(new_text@) > 800)
            ==> refuses(
            r,
            "text_too_long"@,
            "文本超过 800 字符上限。大块修改请用 apply_patch（支持 50000 字符）。"@,
        ),
        old_text@.len() > 0 && utf8_len(old_text@) <= 800 && utf8_len(new_text@) <= 800
            && !has_sub(content@, old_text@) ==> refuses(
            r,
            "not_found"@,
            "未在文件中找到匹配的文本。请先用 read_file 确认文件内容，并确保 old_text 与原文件完全一致（包括空格和缩进）。"@,
        ),
        old_text@.len() > 0 && utf8_len(old_text@) <= 800 && utf8_len(new_text@) <= 800
            && has_sub(content@, old_text@) ==> (r matches Ok(p) && p.0@ == replace_first(
            content@,
            old_text@,
            new_text@,
        ) && p.1@ == "替换成功（替换 "@ + decimal(utf8_len(old_text@)) + " 字节）"@),
{
    let ov = chars_of(old_text);
    if ov.len() == 0 {
        return Err(Refusal::new("empty_old_text", "old_text 不能为空"));
    }
    let nv = chars_of(new_text);
    let olen = utf8_len_of(ov.as_slice());
    if olen > 800 || utf8_len_of(nv.as_slice()) > 800 {
        return Err(
            Refusal::new(
                "text_too_long",
                "文本超过 800 字符上限。大块修改请用 apply_patch（支持 50000 字符）。",
            ),
        );
    }
    let cv = chars_of(content);
    if !contains(cv.as_slice(), ov.as_slice()) {
        return Err(
            Refusal::new(
                "not_found",
                "未在文件中找到匹配的文本。请先用 read_file 确认文件内容，并确保 old_text 与原文件完全一致（包括空格和缩进）。",
            ),
        );
    }
    let out = replace_first_chars(cv.as_slice(), ov.as_slice(), nv.as_slice());
    let mut m = chars_of("替换成功（替换 ");
    let d = fmt_u128(olen);
    push_all(&mut m, d.as_slice());
    push_str(&mut m, " 字节）");
    Ok((string_of(out.as_slice()), string_of(m.as_slice())))
}

// ───────────────────────── read_file ─────────────────────────

/// A line number right-aligned in four columns (`{:>4}`).
pub open spec fn pad4(d: Seq<char>) -> Seq<char> {
    if d.len() < 4 {
        Seq::new((4 - d.len()) as nat, |i: int| ' ') + d
    } else {
        d
    }
}

/// Lines `start..end` of `ls`, each led by its number (from 1) and `| `.
pub open spec fn numbered(ls: Seq<Seq<char>>, start: nat, end: nat) -> Seq<Seq<char>> {
    Seq::new(
        (end - start) as nat,
        |k: int| pad4(decimal((start + k + 1) as nat)) + "| "@ + ls[start + k],
    )
}

/// The first line shown (counted from 0): the offset, at most the line count.
pub open spec fn excerpt_start(total: nat, offset: u64) -> nat {
    if offset < total {
        offset as nat
    } else {
        total
    }
}

/// One past the last line shown.
pub open spec fn excerpt_end(total: nat, offset: u64, limit: u64) -> nat {
    let start = excerpt_start(total, offset);
    if limit < total - start {
        (start + limit) as nat
    } else {
        total
    }
}

/// The text a read returns: a header line with the path, the line count and
/// the range shown, then the numbered lines.
pub open spec fn excerpt_text(path: Seq<char>, content: Seq<char>, offset: u64, limit: u64) -> Seq<
    char,
> {
    let ls = lines(content);
    let start = excerpt_start(ls.len(), offset);
    let end = excerpt_end(ls.len(), offset, limit);
    path + "（共 "@ + decimal(ls.len()) + " 行，显示 "@ + decimal(start + 1) + "-"@ + decimal(end)
        + "）"@ + "\n"@ + join(numbered(ls, start, end), "\n"@)
}

fn pad4_chars(n: u64) -> (r: Vec<char>)
    ensures
        r@ == pad4(decimal(n as nat)),
{
    let d = fmt_u64(n);
    if d.len() < 4 {
        let mut v: Vec<char> = Vec::new();
        let k = 4 - d.len();
        let mut i: usize = 0;
        while i < k
            invariant
                i <= k,
                v@ == Seq::new(i as nat, |j: int| ' '),
            decreases k - i,
        {
            v.push(' ');
            i = i + 1;
            proof {
                assert(v@ =~= Seq::new(i as nat, |j: int| ' '));
            }
        }
        push_all(&mut v, d.as_slice());
        v
    } else {
        d
    }
}

/// The numbered excerpt of a file for read_file: `offset` lines skipped,
/// at most `limit` shown. A read that asks for the whole file (no offset,
/// no limit) of a file over 200 lines is refused.
pub fn read_excerpt(path: &str, content: &str, offset: u64, limit: u64) -> (r: Result<
    String,
    Refusal,
>)
    ensures
        offset == 0 && limit == u64::MAX && lines(content@).len() > 200 ==> refuses(
            r,
            "too_large"@,
            "文件过大（共 "@ + decimal(lines(content@).len()) + " 行）。请用 offset 和 limit 参数分段读取。"@,
        ),
        !(offset == 0 && limit == u64::MAX && lines(content@).len() > 200) ==> (r matches Ok(s)
            && s@ == excerpt_text(path@, content@, offset, limit)),
{
    let cv = chars_of(content);
    let ls = split_lines(cv.as_slice());
    let total = ls.len();
    if offset == 0 && limit == u64::MAX && total > 200 {
        let mut m = chars_of("文件过大（共 ");
        let d = fmt_u64(total as u64);
        push_all(&mut m, d.as_slice());
        push_str(&mut m, " 行）。请用 offset 和 limit 参数分段读取。");
        return Err(Refusal::with_chars("too_large", m.as_slice()));
    }
    let ghost lv = ls.deep_view();
    let start: usize = if offset < total as u64 {
        offset as usize
    } else {
        total
    };
    let end: usize = if limit < (total - start) as u64 {
        start + limit as usize
    } else {
        total
    };
    let mut rows: Vec<Vec<char>> = Vec::new();
    let mut i: usize = start;
    while i < end
        invariant
            start <= i <= end <= total,
            total == ls@.len(),
            lv == ls.deep_view(),
            lv == lines(content@),
            rows.deep_view() == numbered(lv, start as nat, end as nat).take(i - start),
        decreases end - i,
    {
        let mut row = pad4_chars((i + 1) as u64);
        push_str(&mut row, "| ");
        push_all(&mut row, ls[i].as_slice());
        proof {
            crate::text::lemma_chars_deep_view(ls@[i as int]);
            assert(row@ == numbered(lv, start as nat, end as nat)[i - start]);
            assert(numbered(lv, start as nat, end as nat).take(i - start + 1) =~= numbered(
                lv,
                start as nat,
                end as nat,
            ).take(i - start).push(row@));
        }
        push_line(&mut rows, row);
        i = i + 1;
    }
    proof {
        assert(numbered(lv, start as nat, end as nat).take(i - start) =~= numbered(
            lv,
            start as nat,
            end as nat,
        ));
    }
    let nl = chars_of("\n");
    let body = join_chars(&rows, nl.as_slice());
    let mut m = chars_of(path);
    push_str(&mut m, "（共 ");
    let a = fmt_u64(total as u64);
    push_all(&mut m, a.as_slice());
    push_str(&mut m, " 行，显示 ");
    let b = fmt_u128(start as u128 + 1);
    push_all(&mut m, b.as_slice());
    push_str(&mut m, "-");
    let c = fmt_u64(end as u64);
    push_all(&mut m, c.as_slice());
    push_str(&mut m, "）");
    push_str(&mut m, "\n");
    push_all(&mut m, body.as_slice());
    proof {
        assert(lv.len() == total);
        assert(excerpt_start(lv.len(), offset) == start);
        assert(excerpt_end(lv.len(), offset, limit) == end);
        assert(body@ == join(numbered(lv, start as nat, end as nat), "\n"@));
        assert(m@ =~= excerpt_text(path@, content@, offset, limit));
    }
    Ok(string_of(m.as_slice()))
}

} // verus!
