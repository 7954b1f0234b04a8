//! The checks and text work behind the document tools: valid document
//! types, the `refs` field, where a document lives, what a new document
//! holds, and how a body is modified or appended to.
use crate::text::{
    chars_of, contains_str, decimal, ends_with, ends_with_str, eq_str, floor_prefix,
    floor_prefix_chars, fmt_i64, fmt_u128, fmt_u64, has_sub, int_decimal, join,
    join_chars, lemma_chars_deep_view, lowercase, push_all, push_line, push_str,
    replace_first, replace_first_chars, contains, slice_chars, str_eq, string_of,
    strip_prefix_all, strip_prefix_all_chars, strip_suffix_all, strip_suffix_all_chars, strs, trim,
    trim_chars, utf8_len, utf8_len_of,
};
use crate::tool::command_ops::{
    all_digits, digits_value, is_digit, lemma_digits_prefix, split_at_any, split_pieces,
    unsigned_digits,
};
use crate::tool::documents::{
    author_of, build_doc, dept_to_author, dir_of_type, doc_text, extract_section, meta_view,
    rprt_rel_path, section_of, type_to_dir, DocMeta, MetaModel,
};
use crate::tool::output::{refuses, Refusal};
use vstd::prelude::*;

verus! {

// ───────────────────────── document types ─────────────────────────

/// The document types that can be created.
pub open spec fn valid_doc_types() -> Seq<Seq<char>> {
    seq![
        "dsgn"@,
        "plan"@,
        "pdsg"@,
        "ddtl"@,
        "task"@,
        "ctrt"@,
        "rprt"@,
        "revw"@,
        "precepts"@,
        "anls"@,
        "reqs"@,
    ]
}

fn valid_doc_types_table() -> (r: Vec<&'static str>)
    ensures
        r@.map_values(|s: &'static str| s@) == valid_doc_types(),
{
    let r = vec!["dsgn", "plan", "pdsg", "ddtl", "task", "ctrt", "rprt", "revw", "precepts", "anls", "reqs"];
    proof {
        assert(r@.map_values(|s: &'static str| s@) =~= valid_doc_types());
    }
    r
}

/// The check on the type of a document to create: given, and one of the
/// valid types.
pub fn check_doc_type(doc_type: &str) -> (r: Result<(), Refusal>)
    ensures
        doc_type@.len() == 0 ==> refuses(r, "empty_type"@, "Document type cannot be empty"@),
        doc_type@.len() > 0 && !valid_doc_types().contains(doc_type@) ==> refuses(
            r,
            "invalid_type"@,
            "Invalid document type: "@ + doc_type@ + ", supported types: "@ + join(
                valid_doc_types(),
                ", "@,
            ),
        ),
        doc_type@.len() > 0 && valid_doc_types().contains(doc_type@) ==> r is Ok,
{
    let tv = chars_of(doc_type);
    if tv.len() == 0 {
        return Err(Refusal::new("empty_type", "Document type cannot be empty"));
    }
    let table = valid_doc_types_table();
    let ghost vt = valid_doc_types();
    let mut i: usize = 0;
    while i < table.len()
        invariant
            i <= table@.len(),
            table@.map_values(|s: &'static str| s@) == vt,
            vt == valid_doc_types(),
            doc_type@.len() > 0,
            forall|k: int| 0 <= k < i ==> vt[k] != doc_type@,
        decreases table@.len() - i,
    {
        proof {
            assert(table@[i as int]@ == vt[i as int]);
        }
        if str_eq(doc_type, table[i]) {
            return Ok(());
        }
        i = i + 1;
    }
    let mut parts: Vec<Vec<char>> = Vec::new();
    let mut k: usize = 0;
    while k < table.len()
        invariant
            k <= table@.len(),
            table@.map_values(|s: &'static str| s@) == vt,
            parts.deep_view() == vt.take(k as int),
        decreases table@.len() - k,
    {
        let t = chars_of(table[k]);
        proof {
            assert(vt.take(k + 1) =~= vt.take(k as int).push(t@));
        }
        push_line(&mut parts, t);
        k = k + 1;
    }
    proof {
        assert(vt.take(k as int) =~= vt);
        assert(!vt.contains(doc_type@));
    }
    let sep = chars_of(", ");
    let list = join_chars(&parts, sep.as_slice());
    let mut m = chars_of("Invalid document type: ");
    push_str(&mut m, doc_type);
    push_str(&mut m, ", supported types: ");
    push_all(&mut m, list.as_slice());
    Err(Refusal::with_chars("invalid_type", m.as_slice()))
}

// ───────────────────────── refs ─────────────────────────

/// The integers among the given values, in order.
pub open spec fn given_ints(v: Seq<Option<i64>>) -> Seq<i64>
    decreases v.len(),
{
    if v.len() == 0 {
        Seq::empty()
    } else {
        let rest = given_ints(v.drop_last());
        match v.last() {
            Some(x) => rest.push(x),
            None => rest,
        }
    }
}

/// The `refs` field of a new document: `[a, b, ...]` from the integer
/// values given, or `[-1]` when none is.
pub open spec fn refs_text(values: Option<Seq<Option<i64>>>) -> Seq<char> {
    match values {
        None => "[-1]"@,
        Some(v) => {
            let n = given_ints(v);
            if n.len() == 0 {
                "[-1]"@
            } else {
                "["@ + join(n.map_values(|x: i64| int_decimal(x as int)), ", "@) + "]"@
            }
        },
    }
}

/// Renders the `refs` field from the values of the `refs` argument (each
/// `None` where the value is no integer; `values` is `None` where the
/// argument is no array).
pub fn render_refs(values: Option<Vec<Option<i64>>>) -> (r: String)
    ensures
        r@ == refs_text(match values {
            Some(v) => Some(v@),
            None => None,
        }),
{
    match values {
        None => {
            let v = chars_of("[-1]");
            string_of(v.as_slice())
        },
        Some(v) => {
            let mut parts: Vec<Vec<char>> = Vec::new();
            let mut i: usize = 0;
            while i < v.len()
                invariant
                    i <= v@.len(),
                    parts.deep_view() == given_ints(v@.take(i as int)).map_values(
                        |x: i64| int_decimal(x as int),
                    ),
                decreases v@.len() - i,
            {
                proof {
                    assert(v@.take(i + 1).drop_last() =~= v@.take(i as int));
                }
                match v[i] {
                    Some(x) => {
                        let d = fmt_i64(x);
                        let ghost before = parts.deep_view();
                        push_line(&mut parts, d);
                        proof {
                            assert(parts.deep_view() =~= given_ints(v@.take(i + 1)).map_values(
                                |x: i64| int_decimal(x as int),
                            ));
                        }
                    },
                    None => {},
                }
                i = i + 1;
            }
            proof {
                assert(v@.take(i as int) =~= v@);
            }
            if parts.len() == 0 {
                let e = chars_of("[-1]");
                return string_of(e.as_slice());
            }
            let sep = chars_of(", ");
            let body = join_chars(&parts, sep.as_slice());
            let mut out = chars_of("[");
            push_all(&mut out, body.as_slice());
            push_str(&mut out, "]");
            string_of(out.as_slice())
        },
    }
}

/// `str::parse::<u64>`: an optional `+`, then one or more decimal digits,
/// whose value fits in `u64`.
pub open spec fn parse_u64(s: Seq<char>) -> Option<nat> {
    let d = unsigned_digits(s);
    if d.len() > 0 && all_digits(d) && digits_value(d) <= u64::MAX {
        Some(digits_value(d))
    } else {
        None
    }
}

pub(crate) fn parse_u64_chars(s: &[char]) -> (r: Option<u64>)
    ensures
        match r {
            Some(v) => parse_u64(s@) == Some(v as nat),
            None => parse_u64(s@) is None,
        },
{
    let start: usize = if s.len() > 0 && s[0] == '+' {
        1
    } else {
        0
    };
    let ghost d = unsigned_digits(s@);
    proof {
        assert(d =~= s@.skip(start as int));
    }
    if start >= s.len() {
        return None;
    }
    let mut acc: u64 = 0;
    let mut i: usize = start;
    proof {
        assert(s@.subrange(start as int, start as int) =~= Seq::<char>::empty());
    }
    while i < s.len()
        invariant
            start <= i <= s@.len(),
            d == s@.skip(start as int),
            d == unsigned_digits(s@),
            forall|k: int| start <= k < i ==> is_digit(#[trigger] s@[k]),
            acc as nat == digits_value(s@.subrange(start as int, i as int)),
        decreases s@.len() - i,
    {
        let c = s[i];
        if !('0' <= c && c <= '9') {
            proof {
                assert(d[i - start] == c);
                assert(!all_digits(d));
            }
            return None;
        }
        let dv: u64 = (c as u32 - '0' as u32) as u64;
        proof {
            assert(s@.subrange(start as int, i + 1).drop_last() =~= s@.subrange(start as int, i as int));
            assert(s@.subrange(start as int, i + 1).last() == c);
            assert(digits_value(s@.subrange(start as int, i + 1)) == acc * 10 + dv);
        }
        let next = match acc.checked_mul(10) {
            Some(m) => m.checked_add(dv),
            None => None,
        };
        match next {
            Some(v) => {
                acc = v;
            },
            None => {
                proof {
                    if all_digits(d) {
                        lemma_digits_prefix(d, (i - start + 1) as int);
                        assert(d.take(i - start + 1) =~= s@.subrange(start as int, i + 1));
                    }
                }
                return None;
            },
        }
        i = i + 1;
    }
    proof {
        assert(s@.subrange(start as int, i as int) =~= d);
        assert forall|k: int| 0 <= k < d.len() implies is_digit(#[trigger] d[k]) by {
            assert(d[k] == s@[start + k]);
        }
    }
    Some(acc)
}

/// The values of the pieces that parse as `u64` once trimmed, in order.
pub open spec fn parsed_values(ps: Seq<Seq<char>>) -> Seq<nat>
    decreases ps.len(),
{
    if ps.len() == 0 {
        Seq::empty()
    } else {
        let rest = parsed_values(ps.drop_last());
        match parse_u64(trim(ps.last())) {
            Some(v) => rest.push(v),
            None => rest,
        }
    }
}

/// The text between the brackets of a `refs` field.
pub open spec fn refs_inner(refs: Seq<char>) -> Seq<char> {
    strip_suffix_all(strip_prefix_all(trim(refs), "["@), "]"@)
}

/// The document numbers a `refs` field names: none for `[]` or `[-1]`,
/// else each comma-separated entry that parses as a number.
pub open spec fn ref_numbers(refs: Seq<char>) -> Seq<nat> {
    let inner = refs_inner(refs);
    if inner.len() == 0 || inner == "-1"@ {
        Seq::empty()
    } else {
        parsed_values(split_pieces(inner, seq![',']))
    }
}

/// The document numbers a `refs` field such as `[3, 4]` or `[-1]` names.
pub fn parse_refs(refs: &str) -> (r: Vec<u64>)
    ensures
        r@.len() == ref_numbers(refs@).len(),
        forall|i: int| 0 <= i < r@.len() ==> r@[i] as nat == #[trigger] ref_numbers(refs@)[i],
{
    let rv = chars_of(refs);
    let t = trim_chars(rv.as_slice());
    let a = strip_prefix_all_chars(t.as_slice(), "[");
    let inner = strip_suffix_all_chars(a.as_slice(), "]");
    let mut out: Vec<u64> = Vec::new();
    if inner.len() == 0 || eq_str(inner.as_slice(), "-1") {
        return out;
    }
    let seps = vec![','];
    let pieces = split_at_any(inner.as_slice(), seps.as_slice());
    let ghost ps = pieces.deep_view();
    proof {
        assert(seps@ =~= seq![',']);
    }
    let mut i: usize = 0;
    while i < pieces.len()
        invariant
            i <= pieces@.len(),
            ps == pieces.deep_view(),
            ps == split_pieces(inner@, seq![',']),
            out@.len() == parsed_values(ps.take(i as int)).len(),
            forall|k: int| 0 <= k < out@.len() ==> out@[k] as nat == #[trigger] parsed_values(
                ps.take(i as int),
            )[k],
        decreases pieces@.len() - i,
    {
        proof {
            lemma_chars_deep_view(pieces@[i as int]);
            assert(ps[i as int] == pieces@[i as int]@);
            assert(ps.take(i + 1).drop_last() =~= ps.take(i as int));
        }
        let p = trim_chars(pieces[i].as_slice());
        match parse_u64_chars(p.as_slice()) {
            Some(v) => {
                out.push(v);
            },
            None => {},
        }
        i = i + 1;
    }
    proof {
        assert(ps.take(i as int) =~= ps);
    }
    out
}

// ───────────────────────── where a document lives ─────────────────────────

/// The type prefix of a document id: what comes before its first `_`.
pub open spec fn id_prefix(id: Seq<char>) -> Seq<char> {
    split_pieces(id, seq!['_'])[0]
}

/// Where a document is stored.
#[derive(Debug)]
pub enum DocPlace {
    /// A report, found by searching the report folders.
    Report,
    /// A path relative to the project.
    At(String),
}

/// The path of a non-report document `id` whose type keeps it in `dir`.
pub open spec fn doc_path(dir: Seq<char>, id: Seq<char>) -> Seq<char> {
    if dir.len() == 0 {
        ".shuji/"@ + id + ".md"@
    } else {
        ".shuji/"@ + dir + "/"@ + id + ".md"@
    }
}

fn doc_path_chars(dir: &str, id: &str) -> (r: Vec<char>)
    ensures
        r@ == doc_path(dir@, id@),
{
    let dv = chars_of(dir);
    let mut v = chars_of(".shuji/");
    if dv.len() > 0 {
        push_str(&mut v, dir);
        push_str(&mut v, "/");
    }
    push_str(&mut v, id);
    push_str(&mut v, ".md");
    v
}

/// Where the document `id` is stored: reports are searched for; other
/// documents sit in the folder of their type.
pub fn doc_place(id: &str) -> (r: DocPlace)
    ensures
        id_prefix(id@) == "rprt"@ ==> r is Report,
        id_prefix(id@) != "rprt"@ ==> (r matches DocPlace::At(p) && p@ == doc_path(
            dir_of_type(id_prefix(id@)),
            id@,
        )),
{
    let iv = chars_of(id);
    let seps = vec!['_'];
    let pieces = split_at_any(iv.as_slice(), seps.as_slice());
    proof {
        assert(seps@ =~= seq!['_']);
        crate::tool::command_ops::lemma_split_pieces_len(iv@, seq!['_']);
        lemma_chars_deep_view(pieces@[0]);
    }
    let prefix = string_of(pieces[0].as_slice());
    if str_eq(prefix.as_str(), "rprt") {
        return DocPlace::Report;
    }
    let dir = type_to_dir(prefix.as_str());
    let p = doc_path_chars(dir, id);
    DocPlace::At(string_of(p.as_slice()))
}

// ───────────────────────── creating ─────────────────────────

/// What a new document is made of: its frontmatter, where it goes, its
/// text, and the message that reports it.
#[derive(Debug)]
pub struct NewDocument {
    pub meta: DocMeta,
    pub rel_path: String,
    pub content: String,
    pub message: String,
}

/// The id of a new document of type `t` with number `n`.
pub open spec fn new_id(t: Seq<char>, n: nat) -> Seq<char> {
    t + "_"@ + decimal(n)
}

/// Documents of these types (plans and reviews) must be approved by the
/// emperor before work that builds on them goes on.
pub open spec fn must_approve_type(t: Seq<char>) -> bool {
    t == "plan"@ || t == "revw"@
}

/// Whether documents of type `t` must be approved (see [`must_approve_type`]).
pub fn is_must_approve_type(t: &str) -> (r: bool)
    ensures
        r == must_approve_type(t@),
{
    str_eq(t, "plan") || str_eq(t, "revw")
}

/// The status a new document starts in: plans and reviews wait for approval.
pub open spec fn new_status(t: Seq<char>) -> Seq<char> {
    if must_approve_type(t) {
        "in_review"@
    } else {
        ""@
    }
}

/// Where a new document goes: reports under the folder of the department
/// that writes them, others in the folder of their type.
pub open spec fn new_rel_path(t: Seq<char>, dept: Seq<char>, id: Seq<char>) -> Seq<char> {
    if t == "rprt"@ {
        ".shuji/reports/"@ + dept + "/"@ + id + ".md"@
    } else {
        doc_path(dir_of_type(t), id)
    }
}

/// A new, empty document of type `doc_type` numbered `id_num`, written by
/// `dept` at `timestamp`, naming the documents in `refs`.
pub fn plan_new_document(doc_type: &str, dept: &str, id_num: u64, timestamp: &str, refs: &str) -> (r:
    NewDocument)
    ensures
        meta_view(r.meta) == (
            new_id(doc_type@, id_num as nat),
            doc_type@,
            author_of(lowercase(dept@)),
            timestamp@,
            refs@,
            new_status(doc_type@),
            ""@,
            ""@,
        ),
        r.rel_path@ == new_rel_path(doc_type@, dept@, new_id(doc_type@, id_num as nat)),
        r.content@ == doc_text(meta_view(r.meta), ""@),
        r.message@ == "Document "@ + new_id(doc_type@, id_num as nat)
            + " created successfully\n【Important】Use this ID for subsequent operations (append/modify/set-status/route): "@
            + new_id(doc_type@, id_num as nat),
{
    let mut idv = chars_of(doc_type);
    push_str(&mut idv, "_");
    let d = fmt_u64(id_num);
    push_all(&mut idv, d.as_slice());
    let id = string_of(idv.as_slice());
    let rel_path = if str_eq(doc_type, "rprt") {
        rprt_rel_path(dept, id.as_str())
    } else {
        let dir = type_to_dir(doc_type);
        let p = doc_path_chars(dir, id.as_str());
        string_of(p.as_slice())
    };
    let author = dept_to_author(dept);
    let status = if is_must_approve_type(doc_type) {
        let v = chars_of("in_review");
        string_of(v.as_slice())
    } else {
        let v = chars_of("");
        string_of(v.as_slice())
    };
    let tv = chars_of(doc_type);
    let av = chars_of(author);
    let sv = chars_of(timestamp);
    let rv = chars_of(refs);
    let e1 = chars_of("");
    let e2 = chars_of("");
    let meta = DocMeta {
        id: string_of(idv.as_slice()),
        doc_type: string_of(tv.as_slice()),
        author: string_of(av.as_slice()),
        timestamp: string_of(sv.as_slice()),
        refs: string_of(rv.as_slice()),
        status,
        notes: string_of(e1.as_slice()),
        approved_hash: string_of(e2.as_slice()),
    };
    let content = build_doc(&meta, "");
    let mut m = chars_of("Document ");
    push_all(&mut m, idv.as_slice());
    push_str(
        &mut m,
        " created successfully\n【Important】Use this ID for subsequent operations (append/modify/set-status/route): ",
    );
    push_all(&mut m, idv.as_slice());
    NewDocument { meta, rel_path, content, message: string_of(m.as_slice()) }
}

// ───────────────────────── appending ─────────────────────────

/// A part that cannot be appended: empty, or over 6000 bytes.
pub open spec fn part_fault(p: Seq<char>) -> bool {
    p.len() == 0 || utf8_len(p) > 6000
}

/// Index of the first faulty part from `i` on.
pub open spec fn first_fault(ps: Seq<Seq<char>>, i: int) -> Option<int>
    decreases ps.len() - i,
{
    if i < 0 || i >= ps.len() {
        None
    } else if part_fault(ps[i]) {
        Some(i)
    } else {
        first_fault(ps, i + 1)
    }
}

/// The parts to append to document `id`, from a batch (`contents`) or a
/// single text (`content`, used when there is no batch), or the refusal as
/// (code, message).
pub open spec fn parts_outcome(
    id: Seq<char>,
    contents: Option<Seq<Seq<char>>>,
    content: Seq<char>,
) -> Result<Seq<Seq<char>>, (Seq<char>, Seq<char>)> {
    if id.len() == 0 {
        Err(("empty_id"@, "Document ID cannot be empty"@))
    } else {
        match contents {
            Some(v) => if v.len() == 0 {
                Err(("empty_contents"@, "contents array cannot be empty"@))
            } else if v.len() > 5 {
                Err(("too_many_contents"@, "contents max 5 items, call in batches"@))
            } else {
                match first_fault(v, 0) {
                    Some(i) => if v[i].len() == 0 {
                        Err(("empty_content_item"@, "contents["@ + decimal(i as nat) + "] cannot be empty"@))
                    } else {
                        Err(
                            (
                                "content_too_long"@,
                                "contents["@ + decimal(i as nat) + "] too long ("@ + decimal(
                                    utf8_len(v[i]),
                                ) + " chars), max 6000 chars."@,
                            ),
                        )
                    },
                    None => Ok(v),
                }
            },
            None => if content.len() == 0 {
                Err(
                    (
                        "empty_content"@,
                        "Please pass content (single) or contents (batch) parameter"@,
                    ),
                )
            } else if utf8_len(content) > 6000 {
                Err(
                    (
                        "content_too_long"@,
                        "Content too long ("@ + decimal(utf8_len(content))
                            + " chars), max 6000 chars. Append in batches or use contents array."@,
                    ),
                )
            } else {
                Ok(seq![content])
            },
        }
    }
}

/// A result of string lists or refusals, as values.
pub open spec fn parts_view(r: Result<Vec<String>, Refusal>) -> Result<Seq<Seq<char>>, (Seq<char>, Seq<char>)> {
    match r {
        Ok(v) => Ok(strs(v@)),
        Err(f) => Err((f.code@, f.message@)),
    }
}

fn copy_strings(v: &Vec<String>) -> (r: Vec<String>)
    ensures
        strs(r@) == strs(v@),
{
    let mut out: Vec<String> = Vec::new();
    let mut i: usize = 0;
    while i < v.len()
        invariant
            i <= v@.len(),
            out@.len() == i,
            forall|k: int| 0 <= k < i ==> (#[trigger] out@[k])@ == v@[k]@,
        decreases v@.len() - i,
    {
        let c = chars_of(v[i].as_str());
        out.push(string_of(c.as_slice()));
        i = i + 1;
    }
    proof {
        assert(strs(out@) =~= strs(v@));
    }
    out
}

/// The parts to append to a document (see [`parts_outcome`]); `contents` is
/// `None` when the request has no batch, and a batch item that is no string
/// is given as an empty string.
pub fn append_parts(id: &str, contents: Option<Vec<String>>, content: &str) -> (r: Result<
    Vec<String>,
    Refusal,
>)
    ensures
        parts_view(r) == parts_outcome(
            id@,
            match contents {
                Some(v) => Some(strs(v@)),
                None => None,
            },
            content@,
        ),
{
    let iv = chars_of(id);
    if iv.len() == 0 {
        return Err(Refusal::new("empty_id", "Document ID cannot be empty"));
    }
    match contents {
        Some(v) => {
            if v.len() == 0 {
                return Err(Refusal::new("empty_contents", "contents array cannot be empty"));
            }
            if v.len() > 5 {
                return Err(Refusal::new("too_many_contents", "contents max 5 items, call in batches"));
            }
            let ghost sv = strs(v@);
            let mut i: usize = 0;
            while i < v.len()
                invariant
                    i <= v@.len(),
                    1 <= v@.len() <= 5,
                    id@.len() > 0,
                    contents == Some(v),
                    sv == strs(v@),
                    first_fault(sv, 0) == first_fault(sv, i as int),
                decreases v@.len() - i,
            {
                let pv = chars_of(v[i].as_str());
                let n = utf8_len_of(pv.as_slice());
                if pv.len() == 0 {
                    let mut m = chars_of("contents[");
                    let d = fmt_u64(i as u64);
                    push_all(&mut m, d.as_slice());
                    push_str(&mut m, "] cannot be empty");
                    return Err(Refusal::with_chars("empty_content_item", m.as_slice()));
                }
                if n > 6000 {
                    let mut m = chars_of("contents[");
                    let d = fmt_u64(i as u64);
                    push_all(&mut m, d.as_slice());
                    push_str(&mut m, "] too long (");
                    let e = fmt_u128(n);
                    push_all(&mut m, e.as_slice());
                    push_str(&mut m, " chars), max 6000 chars.");
                    return Err(Refusal::with_chars("content_too_long", m.as_slice()));
                }
                i = i + 1;
            }
            Ok(copy_strings(&v))
        },
        None => {
            let cv = chars_of(content);
            if cv.len() == 0 {
                return Err(
                    Refusal::new(
                        "empty_content",
                        "Please pass content (single) or contents (batch) parameter",
                    ),
                );
            }
            let n = utf8_len_of(cv.as_slice());
            if n > 6000 {
                let mut m = chars_of("Content too long (");
                let e = fmt_u128(n);
                push_all(&mut m, e.as_slice());
                push_str(&mut m, " chars), max 6000 chars. Append in batches or use contents array.");
                return Err(Refusal::with_chars("content_too_long", m.as_slice()));
            }
            let mut out: Vec<String> = Vec::new();
            out.push(string_of(cv.as_slice()));
            proof {
                assert(strs(out@) =~= seq![content@]);
            }
            Ok(out)
        },
    }
}

/// `body` followed by each part on a line of its own.
pub open spec fn with_parts(body: Seq<char>, ps: Seq<Seq<char>>) -> Seq<char>
    decreases ps.len(),
{
    if ps.len() == 0 {
        body
    } else {
        with_parts(body, ps.drop_last()) + "\n"@ + ps.last()
    }
}

/// The body after appending: the parts joined by newlines for an empty
/// body, else each part on a new line after the body.
pub open spec fn appended_body_of(body: Seq<char>, ps: Seq<Seq<char>>) -> Seq<char> {
    if body.len() == 0 {
        join(ps, "\n"@)
    } else {
        with_parts(body, ps)
    }
}

/// Appends the parts to a document body.
pub fn appended_body(body: &str, parts: &Vec<String>) -> (r: String)
    ensures
        r@ == appended_body_of(body@, strs(parts@)),
{
    let bv = chars_of(body);
    let mut pv: Vec<Vec<char>> = Vec::new();
    let mut i: usize = 0;
    while i < parts.len()
        invariant
            i <= parts@.len(),
            pv.deep_view() == strs(parts@).take(i as int),
        decreases parts@.len() - i,
    {
        let c = chars_of(parts[i].as_str());
        push_line(&mut pv, c);
        i = i + 1;
        proof {
            assert(pv.deep_view() =~= strs(parts@).take(i as int));
        }
    }
    proof {
        assert(strs(parts@).take(i as int) =~= strs(parts@));
    }
    if bv.len() == 0 {
        let nl = chars_of("\n");
        let j = join_chars(&pv, nl.as_slice());
        return string_of(j.as_slice());
    }
    let mut out = bv;
    let mut k: usize = 0;
    while k < pv.len()
        invariant
            k <= pv@.len(),
            pv.deep_view() == strs(parts@),
            out@ == with_parts(body@, strs(parts@).take(k as int)),
        decreases pv@.len() - k,
    {
        proof {
            lemma_chars_deep_view(pv@[k as int]);
            assert(strs(parts@).take(k + 1).drop_last() =~= strs(parts@).take(k as int));
        }
        push_str(&mut out, "\n");
        push_all(&mut out, pv[k].as_slice());
        k = k + 1;
    }
    proof {
        assert(strs(parts@).take(k as int) =~= strs(parts@));
    }
    string_of(out.as_slice())
}

// ───────────────────────── modifying ─────────────────────────

/// The checks on a modify_document request made before the document is
/// read: an id, and neither text over 3000 bytes.
pub fn check_modify_doc_request(id: &str, old_text: Option<&str>, new_text: Option<&str>) -> (r:
    Result<(), Refusal>)
    ensures
        id@.len() == 0 ==> refuses(r, "empty_id"@, "Document ID cannot be empty"@),
        id@.len() > 0 && (old_text matches Some(o) && utf8_len(o@) > 3000) ==> refuses(
            r,
            "content_too_long"@,
            "old_text too long ("@ + decimal(utf8_len(old_text.unwrap()@))
                + " chars), max 3000. Narrow your match range."@,
        ),
        id@.len() > 0 && !(old_text matches Some(o) && utf8_len(o@) > 3000) && (new_text matches Some(
            n,
        ) && utf8_len(n@) > 3000) ==> refuses(
            r,
            "content_too_long"@,
            "new_text too long ("@ + decimal(utf8_len(new_text.unwrap()@))
                + " chars), max 3000. Modify in batches or use append_document."@,
        ),
        id@.len() > 0 && !(old_text matches Some(o) && utf8_len(o@) > 3000) && !(new_text matches Some(
            n,
        ) && utf8_len(n@) > 3000) ==> r is Ok,
{
    let iv = chars_of(id);
    if iv.len() == 0 {
        return Err(Refusal::new("empty_id", "Document ID cannot be empty"));
    }
    if let Some(o) = old_text {
        let ov = chars_of(o);
        let n = utf8_len_of(ov.as_slice());
        if n > 3000 {
            let mut m = chars_of("old_text too long (");
            let d = fmt_u128(n);
            push_all(&mut m, d.as_slice());
            push_str(&mut m, " chars), max 3000. Narrow your match range.");
            return Err(Refusal::with_chars("content_too_long", m.as_slice()));
        }
    }
    if let Some(t) = new_text {
        let tv = chars_of(t);
        let n = utf8_len_of(tv.as_slice());
        if n > 3000 {
            let mut m = chars_of("new_text too long (");
            let d = fmt_u128(n);
            push_all(&mut m, d.as_slice());
            push_str(&mut m, " chars), max 3000. Modify in batches or use append_document.");
            return Err(Refusal::with_chars("content_too_long", m.as_slice()));
        }
    }
    Ok(())
}

/// The body after a modification: unchanged without `old_text`; else the
/// first occurrence of `old_text` replaced by `new_text`, refused when
/// `old_text` is empty or does not occur.
pub fn modified_body(body: &str, old_text: Option<&str>, new_text: &str) -> (r: Result<
    String,
    Refusal,
>)
    ensures
        old_text is None ==> (r matches Ok(s) && s@ == body@),
        (old_text matches Some(o) && o@.len() == 0) ==> refuses(
            r,
            "empty_old_text"@,
            "old_text cannot be empty"@,
        ),
        (old_text matches Some(o) && o@.len() > 0 && !has_sub(body@, o@)) ==> refuses(
            r,
            "not_found"@,
            "Could not find matching text in the document body. Use read_document to confirm the content."@,
        ),
        (old_text matches Some(o) && o@.len() > 0 && has_sub(body@, o@)) ==> (r matches Ok(s)
            && s@ == replace_first(body@, old_text.unwrap()@, new_text@)),
{
    let bv = chars_of(body);
    match old_text {
        None => Ok(string_of(bv.as_slice())),
        Some(o) => {
            let ov = chars_of(o);
            if ov.len() == 0 {
                return Err(Refusal::new("empty_old_text", "old_text cannot be empty"));
            }
            if !contains(bv.as_slice(), ov.as_slice()) {
                return Err(
                    Refusal::new(
                        "not_found",
                        "Could not find matching text in the document body. Use read_document to confirm the content.",
                    ),
                );
            }
            let nv = chars_of(new_text);
            let out = replace_first_chars(bv.as_slice(), ov.as_slice(), nv.as_slice());
            Ok(string_of(out.as_slice()))
        },
    }
}

/// An approved plan or review that is changed goes back to review: its status
/// becomes `in_review` and its approval hash is cleared. Says whether it did.
pub fn revert_if_approved(meta: &mut DocMeta) -> (reverted: bool)
    ensures
        reverted == (must_approve_type(old(meta).doc_type@) && old(meta).status@ == "approved"@),
        reverted ==> meta_view(*final(meta)) == (
            old(meta).id@,
            old(meta).doc_type@,
            old(meta).author@,
            old(meta).timestamp@,
            old(meta).refs@,
            "in_review"@,
            old(meta).notes@,
            ""@,
        ),
        !reverted ==> meta_view(*final(meta)) == meta_view(*old(meta)),
{
    if is_must_approve_type(meta.doc_type.as_str()) && str_eq(meta.status.as_str(), "approved") {
        let s = chars_of("in_review");
        meta.status = string_of(s.as_slice());
        let h = chars_of("");
        meta.approved_hash = string_of(h.as_slice());
        true
    } else {
        false
    }
}

/// The message after a modification (or, with `appended`, an append); a
/// review sent back for approval says so.
pub fn update_message(appended: bool, reverted: bool) -> (r: String)
    ensures
        r@ == (if appended {
            "Appended successfully"@
        } else {
            "Modified successfully"@
        }) + (if reverted {
            ". 已批准文档内容变更，已自动转入重审"@
        } else {
            ""@
        }),
{
    let mut m = if appended {
        chars_of("Appended successfully")
    } else {
        chars_of("Modified successfully")
    };
    if reverted {
        push_str(&mut m, ". 已批准文档内容变更，已自动转入重审");
    } else {
        proof {
            reveal_strlit("");
            assert(m@ =~= m@ + ""@);
        }
    }
    string_of(m.as_slice())
}

// ───────────────────────── reading ─────────────────────────

/// The requested section: none when absent or empty.
pub open spec fn active_section(s: Option<Seq<char>>) -> Option<Seq<char>> {
    match s {
        Some(x) => if x.len() > 0 {
            Some(x)
        } else {
            None
        },
        None => None,
    }
}

/// The text as shown: cut to `max` bytes at a character boundary with a
/// note, when `max` is set and the text is longer.
pub open spec fn shown_text(t: Seq<char>, max: nat) -> Seq<char> {
    if max > 0 && utf8_len(t) > max {
        floor_prefix(t, max) + "...\n\n[Truncated: showing first "@ + decimal(utf8_len(floor_prefix(t, max)))
            + " of "@ + decimal(utf8_len(t)) + " chars]"@
    } else {
        t
    }
}

/// The line that sums up a document's frontmatter.
pub open spec fn meta_line(m: MetaModel) -> Seq<char> {
    m.0 + " | type: "@ + m.1 + " | author: "@ + m.2 + " | time: "@ + m.3 + " | status: "@ + (if m.5.len()
        == 0 {
        "-"@
    } else {
        m.5
    }) + " | refs: "@ + m.4
}

fn shown_chars(t: &[char], max: usize) -> (r: Vec<char>)
    ensures
        r@ == shown_text(t@, max as nat),
{
    let n = utf8_len_of(t);
    if max > 0 && n > max as u128 {
        let mut v = floor_prefix_chars(t, max as u128);
        let shown = utf8_len_of(v.as_slice());
        push_str(&mut v, "...\n\n[Truncated: showing first ");
        let a = fmt_u128(shown);
        push_all(&mut v, a.as_slice());
        push_str(&mut v, " of ");
        let b = fmt_u128(n);
        push_all(&mut v, b.as_slice());
        push_str(&mut v, " chars]");
        v
    } else {
        slice_chars(t, 0, t.len())
    }
}

fn meta_line_chars(m: &DocMeta) -> (r: Vec<char>)
    ensures
        r@ == meta_line(meta_view(*m)),
{
    let mut v = chars_of(m.id.as_str());
    push_str(&mut v, " | type: ");
    push_str(&mut v, m.doc_type.as_str());
    push_str(&mut v, " | author: ");
    push_str(&mut v, m.author.as_str());
    push_str(&mut v, " | time: ");
    push_str(&mut v, m.timestamp.as_str());
    push_str(&mut v, " | status: ");
    let sv = chars_of(m.status.as_str());
    if sv.len() == 0 {
        push_str(&mut v, "-");
    } else {
        push_all(&mut v, sv.as_slice());
    }
    push_str(&mut v, " | refs: ");
    push_str(&mut v, m.refs.as_str());
    v
}

/// What read_document shows of a parsed document: the frontmatter line,
/// then the requested section (or the whole body), cut to `max_chars`
/// bytes when that is set. A section that is not there is refused.
pub fn document_view(meta: &DocMeta, body: &str, section: Option<&str>, max_chars: usize) -> (r:
    Result<String, Refusal>)
    ensures
        match active_section(
            match section {
                Some(s) => Some(s@),
                None => None,
            },
        ) {
            Some(s) => match section_of(body@, s) {
                Ok(t) => r matches Ok(v) && v@ == meta_line(meta_view(*meta)) + "\n--- Section ["@ + s
                    + "] ---\n"@ + shown_text(t, max_chars as nat),
                Err(e) => refuses(r, "section_not_found"@, e),
            },
            None => r matches Ok(v) && v@ == meta_line(meta_view(*meta)) + "\n--- Body ---\n"@
                + shown_text(body@, max_chars as nat),
        },
{
    let line = meta_line_chars(meta);
    let target = match section {
        Some(s) => {
            let sv = chars_of(s);
            if sv.len() > 0 {
                Some(s)
            } else {
                None
            }
        },
        None => None,
    };
    match target {
        Some(s) => match extract_section(body, s) {
            Ok(t) => {
                let tv = chars_of(t.as_str());
                let shown = shown_chars(tv.as_slice(), max_chars);
                let mut v = line;
                push_str(&mut v, "\n--- Section [");
                push_str(&mut v, s);
                push_str(&mut v, "] ---\n");
                push_all(&mut v, shown.as_slice());
                Ok(string_of(v.as_slice()))
            },
            Err(e) => {
                let ev = chars_of(e.as_str());
                Err(Refusal::with_chars("section_not_found", ev.as_slice()))
            },
        },
        None => {
            let bv = chars_of(body);
            let shown = shown_chars(bv.as_slice(), max_chars);
            let mut v = line;
            push_str(&mut v, "\n--- Body ---\n");
            push_all(&mut v, shown.as_slice());
            Ok(string_of(v.as_slice()))
        },
    }
}

/// The parts of the hint given when a document id cannot be read.
pub open spec fn hint_parts(raw: Seq<char>, normalized: Seq<char>, samples: Seq<Seq<char>>) -> Seq<Seq<char>> {
    let p0 = seq![
        "read_document expects a document ID like dsgn_3 or plan_1 — not a filename path or context JSON."@,
    ];
    let p1 = if raw != normalized {
        p0.push("Normalized \""@ + raw + "\" → \""@ + normalized + "\" but still not found."@)
    } else {
        p0
    };
    let p2 = if ends_with(raw, ".md"@) || has_sub(raw, "/"@) || has_sub(raw, "\\"@) {
        p1.push("Do not pass file paths or .md extensions; use the ID only."@)
    } else {
        p1
    };
    if samples.len() > 0 {
        p2.push("Available IDs in .shuji/designs: "@ + join(samples, ", "@))
    } else {
        p2.push("No documents in .shuji/designs yet — list_dir .shuji/designs first."@)
    }
}

/// The hint given when the document `raw_id` (read as `normalized_id`)
/// cannot be read, naming some ids that exist (`samples`).
pub fn not_found_hint(raw_id: &str, normalized_id: &str, samples: &Vec<String>) -> (r: String)
    ensures
        r@ == join(hint_parts(raw_id@, normalized_id@, strs(samples@)), " "@),
{
    let mut parts: Vec<Vec<char>> = Vec::new();
    push_line(
        &mut parts,
        chars_of(
            "read_document expects a document ID like dsgn_3 or plan_1 — not a filename path or context JSON.",
        ),
    );
    let rv = chars_of(raw_id);
    if !str_eq(raw_id, normalized_id) {
        let mut m = chars_of("Normalized \"");
        push_str(&mut m, raw_id);
        push_str(&mut m, "\" → \"");
        push_str(&mut m, normalized_id);
        push_str(&mut m, "\" but still not found.");
        push_line(&mut parts, m);
    }
    if ends_with_str(rv.as_slice(), ".md") || contains_str(rv.as_slice(), "/") || contains_str(
        rv.as_slice(),
        "\\",
    ) {
        push_line(&mut parts, chars_of("Do not pass file paths or .md extensions; use the ID only."));
    }
    if samples.len() > 0 {
        let mut sv: Vec<Vec<char>> = Vec::new();
        let mut i: usize = 0;
        while i < samples.len()
            invariant
                i <= samples@.len(),
                sv.deep_view() == strs(samples@).take(i as int),
            decreases samples@.len() - i,
        {
            push_line(&mut sv, chars_of(samples[i].as_str()));
            i = i + 1;
            proof {
                assert(sv.deep_view() =~= strs(samples@).take(i as int));
            }
        }
        proof {
            assert(strs(samples@).take(i as int) =~= strs(samples@));
        }
        let sep = chars_of(", ");
        let list = join_chars(&sv, sep.as_slice());
        let mut m = chars_of("Available IDs in .shuji/designs: ");
        push_all(&mut m, list.as_slice());
        push_line(&mut parts, m);
    } else {
        push_line(&mut parts, chars_of("No documents in .shuji/designs yet — list_dir .shuji/designs first."));
    }
    proof {
        assert(parts.deep_view() =~= hint_parts(raw_id@, normalized_id@, strs(samples@)));
    }
    let sp = chars_of(" ");
    let out = join_chars(&parts, sp.as_slice());
    string_of(out.as_slice())
}

} // verus!
