//! Workflow documents: the frontmatter that heads each document, where
//! documents are stored, and the pieces read out of their bodies.
use crate::text::{
    chars_of, decimal, fmt_u64, first_occ_from, join, join_chars, lemma_chars_deep_view, lines, lowercase, push_all,
    push_line, push_str, slice_chars, split_lines, starts_with, starts_with_str, str_eq, string_of, trim, trim_chars,
    trim_start, trim_start_chars,
};
use vstd::prelude::*;

verus! {

/// The frontmatter fields of a document.
#[derive(Debug, Clone)]
pub struct DocMeta {
    pub id: String,
    pub doc_type: String,
    pub author: String,
    pub timestamp: String,
    pub refs: String,
    pub status: String,
    pub notes: String,
    pub approved_hash: String,
}

/// Frontmatter fields as values: id, type, author, timestamp, refs, status, notes, approved hash.
pub type MetaModel = (Seq<char>, Seq<char>, Seq<char>, Seq<char>, Seq<char>, Seq<char>, Seq<char>, Seq<char>);

/// The values of a document's frontmatter.
pub open spec fn meta_view(m: DocMeta) -> MetaModel {
    (m.id@, m.doc_type@, m.author@, m.timestamp@, m.refs@, m.status@, m.notes@, m.approved_hash@)
}

/// The separator between note entries (notes stay on one line).
pub open spec fn notes_sep() -> Seq<char> {
    " | "@
}

/// `s` with every line break replaced by the notes separator.
pub open spec fn replace_nl(s: Seq<char>) -> Seq<char>
    decreases s.len(),
{
    if s.len() == 0 {
        s
    } else if s.last() == '\n' {
        replace_nl(s.drop_last()) + notes_sep()
    } else {
        replace_nl(s.drop_last()).push(s.last())
    }
}

fn replace_nl_chars(s: &[char]) -> (r: Vec<char>)
    ensures
        r@ == replace_nl(s@),
{
    let mut out: Vec<char> = Vec::new();
    let mut i: usize = 0;
    proof {
        assert(s@.take(0) =~= Seq::<char>::empty());
    }
    while i < s.len()
        invariant
            i <= s@.len(),
            out@ == replace_nl(s@.take(i as int)),
        decreases s@.len() - i,
    {
        proof {
            assert(s@.take(i + 1).drop_last() =~= s@.take(i as int));
        }
        if s[i] == '\n' {
            push_str(&mut out, " | ");
        } else {
            out.push(s[i]);
        }
        i = i + 1;
    }
    proof {
        assert(s@.take(i as int) =~= s@);
    }
    out
}

/// The notes with a new entry appended.
pub open spec fn appended_notes(existing: Seq<char>, entry: Seq<char>) -> Seq<char> {
    let e = replace_nl(existing);
    if e.len() == 0 {
        entry
    } else {
        e + notes_sep() + entry
    }
}

/// Appends a note entry, keeping all notes on one line.
pub fn append_note_entry(existing: &str, entry: &str) -> (r: String)
    ensures
        r@ == appended_notes(existing@, entry@),
{
    let ev = chars_of(existing);
    let e = replace_nl_chars(ev.as_slice());
    if e.len() == 0 {
        entry.to_owned()
    } else {
        let mut v = e;
        push_str(&mut v, " | ");
        push_str(&mut v, entry);
        string_of(v.as_slice())
    }
}

// ───────────────────────── frontmatter ─────────────────────────

/// A `key: value` line split at the first `": "`, the value trimmed.
pub open spec fn line_kv(line: Seq<char>) -> Option<(Seq<char>, Seq<char>)> {
    match first_occ_from(line, ": "@, 0) {
        Some(k) => Some((line.take(k), trim(line.skip(k + 2)))),
        None => None,
    }
}

/// The fields after reading one header line.
#[verifier::opaque]
pub open spec fn apply_line(st: MetaModel, line: Seq<char>) -> MetaModel {
    match line_kv(line) {
        None => st,
        Some(kv) => {
            let (k, v) = kv;
            if k == "id"@ {
                (v, st.1, st.2, st.3, st.4, st.5, st.6, st.7)
            } else if k == "type"@ {
                (st.0, v, st.2, st.3, st.4, st.5, st.6, st.7)
            } else if k == "author"@ {
                (st.0, st.1, v, st.3, st.4, st.5, st.6, st.7)
            } else if k == "timestamp"@ {
                (st.0, st.1, st.2, v, st.4, st.5, st.6, st.7)
            } else if k == "refs"@ {
                (st.0, st.1, st.2, st.3, v, st.5, st.6, st.7)
            } else if k == "status"@ {
                (st.0, st.1, st.2, st.3, st.4, v, st.6, st.7)
            } else if k == "notes"@ {
                (st.0, st.1, st.2, st.3, st.4, st.5, replace_nl(v), st.7)
            } else if k == "approved_hash"@ {
                (st.0, st.1, st.2, st.3, st.4, st.5, st.6, v)
            } else {
                st
            }
        },
    }
}

/// The fields before any header line: refs defaults to `[-1]`, the rest empty.
pub open spec fn default_fields() -> MetaModel {
    (Seq::empty(), Seq::empty(), Seq::empty(), Seq::empty(), "[-1]"@, Seq::empty(), Seq::empty(), Seq::empty())
}

/// The fields after reading the header lines in order.
pub open spec fn header_fields(ls: Seq<Seq<char>>) -> MetaModel
    decreases ls.len(),
{
    if ls.len() == 0 {
        default_fields()
    } else {
        apply_line(header_fields(ls.drop_last()), ls.last())
    }
}

/// The frontmatter and body of a document, or why it cannot be read.
pub open spec fn parsed_doc(content: Seq<char>) -> Result<(MetaModel, Seq<char>), Seq<char>> {
    if !starts_with(content, "---\n"@) {
        Err("Missing YAML frontmatter start marker"@)
    } else {
        let body = content.skip(4);
        match first_occ_from(body, "\n---"@, 0) {
            None => Err("Missing YAML frontmatter end marker"@),
            Some(end) => {
                let fields = header_fields(lines(body.take(end)));
                if fields.0.len() == 0 {
                    Err("Document missing id field"@)
                } else {
                    Ok((fields, trim_start(body.skip(end + 4))))
                }
            },
        }
    }
}

/// The text of a document with the given frontmatter and body; empty
/// status, notes and approval hash are left out.
pub open spec fn doc_text(m: MetaModel, body: Seq<char>) -> Seq<char> {
    "---\nid: "@ + m.0 + "\ntype: "@ + m.1 + "\nauthor: "@ + m.2 + "\ntimestamp: "@ + m.3 + "\nrefs: "@ + m.4 + (if m.5.len() > 0 {
        "\nstatus: "@ + m.5
    } else {
        Seq::empty()
    }) + (if m.6.len() > 0 {
        "\nnotes: "@ + m.6
    } else {
        Seq::empty()
    }) + (if m.7.len() > 0 {
        "\napproved_hash: "@ + m.7
    } else {
        Seq::empty()
    }) + "\n---\n"@ + body
}

fn key_value(line: &[char], sep: &Vec<char>) -> (r: Option<(Vec<char>, Vec<char>)>)
    requires
        sep@ == ": "@,
    ensures
        (match r {
            Some(kv) => Some((kv.0@, kv.1@)),
            None => None,
        }) == line_kv(line@),
{
    let n = line.len();
    match crate::text::find(line, sep.as_slice()) {
        Some(k) => {
            proof {
                reveal_strlit(": ");
                assert(crate::text::occurs_at(line@, sep@, k as int));
            }
            let key = slice_chars(line, 0, k);
            let rest = slice_chars(line, k + 2, n);
            proof {
                assert(key@ =~= line@.take(k as int));
                assert(rest@ =~= line@.skip(k + 2));
            }
            Some((key, trim_chars(rest.as_slice())))
        },
        None => None,
    }
}

/// The values of a field accumulator.
pub open spec fn acc_view(a: (Vec<char>, Vec<char>, Vec<char>, Vec<char>, Vec<char>, Vec<char>, Vec<char>, Vec<char>)) -> MetaModel {
    (a.0@, a.1@, a.2@, a.3@, a.4@, a.5@, a.6@, a.7@)
}

/// The fields after reading one header line.
fn apply_header_line(
    a: (Vec<char>, Vec<char>, Vec<char>, Vec<char>, Vec<char>, Vec<char>, Vec<char>, Vec<char>),
    line: &[char],
    sep: &Vec<char>,
) -> (r: (Vec<char>, Vec<char>, Vec<char>, Vec<char>, Vec<char>, Vec<char>, Vec<char>, Vec<char>))
    requires
        sep@ == ": "@,
    ensures
        acc_view(r) == apply_line(acc_view(a), line@),
{
    reveal(apply_line);
    let (id, doc_type, author, timestamp, refs, status, notes, approved_hash) = a;
    match key_value(line, sep) {
        Some((k, v)) => {
            let kk = k.as_slice();
            if crate::text::eq_str(kk, "id") {
                (v, doc_type, author, timestamp, refs, status, notes, approved_hash)
            } else if crate::text::eq_str(kk, "type") {
                (id, v, author, timestamp, refs, status, notes, approved_hash)
            } else if crate::text::eq_str(kk, "author") {
                (id, doc_type, v, timestamp, refs, status, notes, approved_hash)
            } else if crate::text::eq_str(kk, "timestamp") {
                (id, doc_type, author, v, refs, status, notes, approved_hash)
            } else if crate::text::eq_str(kk, "refs") {
                (id, doc_type, author, timestamp, v, status, notes, approved_hash)
            } else if crate::text::eq_str(kk, "status") {
                (id, doc_type, author, timestamp, refs, v, notes, approved_hash)
            } else if crate::text::eq_str(kk, "notes") {
                (id, doc_type, author, timestamp, refs, status, replace_nl_chars(v.as_slice()), approved_hash)
            } else if crate::text::eq_str(kk, "approved_hash") {
                (id, doc_type, author, timestamp, refs, status, notes, v)
            } else {
                (id, doc_type, author, timestamp, refs, status, notes, approved_hash)
            }
        },
        None => (id, doc_type, author, timestamp, refs, status, notes, approved_hash),
    }
}

/// The fields of the header lines.
fn read_header(ls: &Vec<Vec<char>>) -> (r: (Vec<char>, Vec<char>, Vec<char>, Vec<char>, Vec<char>, Vec<char>, Vec<char>, Vec<char>))
    ensures
        acc_view(r) == header_fields(ls.deep_view()),
{
    let sep = chars_of(": ");
    let mut acc = (Vec::new(), Vec::new(), Vec::new(), Vec::new(), chars_of("[-1]"), Vec::new(), Vec::new(), Vec::new());
    let mut i: usize = 0;
    proof {
        assert(ls.deep_view().take(0) =~= Seq::<Seq<char>>::empty());
        assert(acc_view(acc) =~= default_fields());
    }
    while i < ls.len()
        invariant
            i <= ls@.len(),
            sep@ == ": "@,
            acc_view(acc) == header_fields(ls.deep_view().take(i as int)),
        decreases ls@.len() - i,
    {
        proof {
            lemma_chars_deep_view(ls@[i as int]);
            assert(ls.deep_view()[i as int] == ls@[i as int]@);
            assert(ls.deep_view().take(i + 1).drop_last() =~= ls.deep_view().take(i as int));
        }
        acc = apply_header_line(acc, ls[i].as_slice(), &sep);
        i = i + 1;
    }
    proof {
        assert(ls.deep_view().take(i as int) =~= ls.deep_view());
    }
    acc
}

/// Reads the frontmatter and body of a document. What `build_doc` writes
/// reads back (see `frontmatter::law_doc_text_reads_back`).
pub fn parse_doc(content: &str) -> (r: Result<(DocMeta, String), String>)
    ensures
        (match r {
            Ok(p) => Ok((meta_view(p.0), p.1@)),
            Err(e) => Err(e@),
        }) == parsed_doc(content@),
{
    let cv = chars_of(content);
    if !starts_with_str(cv.as_slice(), "---\n") {
        return Err("Missing YAML frontmatter start marker".to_owned());
    }
    proof {
        reveal_strlit("---\n");
    }
    let body = slice_chars(cv.as_slice(), 4, cv.len());
    proof {
        assert(body@ =~= content@.skip(4));
    }
    let marker = chars_of("\n---");
    let end = match crate::text::find(body.as_slice(), marker.as_slice()) {
        Some(e) => e,
        None => {
            return Err("Missing YAML frontmatter end marker".to_owned());
        },
    };
    proof {
        reveal_strlit("\n---");
        assert(crate::text::occurs_at(body@, marker@, end as int));
    }
    let n = body.len();
    let header = slice_chars(body.as_slice(), 0, end);
    proof {
        assert(header@ =~= body@.take(end as int));
    }
    let ls = split_lines(header.as_slice());
    let (id, doc_type, author, timestamp, refs, status, notes, approved_hash) = read_header(&ls);
    if id.len() == 0 {
        return Err("Document missing id field".to_owned());
    }
    let tail = slice_chars(body.as_slice(), end + 4, n);
    proof {
        assert(tail@ =~= body@.skip(end + 4));
    }
    let body_text = trim_start_chars(tail.as_slice());
    let meta = DocMeta {
        id: string_of(id.as_slice()),
        doc_type: string_of(doc_type.as_slice()),
        author: string_of(author.as_slice()),
        timestamp: string_of(timestamp.as_slice()),
        refs: string_of(refs.as_slice()),
        status: string_of(status.as_slice()),
        notes: string_of(notes.as_slice()),
        approved_hash: string_of(approved_hash.as_slice()),
    };
    Ok((meta, string_of(body_text.as_slice())))
}

/// The text of a document with the given frontmatter and body.
pub fn build_doc(meta: &DocMeta, body: &str) -> (r: String)
    ensures
        r@ == doc_text(meta_view(*meta), body@),
{
    let mut v = chars_of("---\nid: ");
    push_str(&mut v, meta.id.as_str());
    push_str(&mut v, "\ntype: ");
    push_str(&mut v, meta.doc_type.as_str());
    push_str(&mut v, "\nauthor: ");
    push_str(&mut v, meta.author.as_str());
    push_str(&mut v, "\ntimestamp: ");
    push_str(&mut v, meta.timestamp.as_str());
    push_str(&mut v, "\nrefs: ");
    push_str(&mut v, meta.refs.as_str());
    let ghost head = v@;
    if chars_of(meta.status.as_str()).len() > 0 {
        push_str(&mut v, "\nstatus: ");
        push_str(&mut v, meta.status.as_str());
    }
    let ghost s1 = v@;
    if chars_of(meta.notes.as_str()).len() > 0 {
        push_str(&mut v, "\nnotes: ");
        push_str(&mut v, meta.notes.as_str());
    }
    let ghost s2 = v@;
    if chars_of(meta.approved_hash.as_str()).len() > 0 {
        push_str(&mut v, "\napproved_hash: ");
        push_str(&mut v, meta.approved_hash.as_str());
    }
    let ghost s3 = v@;
    push_str(&mut v, "\n---\n");
    push_str(&mut v, body);
    proof {
        let m = meta_view(*meta);
        assert(s1 =~= head + (if m.5.len() > 0 { "\nstatus: "@ + m.5 } else { Seq::empty() }));
        assert(s2 =~= s1 + (if m.6.len() > 0 { "\nnotes: "@ + m.6 } else { Seq::empty() }));
        assert(s3 =~= s2 + (if m.7.len() > 0 { "\napproved_hash: "@ + m.7 } else { Seq::empty() }));
        assert(v@ =~= doc_text(m, body@));
    }
    string_of(v.as_slice())
}

// ───────────────────────── locations ─────────────────────────

/// The author name of a department (by its lower-cased English name).
pub open spec fn author_of(lower: Seq<char>) -> Seq<char> {
    if lower == "zhongshuling"@ {
        "中书令"@
    } else if lower == "menxiashizhong"@ {
        "门下侍中"@
    } else if lower == "neige"@ {
        "内阁"@
    } else if lower == "shangshuling"@ {
        "尚书令"@
    } else if lower == "libushangshu"@ {
        "吏部"@
    } else if lower == "bingbushangshu"@ {
        "兵部"@
    } else if lower == "gongbushangshu"@ {
        "工部"@
    } else if lower == "xingbushangshu"@ {
        "刑部"@
    } else if lower == "liburshangshu"@ {
        "礼部"@
    } else if lower == "hubu"@ {
        "户部"@
    } else if lower == "requirements_agent"@ || lower == "survey_agent"@ {
        "内阁"@
    } else {
        "未知"@
    }
}

/// The author name of a department.
pub fn dept_to_author(dept: &str) -> (r: &'static str)
    ensures
        r@ == author_of(lowercase(dept@)),
{
    let dv = chars_of(dept);
    let lower = to_lower(dv.as_slice());
    let l = lower.as_slice();
    if crate::text::eq_str(l, "zhongshuling") {
        "中书令"
    } else if crate::text::eq_str(l, "menxiashizhong") {
        "门下侍中"
    } else if crate::text::eq_str(l, "neige") {
        "内阁"
    } else if crate::text::eq_str(l, "shangshuling") {
        "尚书令"
    } else if crate::text::eq_str(l, "libushangshu") {
        "吏部"
    } else if crate::text::eq_str(l, "bingbushangshu") {
        "兵部"
    } else if crate::text::eq_str(l, "gongbushangshu") {
        "工部"
    } else if crate::text::eq_str(l, "xingbushangshu") {
        "刑部"
    } else if crate::text::eq_str(l, "liburshangshu") {
        "礼部"
    } else if crate::text::eq_str(l, "hubu") {
        "户部"
    } else if crate::text::eq_str(l, "requirements_agent") || crate::text::eq_str(l, "survey_agent") {
        "内阁"
    } else {
        "未知"
    }
}

fn to_lower(v: &[char]) -> (r: Vec<char>)
    ensures
        r@ == lowercase(v@),
{
    crate::text::to_lowercase(v)
}

/// The directory under `.shuji/` that holds documents of a type.
pub open spec fn dir_of_type(t: Seq<char>) -> Seq<char> {
    if t == "dsgn"@ || t == "plan"@ || t == "pdsg"@ {
        "designs"@
    } else if t == "ddtl"@ {
        "designs/detail"@
    } else if t == "revw"@ {
        "reviews"@
    } else if t == "task"@ {
        "tasks"@
    } else if t == "ctrt"@ {
        "contracts"@
    } else if t == "rprt"@ {
        "reports"@
    } else if t == "anls"@ {
        "analysis"@
    } else if t == "reqs"@ {
        "requirements"@
    } else if t == "precepts"@ {
        ""@
    } else {
        "misc"@
    }
}

/// The directory under `.shuji/` that holds documents of a type.
pub fn type_to_dir(doc_type: &str) -> (r: &'static str)
    ensures
        r@ == dir_of_type(doc_type@),
{
    let t = chars_of(doc_type);
    let t = t.as_slice();
    if crate::text::eq_str(t, "dsgn") || crate::text::eq_str(t, "plan") || crate::text::eq_str(t, "pdsg") {
        "designs"
    } else if crate::text::eq_str(t, "ddtl") {
        "designs/detail"
    } else if crate::text::eq_str(t, "revw") {
        "reviews"
    } else if crate::text::eq_str(t, "task") {
        "tasks"
    } else if crate::text::eq_str(t, "ctrt") {
        "contracts"
    } else if crate::text::eq_str(t, "rprt") {
        "reports"
    } else if crate::text::eq_str(t, "anls") {
        "analysis"
    } else if crate::text::eq_str(t, "reqs") {
        "requirements"
    } else if crate::text::eq_str(t, "precepts") {
        ""
    } else {
        "misc"
    }
}

/// Where a report of a department is stored, relative to the project.
pub fn rprt_rel_path(dept: &str, doc_id: &str) -> (r: String)
    ensures
        r@ == ".shuji/reports/"@ + dept@ + "/"@ + doc_id@ + ".md"@,
{
    let mut v = chars_of(".shuji/reports/");
    push_str(&mut v, dept);
    push_str(&mut v, "/");
    push_str(&mut v, doc_id);
    push_str(&mut v, ".md");
    string_of(v.as_slice())
}

// ───────────────────────── titles and sections ─────────────────────────

/// `s` cut to `max` characters, with `…` appended when something was cut.
pub open spec fn truncated(s: Seq<char>, max: nat) -> Seq<char> {
    if s.len() <= max {
        s
    } else {
        s.take(max as int) + "…"@
    }
}

/// `s` cut to `max` characters, with `…` appended when something was cut.
pub fn truncate(s: &str, max: usize) -> (r: String)
    ensures
        r@ == truncated(s@, max as nat),
{
    let v = chars_of(s);
    if v.len() <= max {
        s.to_owned()
    } else {
        let mut out = slice_chars(v.as_slice(), 0, max);
        push_str(&mut out, "…");
        string_of(out.as_slice())
    }
}

/// The title of a document from its first non-blank line (a `#` heading's
/// text, or the line itself), cut to 80 characters; empty when there is none.
pub open spec fn title_of(ls: Seq<Seq<char>>, i: int) -> Seq<char>
    decreases ls.len() - i,
{
    if i < 0 || i >= ls.len() {
        Seq::empty()
    } else if trim(ls[i]).len() == 0 {
        title_of(ls, i + 1)
    } else if trim(ls[i])[0] == '#' {
        truncated(trim_start(trim(ls[i]).skip(1)), 80)
    } else {
        truncated(trim(ls[i]), 80)
    }
}

/// The title of a document body.
pub fn title_from_body(body: &str) -> (r: String)
    ensures
        r@ == title_of(lines(body@), 0),
{
    let bv = chars_of(body);
    let ls = split_lines(bv.as_slice());
    let mut i: usize = 0;
    while i < ls.len()
        invariant
            i <= ls@.len(),
            ls.deep_view() == lines(body@),
            title_of(ls.deep_view(), 0) == title_of(ls.deep_view(), i as int),
        decreases ls@.len() - i,
    {
        proof {
            lemma_chars_deep_view(ls@[i as int]);
            assert(ls.deep_view()[i as int] == ls@[i as int]@);
        }
        let t = trim_chars(ls[i].as_slice());
        if t.len() > 0 {
            if t[0] == '#' {
                let h = slice_chars(t.as_slice(), 1, t.len());
                proof {
                    assert(h@ =~= t@.skip(1));
                }
                let hs = trim_start_chars(h.as_slice());
                return truncate(string_of(hs.as_slice()).as_str(), 80);
            }
            return truncate(string_of(t.as_slice()).as_str(), 80);
        }
        i = i + 1;
    }
    let r = String::new();
    proof {
        assert(r@ =~= Seq::<char>::empty());
    }
    r
}

/// A line that begins a section (`## ` or `### `).
pub open spec fn is_section_line(l: Seq<char>) -> bool {
    starts_with(l, "## "@) || starts_with(l, "### "@)
}

/// (start, end) of the section: the last heading line matching one of the
/// headings before the first later section line, and that section line.
pub open spec fn section_scan(ls: Seq<Seq<char>>, h2: Seq<char>, h3: Seq<char>, i: int, start: Option<int>) -> (Option<int>, Option<int>)
    decreases ls.len() - i,
{
    if i < 0 || i >= ls.len() {
        (start, None)
    } else if starts_with(trim(ls[i]), h2) || starts_with(trim(ls[i]), h3) {
        section_scan(ls, h2, h3, i + 1, Some(i))
    } else if start is Some && is_section_line(ls[i]) {
        (start, Some(i))
    } else {
        section_scan(ls, h2, h3, i + 1, start)
    }
}

/// The section lines, trimmed, from line `i` on.
pub open spec fn section_headings(ls: Seq<Seq<char>>) -> Seq<Seq<char>>
    decreases ls.len(),
{
    if ls.len() == 0 {
        Seq::empty()
    } else if is_section_line(ls.last()) {
        section_headings(ls.drop_last()).push(trim(ls.last()))
    } else {
        section_headings(ls.drop_last())
    }
}

/// The text of the named section (its heading line up to the next section
/// line), or the message listing the sections there are.
pub open spec fn section_of(body: Seq<char>, name: Seq<char>) -> Result<Seq<char>, Seq<char>> {
    let ls = lines(body);
    let sc = section_scan(ls, "## "@ + name, "### "@ + name, 0, None);
    match sc.0 {
        Some(s) => {
            let e = match sc.1 {
                Some(e) => e,
                None => ls.len() as int,
            };
            Ok(join(ls.subrange(s, e), "\n"@))
        },
        None => {
            let avail = section_headings(ls);
            Err(
                "Section \""@ + name + "\" not found in the document.\nAvailable sections ("@ + decimal(avail.len())
                    + " total):\n"@ + join(avail, "\n"@),
            )
        },
    }
}

proof fn lemma_section_scan(ls: Seq<Seq<char>>, h2: Seq<char>, h3: Seq<char>, i: int, start: Option<int>)
    requires
        0 <= i <= ls.len(),
        start matches Some(s) ==> 0 <= s < i,
    ensures
        ({
            let r = section_scan(ls, h2, h3, i, start);
            &&& r.0 matches Some(s) ==> 0 <= s < ls.len()
            &&& r.1 matches Some(e) ==> r.0 is Some && r.0->0 < e < ls.len()
            &&& r.0 is None ==> start is None
        }),
    decreases ls.len() - i,
{
    if i < ls.len() {
        if starts_with(trim(ls[i]), h2) || starts_with(trim(ls[i]), h3) {
            lemma_section_scan(ls, h2, h3, i + 1, Some(i));
        } else if start is Some && is_section_line(ls[i]) {
        } else {
            lemma_section_scan(ls, h2, h3, i + 1, start);
        }
    }
}

/// Finds where the section starts and ends.
fn scan_section(ls: &Vec<Vec<char>>, h2: &Vec<char>, h3: &Vec<char>) -> (r: (Option<usize>, Option<usize>))
    ensures
        (match r.0 {
            Some(s) => Some(s as int),
            None => None,
        }, match r.1 {
            Some(e) => Some(e as int),
            None => None,
        }) == section_scan(ls.deep_view(), h2@, h3@, 0, None),
{
    let mut start: Option<usize> = None;
    let mut i: usize = 0;
    while i < ls.len()
        invariant
            i <= ls@.len(),
            start matches Some(s) ==> s < i,
            section_scan(ls.deep_view(), h2@, h3@, 0, None) == section_scan(
                ls.deep_view(),
                h2@,
                h3@,
                i as int,
                match start {
                    Some(s) => Some(s as int),
                    None => None,
                },
            ),
        decreases ls@.len() - i,
    {
        proof {
            lemma_chars_deep_view(ls@[i as int]);
            assert(ls.deep_view()[i as int] == ls@[i as int]@);
        }
        let t = trim_chars(ls[i].as_slice());
        if crate::text::starts_with_at(t.as_slice(), h2.as_slice()) || crate::text::starts_with_at(
            t.as_slice(),
            h3.as_slice(),
        ) {
            start = Some(i);
        } else if start.is_some() && (starts_with_str(ls[i].as_slice(), "## ") || starts_with_str(
            ls[i].as_slice(),
            "### ",
        )) {
            return (start, Some(i));
        }
        i = i + 1;
    }
    (start, None)
}

/// The named section of a document body.
pub fn extract_section(body: &str, section_name: &str) -> (r: Result<String, String>)
    ensures
        (match r {
            Ok(s) => Ok(s@),
            Err(e) => Err(e@),
        }) == section_of(body@, section_name@),
{
    let bv = chars_of(body);
    let ls = split_lines(bv.as_slice());
    let mut h2 = chars_of("## ");
    push_str(&mut h2, section_name);
    let mut h3 = chars_of("### ");
    push_str(&mut h3, section_name);
    let ghost lsv = ls.deep_view();
    let (start, end) = scan_section(&ls, &h2, &h3);
    proof {
        lemma_section_scan(lsv, h2@, h3@, 0, None);
    }
    match start {
        Some(s) => {
            let e = match end {
                Some(e) => e,
                None => ls.len(),
            };
            let mut part: Vec<Vec<char>> = Vec::new();
            let mut k = s;
            proof {
                assert(lsv.subrange(s as int, s as int) =~= Seq::<Seq<char>>::empty());
            }
            while k < e
                invariant
                    s <= k <= e <= ls@.len(),
                    lsv == ls.deep_view(),
                    part.deep_view() == lsv.subrange(s as int, k as int),
                decreases e - k,
            {
                proof {
                    lemma_chars_deep_view(ls@[k as int]);
                    assert(lsv[k as int] == ls@[k as int]@);
                }
                let line = slice_chars(ls[k].as_slice(), 0, ls[k].len());
                proof {
                    assert(line@ =~= lsv[k as int]);
                }
                push_line(&mut part, line);
                k = k + 1;
                proof {
                    assert(part.deep_view() =~= lsv.subrange(s as int, k as int));
                }
            }
            let nl = chars_of("\n");
            Ok(string_of(join_chars(&part, nl.as_slice()).as_slice()))
        },
        None => {
            let mut avail: Vec<Vec<char>> = Vec::new();
            let mut k: usize = 0;
            proof {
                assert(lsv.take(0) =~= Seq::<Seq<char>>::empty());
            }
            while k < ls.len()
                invariant
                    k <= ls@.len(),
                    lsv == ls.deep_view(),
                    avail.deep_view() == section_headings(lsv.take(k as int)),
                decreases ls@.len() - k,
            {
                proof {
                    lemma_chars_deep_view(ls@[k as int]);
                    assert(lsv[k as int] == ls@[k as int]@);
                    assert(lsv.take(k + 1).drop_last() =~= lsv.take(k as int));
                }
                if starts_with_str(ls[k].as_slice(), "## ") || starts_with_str(ls[k].as_slice(), "### ") {
                    push_line(&mut avail, trim_chars(ls[k].as_slice()));
                }
                k = k + 1;
            }
            proof {
                assert(lsv.take(k as int) =~= lsv);
            }
            let mut m = chars_of("Section \"");
            push_str(&mut m, section_name);
            push_str(&mut m, "\" not found in the document.\nAvailable sections (");
            push_all(&mut m, fmt_u64(avail.len() as u64).as_slice());
            push_str(&mut m, " total):\n");
            let nl = chars_of("\n");
            push_all(&mut m, join_chars(&avail, nl.as_slice()).as_slice());
            Err(string_of(m.as_slice()))
        },
    }
}

} // verus!
