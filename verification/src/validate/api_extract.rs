//! The public functions a Rust source file declares, read line by line
//! from `pub fn` / `pub async fn` headers.
use crate::text::{
    chars_of, contains_str, eq_str, has_sub, lemma_chars_deep_view, lines, occurs_at, slice_chars, split_lines,
    starts_with, starts_with_str, string_of, trim, trim_chars,
};
use crate::tool::command_ops::{tokens, tokens_of};
use crate::validate::contract::{
    ident_start, lemma_skip_ident, lemma_skip_space, pair_strs, sig_space, sig_view, sig_views, skip_ident,
    skip_sig_space, FunctionSig, SigModel,
};
use vstd::prelude::*;

verus! {

// ───────────────────────── parameters ─────────────────────────

/// One parameter of a Rust function: `self` for a receiver, else
/// `name: type` (a leading `mut ` dropped), or a bare name of unknown type.
pub open spec fn rust_param(p: Seq<char>) -> (Seq<char>, Seq<char>) {
    if p == "&self"@ || p == "self"@ {
        ("self"@, "Self"@)
    } else {
        let clean = if starts_with(p, "mut "@) { p.skip(4) } else { p };
        match crate::text::first_occ_from(clean, seq![':'], 0) {
            Some(k) => (trim(clean.take(k)), trim(clean.skip(k + 1))),
            None => (clean, "unknown"@),
        }
    }
}

/// The parameters of a Rust parameter list.
pub open spec fn rust_params(p: Seq<char>) -> Seq<(Seq<char>, Seq<char>)> {
    let ts = tokens_of(p, seq![',']);
    Seq::new(ts.len(), |i: int| rust_param(ts[i]))
}

fn rust_param_of(p: &[char], colon: &Vec<char>) -> (r: (String, String))
    requires
        colon@ == seq![':'],
    ensures
        (r.0@, r.1@) == rust_param(p@),
{
    if eq_str(p, "&self") || eq_str(p, "self") {
        return ("self".to_owned(), "Self".to_owned());
    }
    let clean = if starts_with_str(p, "mut ") {
        proof {
            reveal_strlit("mut ");
        }
        let c = slice_chars(p, 4, p.len());
        proof {
            assert(c@ =~= p@.skip(4));
        }
        c
    } else {
        let c = slice_chars(p, 0, p.len());
        proof {
            assert(c@ =~= p@);
        }
        c
    };
    let n = clean.len();
    match crate::text::find(clean.as_slice(), colon.as_slice()) {
        Some(k) => {
            proof {
                assert(occurs_at(clean@, colon@, k as int));
            }
            let head = slice_chars(clean.as_slice(), 0, k);
            let tail = slice_chars(clean.as_slice(), k + 1, n);
            proof {
                assert(head@ =~= clean@.take(k as int));
                assert(tail@ =~= clean@.skip(k + 1));
            }
            (string_of(trim_chars(head.as_slice()).as_slice()), string_of(trim_chars(tail.as_slice()).as_slice()))
        },
        None => (string_of(clean.as_slice()), "unknown".to_owned()),
    }
}

/// Parses a Rust parameter list into (name, type) pairs.
pub fn parse_fn_params(params_str: &str) -> (r: Vec<(String, String)>)
    ensures
        pair_strs(r@) == rust_params(params_str@),
{
    let pv = chars_of(params_str);
    let comma: Vec<char> = vec![','];
    let colon: Vec<char> = vec![':'];
    proof {
        assert(comma@ =~= seq![',']);
        assert(colon@ =~= seq![':']);
    }
    let ts = tokens(pv.as_slice(), comma.as_slice());
    let ghost tsv = ts.deep_view();
    let mut out: Vec<(String, String)> = Vec::new();
    let mut i: usize = 0;
    while i < ts.len()
        invariant
            i <= ts@.len(),
            tsv == ts.deep_view(),
            tsv == tokens_of(params_str@, seq![',']),
            colon@ == seq![':'],
            out@.len() == i,
            forall|j: int| 0 <= j < i ==> (#[trigger] out@[j].0@, out@[j].1@) == rust_param(tsv[j]),
        decreases ts@.len() - i,
    {
        proof {
            lemma_chars_deep_view(ts@[i as int]);
            assert(tsv[i as int] == ts@[i as int]@);
        }
        let pair = rust_param_of(ts[i].as_slice(), &colon);
        out.push(pair);
        i = i + 1;
    }
    proof {
        assert(pair_strs(out@) =~= rust_params(params_str@));
    }
    out
}

// ───────────────────────── headers ─────────────────────────

/// Index of the first `{` or `;` at or after `i` (or the length).
pub open spec fn next_brace_or_semi(s: Seq<char>, i: int) -> int
    decreases s.len() - i,
{
    if i < 0 || i >= s.len() {
        s.len() as int
    } else if s[i] == '{' || s[i] == ';' {
        i
    } else {
        next_brace_or_semi(s, i + 1)
    }
}

/// The return text after the `)` at `d`: spaces, `->`, spaces, then the
/// text up to a `{` or `;` (one space when nothing else follows).
pub open spec fn rust_ret_text(s: Seq<char>, d: int) -> Option<Seq<char>> {
    let f = skip_sig_space(s, d + 1);
    if occurs_at(s, "->"@, f) {
        let g = skip_sig_space(s, f + 2);
        if g < s.len() && s[g] != '{' && s[g] != ';' {
            Some(s.subrange(g, next_brace_or_semi(s, g)))
        } else if g > f + 2 {
            Some(s.subrange(g - 1, g))
        } else {
            None
        }
    } else {
        None
    }
}

/// The name span of a `pub fn` header starting at `p`: `pub`, spaces, an
/// optional `async` and spaces, `fn`, spaces, then a name directly followed by `(`.
pub open spec fn header_at(s: Seq<char>, p: int) -> Option<(int, int)> {
    if !occurs_at(s, "pub"@, p) || p + 3 >= s.len() || !sig_space(s[p + 3]) {
        None
    } else {
        let b = skip_sig_space(s, p + 3);
        let b2 = if occurs_at(s, "async"@, b) && b + 5 < s.len() && sig_space(s[b + 5]) {
            skip_sig_space(s, b + 5)
        } else {
            b
        };
        if !occurs_at(s, "fn"@, b2) || b2 + 2 >= s.len() || !sig_space(s[b2 + 2]) {
            None
        } else {
            let c = skip_sig_space(s, b2 + 2);
            if c >= s.len() || !ident_start(s[c]) {
                None
            } else {
                let e = skip_ident(s, c + 1);
                if e >= s.len() || s[e] != '(' {
                    None
                } else {
                    Some((c, e))
                }
            }
        }
    }
}

/// The header parts (name, parameter text, return text) when a header starts at `p`.
pub open spec fn match_at(s: Seq<char>, p: int) -> Option<(Seq<char>, Seq<char>, Option<Seq<char>>)> {
    match header_at(s, p) {
        None => None,
        Some(h) => match crate::text::first_occ_from(s, seq![')'], h.1 + 1) {
            None => None,
            Some(d) => Some((s.subrange(h.0, h.1), s.subrange(h.1 + 1, d), rust_ret_text(s, d))),
        },
    }
}

/// The header parts at the leftmost position (from `p`) where a header matches.
pub open spec fn leftmost_match(s: Seq<char>, p: int) -> Option<(Seq<char>, Seq<char>, Option<Seq<char>>)>
    decreases s.len() - p,
{
    if p < 0 || p >= s.len() {
        None
    } else if match_at(s, p) is Some {
        match_at(s, p)
    } else {
        leftmost_match(s, p + 1)
    }
}

/// The signature a header line gives.
pub open spec fn header_sig(m: (Seq<char>, Seq<char>, Option<Seq<char>>)) -> SigModel {
    (m.0, rust_params(m.1), match m.2 {
        Some(r) => trim(r),
        None => "()"@,
    })
}

/// Whether the header on line `i` is a test function to skip: its name
/// starts with `test_`, the line itself begins with an attribute, and the
/// line before is a test attribute.
pub open spec fn is_skipped_test(ls: Seq<Seq<char>>, i: int, name: Seq<char>) -> bool {
    starts_with(name, "test_"@) && starts_with(trim(ls[i]), "#["@) && i > 0 && (trim(ls[i - 1]) == "#[test]"@
        || has_sub(trim(ls[i - 1]), "#[tokio::test]"@))
}

/// The signatures declared on the first lines of a file.
pub open spec fn pub_fns_upto(ls: Seq<Seq<char>>, n: int) -> Seq<SigModel>
    decreases n,
{
    if n <= 0 || n > ls.len() {
        Seq::empty()
    } else {
        let before = pub_fns_upto(ls, n - 1);
        let i = n - 1;
        if starts_with(trim(ls[i]), "#[cfg(test)]"@) {
            before
        } else {
            match leftmost_match(ls[i], 0) {
                Some(m) => if is_skipped_test(ls, i, m.0) {
                    before
                } else {
                    before.push(header_sig(m))
                },
                None => before,
            }
        }
    }
}

fn skip_space_at(s: &[char], i: usize) -> (r: usize)
    requires
        i <= s@.len(),
    ensures
        r == skip_sig_space(s@, i as int),
        i <= r <= s@.len(),
{
    proof {
        lemma_skip_space(s@, i as int);
    }
    let mut j = i;
    while j < s.len() && (s[j] == '\t' || s[j] == '\n' || s[j] == '\x0B' || s[j] == '\x0C' || s[j] == '\r' || s[j] == ' ')
        invariant
            i <= j <= s@.len(),
            skip_sig_space(s@, i as int) == skip_sig_space(s@, j as int),
        decreases s@.len() - j,
    {
        j = j + 1;
    }
    j
}

fn is_space(c: char) -> (r: bool)
    ensures
        r == sig_space(c),
{
    c == '\t' || c == '\n' || c == '\x0B' || c == '\x0C' || c == '\r' || c == ' '
}

fn header_at_exec(s: &[char], p: usize, pub_kw: &Vec<char>, async_kw: &Vec<char>, fn_kw: &Vec<char>) -> (r: Option<(usize, usize)>)
    requires
        p <= s@.len(),
        pub_kw@ == "pub"@,
        async_kw@ == "async"@,
        fn_kw@ == "fn"@,
        pub_kw@.len() == 3,
        async_kw@.len() == 5,
        fn_kw@.len() == 2,
    ensures
        (match r {
            Some(h) => Some((h.0 as int, h.1 as int)),
            None => None,
        }) == header_at(s@, p as int),
        r matches Some(h) ==> h.0 <= h.1 < s@.len(),
{
    let n = s.len();
    if !crate::text::matches_at(s, pub_kw.as_slice(), p) || p + 3 >= n || !is_space(s[p + 3]) {
        return None;
    }
    let b = skip_space_at(s, p + 3);
    let b2 = if crate::text::matches_at(s, async_kw.as_slice(), b) && b + 5 < n && is_space(s[b + 5]) {
        skip_space_at(s, b + 5)
    } else {
        b
    };
    if !crate::text::matches_at(s, fn_kw.as_slice(), b2) || b2 + 2 >= n || !is_space(s[b2 + 2]) {
        return None;
    }
    let c = skip_space_at(s, b2 + 2);
    if c >= n || !(('a' <= s[c] && s[c] <= 'z') || ('A' <= s[c] && s[c] <= 'Z') || s[c] == '_') {
        return None;
    }
    proof {
        lemma_skip_ident(s@, c + 1);
    }
    let mut e = c + 1;
    while e < n && (('a' <= s[e] && s[e] <= 'z') || ('A' <= s[e] && s[e] <= 'Z') || s[e] == '_' || ('0' <= s[e] && s[e]
        <= '9'))
        invariant
            c + 1 <= e <= n == s@.len(),
            skip_ident(s@, c + 1) == skip_ident(s@, e as int),
        decreases n - e,
    {
        e = e + 1;
    }
    if e >= n || s[e] != '(' {
        return None;
    }
    Some((c, e))
}

fn rust_ret_text_of(s: &[char], d: usize, arrow: &Vec<char>) -> (r: Option<Vec<char>>)
    requires
        d < s@.len(),
        arrow@ == "->"@,
        arrow@.len() == 2,
    ensures
        (match r {
            Some(x) => Some(x@),
            None => None,
        }) == rust_ret_text(s@, d as int),
{
    let n = s.len();
    let f = skip_space_at(s, d + 1);
    if !crate::text::matches_at(s, arrow.as_slice(), f) {
        return None;
    }
    let g = skip_space_at(s, f + 2);
    if g < n && s[g] != '{' && s[g] != ';' {
        let mut h = g;
        while h < n && s[h] != '{' && s[h] != ';'
            invariant
                g <= h <= n == s@.len(),
                next_brace_or_semi(s@, g as int) == next_brace_or_semi(s@, h as int),
            decreases n - h,
        {
            h = h + 1;
        }
        Some(slice_chars(s, g, h))
    } else if g > f + 2 {
        Some(slice_chars(s, g - 1, g))
    } else {
        None
    }
}

/// The header parts at the leftmost position where a header matches.
fn leftmost_header(s: &[char]) -> (r: Option<(Vec<char>, Vec<char>, Option<Vec<char>>)>)
    ensures
        (match r {
            Some(m) => Some(
                (
                    m.0@,
                    m.1@,
                    match m.2 {
                        Some(x) => Some(x@),
                        None => None,
                    },
                ),
            ),
            None => None,
        }) == leftmost_match(s@, 0),
{
    let pub_kw = chars_of("pub");
    let async_kw = chars_of("async");
    let fn_kw = chars_of("fn");
    let arrow = chars_of("->");
    let close: Vec<char> = vec![')'];
    proof {
        reveal_strlit("pub");
        reveal_strlit("async");
        reveal_strlit("fn");
        reveal_strlit("->");
        assert(close@ =~= seq![')']);
    }
    let n = s.len();
    let mut p: usize = 0;
    while p < n
        invariant
            p <= n == s@.len(),
            pub_kw@ == "pub"@,
            async_kw@ == "async"@,
            fn_kw@ == "fn"@,
            arrow@ == "->"@,
            pub_kw@.len() == 3,
            async_kw@.len() == 5,
            fn_kw@.len() == 2,
            arrow@.len() == 2,
            close@ == seq![')'],
            leftmost_match(s@, 0) == leftmost_match(s@, p as int),
        decreases n - p,
    {
        match header_at_exec(s, p, &pub_kw, &async_kw, &fn_kw) {
            Some((c, e)) => match crate::text::find_from(s, close.as_slice(), e + 1) {
                Some(d) => {
                    let ret = rust_ret_text_of(s, d, &arrow);
                    return Some((slice_chars(s, c, e), slice_chars(s, e + 1, d), ret));
                },
                None => {},
            },
            None => {},
        }
        p = p + 1;
    }
    None
}

/// The `pub fn` signatures of a Rust source text, in order, leaving out
/// attribute lines of test modules and attributed test functions.
pub fn extract_pub_fns_from_content(content: &str) -> (r: Vec<FunctionSig>)
    ensures
        sig_views(r@) == pub_fns_upto(lines(content@), lines(content@).len() as int),
{
    let cv = chars_of(content);
    let ls = split_lines(cv.as_slice());
    let ghost lsv = ls.deep_view();
    let mut fns: Vec<FunctionSig> = Vec::new();
    let mut i: usize = 0;
    proof {
        assert(sig_views(fns@) =~= Seq::<SigModel>::empty());
    }
    while i < ls.len()
        invariant
            i <= ls@.len(),
            lsv == ls.deep_view(),
            lsv == lines(content@),
            sig_views(fns@) == pub_fns_upto(lsv, i as int),
        decreases ls@.len() - i,
    {
        proof {
            lemma_chars_deep_view(ls@[i as int]);
            assert(lsv[i as int] == ls@[i as int]@);
            if i > 0 {
                lemma_chars_deep_view(ls@[i - 1]);
                assert(lsv[i - 1] == ls@[i - 1]@);
            }
        }
        let t = trim_chars(ls[i].as_slice());
        if !starts_with_str(t.as_slice(), "#[cfg(test)]") {
            match leftmost_header(ls[i].as_slice()) {
                Some((name, params, ret)) => {
                    let skipped = starts_with_str(name.as_slice(), "test_") && starts_with_str(t.as_slice(), "#[")
                        && i > 0 && {
                        let prev = trim_chars(ls[i - 1].as_slice());
                        eq_str(prev.as_slice(), "#[test]") || contains_str(prev.as_slice(), "#[tokio::test]")
                    };
                    if !skipped {
                        let ps = string_of(params.as_slice());
                        let return_type = match ret {
                            Some(x) => string_of(trim_chars(x.as_slice()).as_slice()),
                            None => "()".to_owned(),
                        };
                        let sig = FunctionSig {
                            name: string_of(name.as_slice()),
                            params: parse_fn_params(ps.as_str()),
                            return_type,
                        };
                        let ghost before = sig_views(fns@);
                        let ghost sv = sig_view(sig);
                        fns.push(sig);
                        proof {
                            assert(sig_views(fns@) =~= before.push(sv));
                        }
                    }
                },
                None => {},
            }
        }
        i = i + 1;
    }
    fns
}

/// Folders that the walk over a project's sources leaves out: `tests` and `target`.
pub fn skips_source_dir(name: &str) -> (r: bool)
    ensures
        r == (name@ == "tests"@ || name@ == "target"@),
{
    crate::text::str_eq(name, "tests") || crate::text::str_eq(name, "target")
}

} // verus!
