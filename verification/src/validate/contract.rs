//! Contract documents: the function signatures a contract promises.
//!
//! Signatures are read from lines of the form `fn name(params) -> Ret`,
//! `def name(params) -> Ret` or `function name(params): Ret`, inside code
//! blocks and then in the surrounding text.
use crate::text::{
    chars_of, find, first_occ_from, has_sub, lemma_chars_deep_view, lines, next_nl, push_line, slice_chars, split_lines,
    string_of, trim, trim_chars,
};
use crate::tool::command_ops::{tokens, tokens_of};
use vstd::prelude::*;

verus! {

/// The functions and classes a contract promises.
#[derive(Debug, Clone)]
pub struct ContractSpec {
    pub functions: Vec<FunctionSig>,
    pub classes: Vec<ClassDef>,
}

/// A function signature: name, (name, type) parameters, return type.
#[derive(Debug, Clone)]
pub struct FunctionSig {
    pub name: String,
    pub params: Vec<(String, String)>,
    pub return_type: String,
}

/// A class and its methods.
#[derive(Debug, Clone)]
pub struct ClassDef {
    pub name: String,
    pub methods: Vec<FunctionSig>,
}

/// A signature as values: name, parameters, return type.
pub type SigModel = (Seq<char>, Seq<(Seq<char>, Seq<char>)>, Seq<char>);

/// The characters of each pair of strings.
pub open spec fn pair_strs(v: Seq<(String, String)>) -> Seq<(Seq<char>, Seq<char>)> {
    Seq::new(v.len(), |i: int| (v[i].0@, v[i].1@))
}

/// The values of a signature.
pub open spec fn sig_view(f: FunctionSig) -> SigModel {
    (f.name@, pair_strs(f.params@), f.return_type@)
}

/// The values of each signature.
pub open spec fn sig_views(v: Seq<FunctionSig>) -> Seq<SigModel> {
    Seq::new(v.len(), |i: int| sig_view(v[i]))
}

// ───────────────────────── parameters ─────────────────────────

/// One parameter: `name: type` split at the first colon, or a bare name of unknown type.
pub open spec fn param_pair(t: Seq<char>) -> (Seq<char>, Seq<char>) {
    match first_occ_from(t, seq![':'], 0) {
        Some(k) => (trim(t.take(k)), trim(t.skip(k + 1))),
        None => (t, "unknown"@),
    }
}

/// The parameters of a comma-separated list.
pub open spec fn params_model(p: Seq<char>) -> Seq<(Seq<char>, Seq<char>)> {
    let ts = tokens_of(p, seq![',']);
    Seq::new(ts.len(), |i: int| param_pair(ts[i]))
}

/// One parameter from its text.
fn param_of(t: &[char], colon: &Vec<char>) -> (r: (String, String))
    requires
        colon@ == seq![':'],
    ensures
        (r.0@, r.1@) == param_pair(t@),
{
    let n = t.len();
    match find(t, colon.as_slice()) {
        Some(k) => {
            proof {
                assert(crate::text::occurs_at(t@, colon@, k as int));
            }
            let head = slice_chars(t, 0, k);
            let tail = slice_chars(t, k + 1, n);
            proof {
                assert(head@ =~= t@.take(k as int));
                assert(tail@ =~= t@.skip(k + 1));
            }
            let name = trim_chars(head.as_slice());
            let typ = trim_chars(tail.as_slice());
            (string_of(name.as_slice()), string_of(typ.as_slice()))
        },
        None => (string_of(t), "unknown".to_owned()),
    }
}

/// Parses a parameter list like `a: i32, b: String` or `x, y` into (name, type) pairs.
pub fn parse_params(params_str: &str) -> (r: Vec<(String, String)>)
    ensures
        pair_strs(r@) == params_model(params_str@),
{
    let pv = chars_of(params_str);
    let comma: Vec<char> = vec![','];
    proof {
        assert(comma@ =~= seq![',']);
    }
    let ts = tokens(pv.as_slice(), comma.as_slice());
    let ghost tsv = ts.deep_view();
    let colon: Vec<char> = vec![':'];
    proof {
        assert(colon@ =~= seq![':']);
    }
    let mut out: Vec<(String, String)> = Vec::new();
    let mut i: usize = 0;
    while i < ts.len()
        invariant
            i <= ts@.len(),
            tsv == ts.deep_view(),
            tsv == tokens_of(params_str@, seq![',']),
            colon@ == seq![':'],
            out@.len() == i,
            forall|j: int| 0 <= j < i ==> (#[trigger] out@[j].0@, out@[j].1@) == param_pair(tsv[j]),
        decreases ts@.len() - i,
    {
        proof {
            lemma_chars_deep_view(ts@[i as int]);
            assert(tsv[i as int] == ts@[i as int]@);
        }
        let pair = param_of(ts[i].as_slice(), &colon);
        out.push(pair);
        i = i + 1;
    }
    proof {
        assert(pair_strs(out@) =~= params_model(params_str@));
    }
    out
}

// ───────────────────────── signatures ─────────────────────────

/// A space as the signature grammar counts it (`[\t\n\v\f\r ]`).
pub open spec fn sig_space(c: char) -> bool {
    c == '\t' || c == '\n' || c == '\x0B' || c == '\x0C' || c == '\r' || c == ' '
}

/// First index at or after `i` that is not a signature space (or the length).
pub open spec fn skip_sig_space(s: Seq<char>, i: int) -> int
    decreases s.len() - i,
{
    if 0 <= i < s.len() && sig_space(s[i]) {
        skip_sig_space(s, i + 1)
    } else {
        i
    }
}

/// A character that may begin a name.
pub open spec fn ident_start(c: char) -> bool {
    ('a' <= c && c <= 'z') || ('A' <= c && c <= 'Z') || c == '_'
}

/// A character that may continue a name.
pub open spec fn ident_char(c: char) -> bool {
    ident_start(c) || ('0' <= c && c <= '9')
}

/// First index at or after `i` that is not a name character (or the length).
pub open spec fn skip_ident(s: Seq<char>, i: int) -> int
    decreases s.len() - i,
{
    if 0 <= i < s.len() && ident_char(s[i]) {
        skip_ident(s, i + 1)
    } else {
        i
    }
}

/// The end of the leading keyword `fn`, `def` or `function` (-1 when there is none).
pub open spec fn keyword_end(s: Seq<char>) -> int {
    if crate::text::starts_with(s, "fn"@) {
        2
    } else if crate::text::starts_with(s, "def"@) {
        3
    } else if crate::text::starts_with(s, "function"@) {
        8
    } else {
        -1
    }
}

pub proof fn lemma_skip_space(s: Seq<char>, i: int)
    requires
        0 <= i <= s.len(),
    ensures
        i <= skip_sig_space(s, i) <= s.len(),
        skip_sig_space(s, i) < s.len() ==> !sig_space(s[skip_sig_space(s, i)]),
    decreases s.len() - i,
{
    if i < s.len() && sig_space(s[i]) {
        lemma_skip_space(s, i + 1);
    }
}

pub proof fn lemma_skip_ident(s: Seq<char>, i: int)
    requires
        0 <= i <= s.len(),
    ensures
        i <= skip_ident(s, i) <= s.len(),
    decreases s.len() - i,
{
    if i < s.len() && ident_char(s[i]) {
        lemma_skip_ident(s, i + 1);
    }
}

/// The name of a signature line as (start, end), the end being at the `(`:
/// the keyword, one or more spaces, then a name directly followed by `(`.
pub open spec fn sig_head(s: Seq<char>) -> Option<(int, int)> {
    let a = keyword_end(s);
    if a < 0 || a >= s.len() || !sig_space(s[a]) {
        None
    } else {
        let b = skip_sig_space(s, a);
        if b < 0 || b >= s.len() || !ident_start(s[b]) {
            None
        } else {
            let c = skip_ident(s, b + 1);
            if c < 0 || c >= s.len() || s[c] != '(' {
                None
            } else {
                Some((b, c))
            }
        }
    }
}

/// The return text after the `)` at `d`: optional spaces, an optional `:`
/// and spaces, `->`, spaces, then the text up to a line break.
pub open spec fn ret_text(s: Seq<char>, d: int) -> Option<Seq<char>> {
    let e = skip_sig_space(s, d + 1);
    let f = if 0 <= e < s.len() && s[e] == ':' { skip_sig_space(s, e + 1) } else { e };
    if 0 <= f && f + 1 < s.len() && s[f] == '-' && s[f + 1] == '>' {
        let g = skip_sig_space(s, f + 2);
        if g < s.len() {
            Some(s.subrange(g, next_nl(s, g)))
        } else {
            None
        }
    } else {
        None
    }
}

/// The parts of a signature line: name, parameter text up to the first
/// `)`, and return text.
#[verifier::opaque]
pub open spec fn sig_parts(s: Seq<char>) -> Option<(Seq<char>, Seq<char>, Option<Seq<char>>)> {
    match sig_head(s) {
        None => None,
        Some(h) => match first_occ_from(s, seq![')'], h.1 + 1) {
            None => None,
            Some(d) => Some((s.subrange(h.0, h.1), s.subrange(h.1 + 1, d), ret_text(s, d))),
        },
    }
}

/// The signature a line describes, if it describes one.
#[verifier::opaque]
pub open spec fn sig_model(line: Seq<char>) -> Option<SigModel> {
    match sig_parts(trim(line)) {
        None => None,
        Some(p) => Some(
            (
                p.0,
                params_model(p.1),
                match p.2 {
                    Some(r) => trim(r),
                    None => "()"@,
                },
            ),
        ),
    }
}

fn skip_space_index(s: &[char], i: usize) -> (r: usize)
    requires
        i <= s@.len(),
    ensures
        r == skip_sig_space(s@, i as int),
        i <= r <= s@.len(),
{
    proof {
        lemma_skip_space(s@, i as int);
    }
    let mut j = i;
    while j < s.len() && (s[j] == '\t' || s[j] == '\n' || s[j] == '\x0B' || s[j] == '\x0C' || s[j] == '\r' || s[j] == ' ')
        invariant
            i <= j <= s@.len(),
            skip_sig_space(s@, i as int) == skip_sig_space(s@, j as int),
        decreases s@.len() - j,
    {
        j = j + 1;
    }
    j
}

fn is_ident_char(c: char) -> (r: bool)
    ensures
        r == ident_char(c),
{
    ('a' <= c && c <= 'z') || ('A' <= c && c <= 'Z') || c == '_' || ('0' <= c && c <= '9')
}

fn keyword_end_index(s: &[char]) -> (r: Option<usize>)
    ensures
        r is None <==> keyword_end(s@) < 0,
        r matches Some(k) ==> k == keyword_end(s@) && k <= s@.len(),
{
    if crate::text::starts_with_str(s, "fn") {
        proof {
            reveal_strlit("fn");
        }
        Some(2)
    } else if crate::text::starts_with_str(s, "def") {
        proof {
            reveal_strlit("def");
        }
        Some(3)
    } else if crate::text::starts_with_str(s, "function") {
        proof {
            reveal_strlit("function");
        }
        Some(8)
    } else {
        None
    }
}

fn sig_head_of(s: &[char]) -> (r: Option<(usize, usize)>)
    ensures
        (match r {
            Some(h) => Some((h.0 as int, h.1 as int)),
            None => None,
        }) == sig_head(s@),
        r matches Some(h) ==> h.0 <= h.1 < s@.len(),
{
    let n = s.len();
    let a = match keyword_end_index(s) {
        Some(a) => a,
        None => {
            return None;
        },
    };
    if a >= n || !(s[a] == '\t' || s[a] == '\n' || s[a] == '\x0B' || s[a] == '\x0C' || s[a] == '\r' || s[a] == ' ') {
        return None;
    }
    let b = skip_space_index(s, a);
    if b >= n || !(('a' <= s[b] && s[b] <= 'z') || ('A' <= s[b] && s[b] <= 'Z') || s[b] == '_') {
        return None;
    }
    proof {
        lemma_skip_ident(s@, b + 1);
    }
    let mut c = b + 1;
    while c < n && is_ident_char(s[c])
        invariant
            b + 1 <= c <= n == s@.len(),
            skip_ident(s@, b + 1) == skip_ident(s@, c as int),
        decreases n - c,
    {
        c = c + 1;
    }
    if c >= n || s[c] != '(' {
        return None;
    }
    Some((b, c))
}

fn ret_text_of(s: &[char], d: usize) -> (r: Option<Vec<char>>)
    requires
        d < s@.len(),
    ensures
        (match r {
            Some(x) => Some(x@),
            None => None,
        }) == ret_text(s@, d as int),
{
    let n = s.len();
    let e = skip_space_index(s, d + 1);
    let f = if e < n && s[e] == ':' { skip_space_index(s, e + 1) } else { e };
    if f < n && n - f > 1 && s[f] == '-' && s[f + 1] == '>' {
        let g = skip_space_index(s, f + 2);
        if g < n {
            let mut h = g;
            proof {
                crate::text::lemma_next_nl_bounds(s@, g as int);
            }
            while h < n && s[h] != '\n'
                invariant
                    g <= h <= n == s@.len(),
                    next_nl(s@, g as int) == next_nl(s@, h as int),
                decreases n - h,
            {
                h = h + 1;
            }
            Some(slice_chars(s, g, h))
        } else {
            None
        }
    } else {
        None
    }
}

/// The parts of a signature line.
fn sig_parts_of(s: &[char]) -> (r: Option<(Vec<char>, Vec<char>, Option<Vec<char>>)>)
    ensures
        (match r {
            Some(p) => Some(
                (
                    p.0@,
                    p.1@,
                    match p.2 {
                        Some(x) => Some(x@),
                        None => None,
                    },
                ),
            ),
            None => None,
        }) == sig_parts(s@),
{
    proof {
        reveal(sig_parts);
    }
    let n = s.len();
    let (b, c) = match sig_head_of(s) {
        Some(h) => h,
        None => {
            return None;
        },
    };
    let close: Vec<char> = vec![')'];
    proof {
        assert(close@ =~= seq![')']);
    }
    let d = match crate::text::find_from(s, close.as_slice(), c + 1) {
        Some(d) => d,
        None => {
            return None;
        },
    };
    let ret = ret_text_of(s, d);
    Some((slice_chars(s, b, c), slice_chars(s, c + 1, d), ret))
}

/// Reads one line as a function signature, if it is one.
pub fn parse_function_sig(line: &str) -> (r: Option<FunctionSig>)
    ensures
        (match r {
            Some(f) => Some(sig_view(f)),
            None => None,
        }) == sig_model(line@),
{
    proof {
        reveal(sig_model);
    }
    let lv = chars_of(line);
    let t = trim_chars(lv.as_slice());
    match sig_parts_of(t.as_slice()) {
        None => None,
        Some((name, params, ret)) => {
            let ps = string_of(params.as_slice());
            let return_type = match ret {
                Some(r) => string_of(trim_chars(r.as_slice()).as_slice()),
                None => "()".to_owned(),
            };
            Some(FunctionSig { name: string_of(name.as_slice()), params: parse_params(ps.as_str()), return_type })
        },
    }
}

// ───────────────────────── contract documents ─────────────────────────

/// `str::split` with a string pattern: the pieces between the occurrences
/// found from left to right, from `start`, scanning at `i`.
pub open spec fn split_from(s: Seq<char>, sep: Seq<char>, start: int, i: int) -> Seq<Seq<char>>
    decreases s.len() - i,
{
    if sep.len() == 0 || i < start || start < 0 || i + sep.len() > s.len() {
        seq![s.subrange(start, s.len() as int)]
    } else if crate::text::occurs_at(s, sep, i) {
        seq![s.subrange(start, i)] + split_from(s, sep, i + sep.len(), i + sep.len())
    } else {
        split_from(s, sep, start, i + 1)
    }
}

/// The pieces of `s` between the fences ```` ``` ````.
pub open spec fn fence_pieces(s: Seq<char>) -> Seq<Seq<char>> {
    split_from(s, "```"@, 0, 0)
}

/// A code block without its first line (the language tag), when it has a line break.
pub open spec fn block_body(b: Seq<char>) -> Seq<char> {
    match first_occ_from(b, seq!['\n'], 0) {
        Some(k) => b.skip(k + 1),
        None => b,
    }
}

/// The signatures on the given lines, in order.
pub open spec fn sigs_in_lines(ls: Seq<Seq<char>>) -> Seq<SigModel>
    decreases ls.len(),
{
    if ls.len() == 0 {
        Seq::empty()
    } else {
        match sig_model(trim(ls.last())) {
            Some(m) => sigs_in_lines(ls.drop_last()).push(m),
            None => sigs_in_lines(ls.drop_last()),
        }
    }
}

/// The signatures in the code blocks (odd pieces) or in the text (even
/// pieces) among the first pieces.
#[verifier::opaque]
pub open spec fn piece_sigs(ps: Seq<Seq<char>>, code: bool) -> Seq<SigModel>
    decreases ps.len(),
{
    if ps.len() == 0 {
        Seq::empty()
    } else {
        let k = ps.len() - 1;
        let before = piece_sigs(ps.drop_last(), code);
        if code && k % 2 == 1 {
            before + sigs_in_lines(lines(block_body(ps.last())))
        } else if !code && k % 2 == 0 {
            before + sigs_in_lines(lines(ps.last()))
        } else {
            before
        }
    }
}

proof fn lemma_piece_sigs_step(ps: Seq<Seq<char>>, i: int, code: bool)
    requires
        0 <= i < ps.len(),
    ensures
        piece_sigs(ps.take(i + 1), code) == piece_sigs(ps.take(i), code) + (if code && i % 2 == 1 {
            sigs_in_lines(lines(block_body(ps[i])))
        } else if !code && i % 2 == 0 {
            sigs_in_lines(lines(ps[i]))
        } else {
            Seq::<SigModel>::empty()
        }),
{
    reveal(piece_sigs);
    assert(ps.take(i + 1).drop_last() =~= ps.take(i));
    assert(ps.take(i + 1).last() == ps[i]);
    if !(code && i % 2 == 1) && !(!code && i % 2 == 0) {
        assert(piece_sigs(ps.take(i), code) + Seq::<SigModel>::empty() =~= piece_sigs(ps.take(i), code));
    }
}

proof fn lemma_piece_sigs_empty(code: bool)
    ensures
        piece_sigs(Seq::<Seq<char>>::empty(), code) == Seq::<SigModel>::empty(),
{
    reveal(piece_sigs);
}

/// Some signature has the name `n`.
pub open spec fn has_name(sigs: Seq<SigModel>, n: Seq<char>) -> bool {
    exists|j: int| 0 <= j < sigs.len() && (#[trigger] sigs[j]).0 == n
}

/// `acc` followed by the candidates whose name is not yet present, in order.
pub open spec fn add_new(acc: Seq<SigModel>, cands: Seq<SigModel>) -> Seq<SigModel>
    decreases cands.len(),
{
    if cands.len() == 0 {
        acc
    } else {
        let a = add_new(acc, cands.drop_last());
        if has_name(a, cands.last().0) {
            a
        } else {
            a.push(cands.last())
        }
    }
}

/// The signatures a contract document promises: those in code blocks, then
/// those in the text whose names are new.
pub open spec fn contract_sigs(body: Seq<char>) -> Seq<SigModel> {
    let ps = fence_pieces(body);
    add_new(piece_sigs(ps, true), piece_sigs(ps, false))
}

/// The pieces of `s` between the fences.
fn split_fences(s: &[char]) -> (r: Vec<Vec<char>>)
    ensures
        r.deep_view() == fence_pieces(s@),
{
    let sep = chars_of("```");
    proof {
        reveal_strlit("```");
    }
    let n = s.len();
    let mut out: Vec<Vec<char>> = Vec::new();
    let mut start: usize = 0;
    let mut i: usize = 0;
    while n >= 3 && i <= n - 3
        invariant
            sep@ == "```"@,
            sep@.len() == 3,
            n == s@.len(),
            start <= i <= n,
            out.deep_view() + split_from(s@, sep@, start as int, i as int) == split_from(s@, sep@, 0, 0),
        decreases n - i,
    {
        if crate::text::matches_at(s, sep.as_slice(), i) {
            let piece = slice_chars(s, start, i);
            let ghost before = out.deep_view();
            push_line(&mut out, piece);
            proof {
                assert(out.deep_view() + split_from(s@, sep@, (i + 3) as int, (i + 3) as int) =~= before
                    + split_from(s@, sep@, start as int, i as int));
            }
            start = i + 3;
            i = i + 3;
        } else {
            i = i + 1;
        }
    }
    let last = slice_chars(s, start, n);
    let ghost before = out.deep_view();
    push_line(&mut out, last);
    proof {
        assert(out.deep_view() =~= before + split_from(s@, sep@, start as int, i as int));
    }
    out
}

/// Adds the signatures found on the given lines to `out`; when `only_new`,
/// a signature whose name is already present is skipped.
fn collect_sigs(out: &mut Vec<FunctionSig>, text: &[char], only_new: bool)
    ensures
        only_new ==> sig_views(final(out)@) == add_new(sig_views(old(out)@), sigs_in_lines(lines(text@))),
        !only_new ==> sig_views(final(out)@) == sig_views(old(out)@) + sigs_in_lines(lines(text@)),
{
    let ls = split_lines(text);
    let ghost base = sig_views(out@);
    let mut i: usize = 0;
    proof {
        assert(ls.deep_view().take(0) =~= Seq::<Seq<char>>::empty());
        assert(base + Seq::<SigModel>::empty() =~= base);
    }
    while i < ls.len()
        invariant
            i <= ls@.len(),
            ls.deep_view() == lines(text@),
            only_new ==> sig_views(out@) == add_new(base, sigs_in_lines(ls.deep_view().take(i as int))),
            !only_new ==> sig_views(out@) == base + sigs_in_lines(ls.deep_view().take(i as int)),
        decreases ls@.len() - i,
    {
        proof {
            lemma_chars_deep_view(ls@[i as int]);
            assert(ls.deep_view()[i as int] == ls@[i as int]@);
            assert(ls.deep_view().take(i + 1).drop_last() =~= ls.deep_view().take(i as int));
        }
        let t = trim_chars(ls[i].as_slice());
        let ts = string_of(t.as_slice());
        let ghost prev = sig_views(out@);
        let ghost l0 = sigs_in_lines(ls.deep_view().take(i as int));
        let ghost l1 = sigs_in_lines(ls.deep_view().take(i + 1));
        match parse_function_sig(ts.as_str()) {
            Some(sig) => {
                let mut present = false;
                if only_new {
                    let mut j: usize = 0;
                    while j < out.len()
                        invariant
                            j <= out@.len(),
                            present == (exists|k: int| 0 <= k < j && out@[k].name@ == sig.name@),
                        decreases out@.len() - j,
                    {
                        if out[j].name == sig.name {
                            present = true;
                        }
                        j = j + 1;
                    }
                    proof {
                        if present {
                            let k = choose|k: int| 0 <= k < out@.len() && out@[k].name@ == sig.name@;
                            assert(sig_views(out@)[k].0 == sig.name@);
                        }
                        if has_name(sig_views(out@), sig.name@) {
                            let k = choose|k: int| 0 <= k < sig_views(out@).len() && (#[trigger] sig_views(out@)[k]).0
                                == sig.name@;
                            assert(out@[k].name@ == sig.name@);
                        }
                    }
                }
                let ghost sv = sig_view(sig);
                proof {
                    assert(l1 == l0.push(sv));
                    if only_new {
                        assert(l1.drop_last() =~= l0);
                        assert(add_new(base, l1) == (if has_name(add_new(base, l0), sv.0) {
                            add_new(base, l0)
                        } else {
                            add_new(base, l0).push(sv)
                        }));
                    }
                }
                if !present {
                    out.push(sig);
                    proof {
                        assert(sig_views(out@) =~= prev.push(sv));
                    }
                }
                proof {
                    if !only_new {
                        assert(base + l1 =~= (base + l0).push(sv));
                    }
                }
            },
            None => {
                proof {
                    assert(l1 == l0);
                }
            },
        }
        i = i + 1;
        proof {
            if !only_new {
                assert(sig_views(out@) =~= base + sigs_in_lines(ls.deep_view().take(i as int)));
            }
        }
    }
    proof {
        assert(ls.deep_view().take(i as int) =~= ls.deep_view());
    }
}

/// A code block without its language-tag line.
fn block_body_of(block: &[char], nl: &Vec<char>) -> (r: Vec<char>)
    requires
        nl@ == seq!['\n'],
    ensures
        r@ == block_body(block@),
{
    let n = block.len();
    match find(block, nl.as_slice()) {
        Some(k) => {
            proof {
                assert(crate::text::occurs_at(block@, nl@, k as int));
            }
            let r = slice_chars(block, k + 1, n);
            proof {
                assert(r@ =~= block@.skip(k + 1));
            }
            r
        },
        None => {
            let r = slice_chars(block, 0, n);
            proof {
                assert(r@ =~= block@);
            }
            r
        },
    }
}

/// Reads the signatures a contract document promises.
pub fn parse_contract(body: &str) -> (r: ContractSpec)
    ensures
        sig_views(r.functions@) == contract_sigs(body@),
        r.classes@.len() == 0,
{
    let bv = chars_of(body);
    let pieces = split_fences(bv.as_slice());
    let ghost ps = pieces.deep_view();
    let mut functions: Vec<FunctionSig> = Vec::new();
    let nl: Vec<char> = vec!['\n'];
    proof {
        assert(nl@ =~= seq!['\n']);
        assert(sig_views(functions@) =~= Seq::<SigModel>::empty());
        assert(ps.take(0) =~= Seq::<Seq<char>>::empty());
        lemma_piece_sigs_empty(true);
        lemma_piece_sigs_empty(false);
    }
    let mut i: usize = 0;
    while i < pieces.len()
        invariant
            i <= pieces@.len(),
            ps == pieces.deep_view(),
            nl@ == seq!['\n'],
            sig_views(functions@) == piece_sigs(ps.take(i as int), true),
        decreases pieces@.len() - i,
    {
        proof {
            lemma_chars_deep_view(pieces@[i as int]);
            assert(ps[i as int] == pieces@[i as int]@);
            lemma_piece_sigs_step(ps, i as int, true);
        }
        if i % 2 == 1 {
            let body_v = block_body_of(pieces[i].as_slice(), &nl);
            collect_sigs(&mut functions, body_v.as_slice(), false);
        } else {
            proof {
                assert(sig_views(functions@) + Seq::<SigModel>::empty() =~= sig_views(functions@));
            }
        }
        i = i + 1;
    }
    proof {
        assert(ps.take(i as int) =~= ps);
    }
    let ghost code = sig_views(functions@);
    let mut k: usize = 0;
    proof {
        assert(add_new(code, Seq::<SigModel>::empty()) == code);
    }
    while k < pieces.len()
        invariant
            k <= pieces@.len(),
            ps == pieces.deep_view(),
            code == piece_sigs(ps, true),
            sig_views(functions@) == add_new(code, piece_sigs(ps.take(k as int), false)),
        decreases pieces@.len() - k,
    {
        proof {
            lemma_chars_deep_view(pieces@[k as int]);
            assert(ps[k as int] == pieces@[k as int]@);
            lemma_piece_sigs_step(ps, k as int, false);
        }
        if k % 2 == 0 {
            let ghost before = piece_sigs(ps.take(k as int), false);
            collect_sigs(&mut functions, pieces[k].as_slice(), true);
            proof {
                lemma_add_new_concat(code, before, sigs_in_lines(lines(ps[k as int])));
            }
        } else {
            proof {
                assert(piece_sigs(ps.take(k as int), false) + Seq::<SigModel>::empty() =~= piece_sigs(
                    ps.take(k as int),
                    false,
                ));
            }
        }
        k = k + 1;
    }
    proof {
        assert(ps.take(k as int) =~= ps);
    }
    ContractSpec { functions, classes: Vec::new() }
}

proof fn lemma_add_new_concat(acc: Seq<SigModel>, a: Seq<SigModel>, b: Seq<SigModel>)
    ensures
        add_new(add_new(acc, a), b) == add_new(acc, a + b),
    decreases b.len(),
{
    if b.len() == 0 {
        assert(a + b =~= a);
    } else {
        lemma_add_new_concat(acc, a, b.drop_last());
        assert((a + b).drop_last() =~= a + b.drop_last());
        assert((a + b).last() == b.last());
    }
}

proof fn lemma_sigs_in_lines_has(ls: Seq<Seq<char>>, j: int, m: SigModel)
    requires
        0 <= j < ls.len(),
        sig_model(trim(ls[j])) == Some(m),
    ensures
        sigs_in_lines(ls).contains(m),
    decreases ls.len(),
{
    let s = sigs_in_lines(ls);
    if j == ls.len() - 1 {
        assert(ls.last() == ls[j]);
        assert(s[s.len() - 1] == m);
    } else {
        let init = ls.drop_last();
        assert(init[j] == ls[j]);
        lemma_sigs_in_lines_has(init, j, m);
        let b = sigs_in_lines(init);
        let w = choose|w: int| 0 <= w < b.len() && b[w] == m;
        assert(s[w] == b[w]);
    }
}

proof fn lemma_piece_sigs_has(ps: Seq<Seq<char>>, k: int, code: bool, x: SigModel)
    requires
        0 <= k < ps.len(),
        if code {
            k % 2 == 1 && sigs_in_lines(lines(block_body(ps[k]))).contains(x)
        } else {
            k % 2 == 0 && sigs_in_lines(lines(ps[k])).contains(x)
        },
    ensures
        piece_sigs(ps, code).contains(x),
    decreases ps.len(),
{
    reveal(piece_sigs);
    let before = piece_sigs(ps.drop_last(), code);
    let all = piece_sigs(ps, code);
    if k == ps.len() - 1 {
        assert(ps.last() == ps[k]);
        let extra = if code {
            sigs_in_lines(lines(block_body(ps[k])))
        } else {
            sigs_in_lines(lines(ps[k]))
        };
        assert(all == before + extra);
        let w = choose|w: int| 0 <= w < extra.len() && extra[w] == x;
        assert(all[before.len() + w] == x);
    } else {
        let init = ps.drop_last();
        assert(init[k] == ps[k]);
        lemma_piece_sigs_has(init, k, code, x);
        let w = choose|w: int| 0 <= w < before.len() && before[w] == x;
        assert(all.len() >= before.len() && all[w] == before[w]);
    }
}

proof fn lemma_add_new_has(acc: Seq<SigModel>, cands: Seq<SigModel>)
    ensures
        forall|x: SigModel| #[trigger] acc.contains(x) ==> add_new(acc, cands).contains(x),
        forall|x: SigModel| #[trigger] cands.contains(x) ==> has_name(add_new(acc, cands), x.0),
    decreases cands.len(),
{
    if cands.len() > 0 {
        let init = cands.drop_last();
        lemma_add_new_has(acc, init);
        let a = add_new(acc, init);
        let r = add_new(acc, cands);
        assert forall|x: SigModel| #[trigger] a.contains(x) implies r.contains(x) by {
            let w = choose|w: int| 0 <= w < a.len() && a[w] == x;
            assert(r[w] == a[w]);
        }
        assert forall|x: SigModel| #[trigger] cands.contains(x) implies has_name(r, x.0) by {
            let w = choose|w: int| 0 <= w < cands.len() && cands[w] == x;
            if w < cands.len() - 1 {
                assert(init[w] == x);
                assert(init.contains(x));
                let v = choose|v: int| 0 <= v < a.len() && (#[trigger] a[v]).0 == x.0;
                assert(r[v] == a[v]);
            } else if !has_name(a, x.0) {
                assert(r[a.len() as int] == x);
            } else {
                let v = choose|v: int| 0 <= v < a.len() && (#[trigger] a[v]).0 == x.0;
                assert(r[v] == a[v]);
            }
        }
    }
}

/// A signature written in the text, outside every code block, is promised
/// by the contract: the contract holds a function of that name (the one
/// from a code block, or the first such line, when the name occurs before).
pub proof fn law_text_signatures_are_promised(body: Seq<char>, k: int, j: int, m: SigModel)
    requires
        0 <= k < fence_pieces(body).len(),
        k % 2 == 0,
        0 <= j < lines(fence_pieces(body)[k]).len(),
        sig_model(trim(lines(fence_pieces(body)[k])[j])) == Some(m),
    ensures
        has_name(contract_sigs(body), m.0),
{
    let ps = fence_pieces(body);
    lemma_sigs_in_lines_has(lines(ps[k]), j, m);
    lemma_piece_sigs_has(ps, k, false, m);
    lemma_add_new_has(piece_sigs(ps, true), piece_sigs(ps, false));
}

/// A signature written in a code block is promised by the contract as it
/// is written.
pub proof fn law_code_signatures_are_promised(body: Seq<char>, k: int, j: int, m: SigModel)
    requires
        0 <= k < fence_pieces(body).len(),
        k % 2 == 1,
        0 <= j < lines(block_body(fence_pieces(body)[k])).len(),
        sig_model(trim(lines(block_body(fence_pieces(body)[k]))[j])) == Some(m),
    ensures
        contract_sigs(body).contains(m),
{
    let ps = fence_pieces(body);
    lemma_sigs_in_lines_has(lines(block_body(ps[k])), j, m);
    lemma_piece_sigs_has(ps, k, true, m);
    lemma_add_new_has(piece_sigs(ps, true), piece_sigs(ps, false));
}

proof fn lemma_split_unbroken(s: Seq<char>, sep: Seq<char>, i: int)
    requires
        sep.len() > 0,
        0 <= i,
        forall|q: int| i <= q ==> !crate::text::occurs_at(s, sep, q),
    ensures
        split_from(s, sep, 0, i) == seq![s.subrange(0, s.len() as int)],
    decreases s.len() - i,
{
    if i + sep.len() <= s.len() {
        lemma_split_unbroken(s, sep, i + 1);
    }
}

/// A contract with no code fence is all text: each line of it that is a
/// signature is promised by the contract under its name.
pub proof fn law_unfenced_signatures_are_promised(body: Seq<char>, j: int, m: SigModel)
    requires
        !has_sub(body, "```"@),
        0 <= j < lines(body).len(),
        sig_model(trim(lines(body)[j])) == Some(m),
    ensures
        has_name(contract_sigs(body), m.0),
{
    reveal_strlit("```");
    lemma_split_unbroken(body, "```"@, 0);
    assert(body.subrange(0, body.len() as int) =~= body);
    assert(fence_pieces(body) == seq![body]);
    law_text_signatures_are_promised(body, 0, j, m);
}

} // verus!
