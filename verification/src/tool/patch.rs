//! SEARCH/REPLACE patches: reading the blocks of a patch and applying
//! them, in order, to a file's content.
//!
//! A block reads
//! `<<<<<<< SEARCH` (optionally followed by a newline), the text to find,
//! a separator line `=======`, the replacement and `>>>>>>> REPLACE`.
//! Positions are taken in bytes, as the parser slices its input: the cut
//! after the separator lands one byte past it, so the character right after
//! the separator line is dropped from the replacement, and the parser
//! cannot continue when that character is not a single byte.
use crate::text::{
    char_bytes, char_len_utf8, chars_of, lemma_first_occ_found, count_from, count_matches, decimal, find,
    first_occ_from, floor_prefix, floor_prefix_chars, fmt_u128, fmt_u64, occurs_at, push_all,
    push_str, replace_first, replace_first_chars, slice_chars, starts_with, starts_with_at,
    string_of, utf8_len, utf8_len_of,
};
use crate::tool::output::{refuses, Refusal};
use vstd::prelude::*;

verus! {

pub open spec fn search_marker() -> Seq<char> {
    "<<<<<<< SEARCH"@
}

pub open spec fn separator() -> Seq<char> {
    "\n=======\n"@
}

pub open spec fn bare_separator() -> Seq<char> {
    "=======\n"@
}

pub open spec fn end_marker() -> Seq<char> {
    "\n>>>>>>> REPLACE"@
}

pub open spec fn no_separator_msg() -> Seq<char> {
    "SEARCH/REPLACE block missing '=======' separator."@
}

pub open spec fn no_end_msg() -> Seq<char> {
    "SEARCH/REPLACE block missing '>>>>>>> REPLACE' end marker."@
}

pub open spec fn no_blocks_msg() -> Seq<char> {
    "No SEARCH/REPLACE blocks found. Format:\n<<<<<<< SEARCH\nold text\n=======\nnew text\n>>>>>>> REPLACE"@
}

/// How the text after a SEARCH marker divides at the separator.
pub enum Split {
    /// The text to find, and what follows the cut after the separator.
    At(Seq<char>, Seq<char>),
    NoSeparator,
    /// The cut after the separator does not fall on a character boundary.
    Undefined,
}

/// The text to find ends at the first `\n=======\n`; when there is none and
/// the text opens with `=======\n`, the text to find is empty. The cut is
/// made one byte past the separator.
#[verifier::opaque]
pub open spec fn split_body(body: Seq<char>) -> Split {
    match first_occ_from(body, separator(), 0) {
        Some(k) => {
            let c = k + separator().len();
            if c < body.len() && char_bytes(body[c]) == 1 {
                Split::At(body.take(k), body.skip(c + 1))
            } else {
                Split::Undefined
            }
        },
        None => if starts_with(body, bare_separator()) {
            let c = bare_separator().len() as int;
            if c < body.len() && char_bytes(body[c]) == 1 {
                Split::At(Seq::empty(), body.skip(c + 1))
            } else {
                Split::Undefined
            }
        } else {
            Split::NoSeparator
        },
    }
}

/// One step of the parser on the remaining input.
pub enum Step {
    Done,
    /// The text to find, its replacement, and the input left after the block.
    Block(Seq<char>, Seq<char>, Seq<char>),
    NoSeparator,
    NoEnd,
    Undefined,
}

/// The text after the SEARCH marker found at `i`, without the newline
/// that may follow the marker.
pub open spec fn body_after_marker(r: Seq<char>, i: int) -> Seq<char> {
    let after = r.skip(i + search_marker().len());
    if after.len() > 0 && after[0] == '\n' {
        after.skip(1)
    } else {
        after
    }
}

/// The block ending at the first end marker of `rest`; the input left after
/// it starts at the last character of that marker.
#[verifier::opaque]
pub open spec fn block_tail(search: Seq<char>, rest: Seq<char>) -> Step {
    match first_occ_from(rest, end_marker(), 0) {
        Some(e) => Step::Block(search, rest.take(e), rest.skip(e + end_marker().len() - 1)),
        None => Step::NoEnd,
    }
}

/// The next block of the remaining input `r`.
#[verifier::opaque]
pub open spec fn next_block(r: Seq<char>) -> Step {
    match first_occ_from(r, search_marker(), 0) {
        None => Step::Done,
        Some(i) => match split_body(body_after_marker(r, i)) {
            Split::At(search, rest) => block_tail(search, rest),
            Split::NoSeparator => Step::NoSeparator,
            Split::Undefined => Step::Undefined,
        },
    }
}

pub proof fn lemma_split_shorter(body: Seq<char>)
    ensures
        split_body(body) matches Split::At(_, rest) ==> rest.len() <= body.len(),
{
    reveal(split_body);
    lemma_first_occ_found(body, separator(), 0);
}

proof fn lemma_marker_lens()
    ensures
        search_marker().len() == 14,
        end_marker().len() == 16,
{
    reveal_strlit("<<<<<<< SEARCH");
    reveal_strlit("\n>>>>>>> REPLACE");
}

proof fn lemma_body_shorter(r: Seq<char>, i: int)
    requires
        occurs_at(r, search_marker(), i),
    ensures
        body_after_marker(r, i).len() < r.len(),
{
    lemma_marker_lens();
}

proof fn lemma_tail_shorter(search: Seq<char>, rest: Seq<char>)
    ensures
        block_tail(search, rest) matches Step::Block(_, _, n) ==> n.len() <= rest.len(),
{
    reveal(block_tail);
    lemma_marker_lens();
    lemma_first_occ_found(rest, end_marker(), 0);
}

pub proof fn lemma_next_block_shorter(r: Seq<char>)
    ensures
        next_block(r) matches Step::Block(_, _, n) ==> n.len() < r.len(),
{
    reveal(next_block);
    lemma_first_occ_found(r, search_marker(), 0);
    if let Some(i) = first_occ_from(r, search_marker(), 0) {
        let body = body_after_marker(r, i);
        lemma_body_shorter(r, i);
        lemma_split_shorter(body);
        if let Split::At(search, rest) = split_body(body) {
            lemma_tail_shorter(search, rest);
        }
    }
}

/// What parsing gives.
pub enum Parse {
    Blocks(Seq<(Seq<char>, Seq<char>)>),
    Failed(Seq<char>),
    Undefined,
}

/// The blocks of the remaining input, in order.
pub open spec fn blocks_from(r: Seq<char>) -> Parse
    decreases r.len(),
{
    match next_block(r) {
        Step::Done => Parse::Blocks(Seq::empty()),
        Step::Block(s, rep, n) => {
            proof {
                lemma_next_block_shorter(r);
            }
            match blocks_from(n) {
                Parse::Blocks(bs) => Parse::Blocks(seq![(s, rep)] + bs),
                other => other,
            }
        },
        Step::NoSeparator => Parse::Failed(no_separator_msg()),
        Step::NoEnd => Parse::Failed(no_end_msg()),
        Step::Undefined => Parse::Undefined,
    }
}

/// The blocks of a patch; a patch without any block is refused.
pub open spec fn parsed_blocks(input: Seq<char>) -> Parse {
    match blocks_from(input) {
        Parse::Blocks(bs) => if bs.len() == 0 {
            Parse::Failed(no_blocks_msg())
        } else {
            Parse::Blocks(bs)
        },
        other => other,
    }
}

/// The characters of each (search, replace) pair.
pub open spec fn block_views(v: Seq<(String, String)>) -> Seq<(Seq<char>, Seq<char>)> {
    Seq::new(v.len(), |i: int| (v[i].0@, v[i].1@))
}

pub open spec fn prepend(bs: Seq<(Seq<char>, Seq<char>)>, p: Parse) -> Parse {
    match p {
        Parse::Blocks(x) => Parse::Blocks(bs + x),
        other => other,
    }
}

enum StepRun {
    Done,
    Block(Vec<char>, Vec<char>, Vec<char>),
    NoSeparator,
    NoEnd,
    Undefined,
}

spec fn step_agrees(s: StepRun, t: Step) -> bool {
    match t {
        Step::Done => s is Done,
        Step::Block(a, b, c) => s matches StepRun::Block(x, y, z) && x@ == a && y@ == b && z@ == c,
        Step::NoSeparator => s is NoSeparator,
        Step::NoEnd => s is NoEnd,
        Step::Undefined => s is Undefined,
    }
}

#[verifier::spinoff_prover]
#[verifier::rlimit(60)]
fn split_run(body: &Vec<char>) -> (r: (Option<(Vec<char>, Vec<char>)>, bool))
    ensures
        match split_body(body@) {
            Split::At(a, b) => r.0 matches Some(p) && p.0@ == a && p.1@ == b,
            Split::NoSeparator => r.0 is None && !r.1,
            Split::Undefined => r.0 is None && r.1,
        },
{
    reveal(split_body);
    let sep = chars_of("\n=======\n");
    match find(body.as_slice(), sep.as_slice()) {
        Some(k) => {
            let n = body.len();
            proof {
                assert(occurs_at(body@, sep@, k as int));
            }
            let c = k + sep.len();
            if c < body.len() && char_len_utf8(body[c]) == 1 {
                let a = slice_chars(body.as_slice(), 0, k);
                let b = slice_chars(body.as_slice(), c + 1, body.len());
                proof {
                    assert(a@ =~= body@.take(k as int));
                    assert(b@ =~= body@.skip(c + 1));
                }
                (Some((a, b)), false)
            } else {
                (None, true)
            }
        },
        None => {
            let bs = chars_of("=======\n");
            if starts_with_at(body.as_slice(), bs.as_slice()) {
                let c = bs.len();
                if c < body.len() && char_len_utf8(body[c]) == 1 {
                    let a: Vec<char> = Vec::new();
                    let b = slice_chars(body.as_slice(), c + 1, body.len());
                    proof {
                        assert(a@ =~= Seq::<char>::empty());
                        assert(b@ =~= body@.skip(c + 1));
                    }
                    (Some((a, b)), false)
                } else {
                    (None, true)
                }
            } else {
                (None, false)
            }
        },
    }
}

#[verifier::spinoff_prover]
fn body_run(r: &Vec<char>, i: usize) -> (b: Vec<char>)
    requires
        occurs_at(r@, search_marker(), i as int),
    ensures
        b@ == body_after_marker(r@, i as int),
{
    let n = r.len();
    let m = chars_of("<<<<<<< SEARCH");
    let after = slice_chars(r.as_slice(), i + m.len(), n);
    proof {
        assert(after@ =~= r@.skip(i + search_marker().len()));
    }
    if after.len() > 0 && after[0] == '\n' {
        let b = slice_chars(after.as_slice(), 1, after.len());
        proof {
            assert(b@ =~= after@.skip(1));
        }
        b
    } else {
        after
    }
}

#[verifier::spinoff_prover]
#[verifier::rlimit(60)]
fn tail_run(search: Vec<char>, rest: &Vec<char>) -> (out: StepRun)
    ensures
        step_agrees(out, block_tail(search@, rest@)),
{
    reveal(block_tail);
    let em = chars_of("\n>>>>>>> REPLACE");
    proof {
        lemma_marker_lens();
    }
    match find(rest.as_slice(), em.as_slice()) {
        Some(e) => {
            let n = rest.len();
            proof {
                assert(occurs_at(rest@, em@, e as int));
            }
            let rep = slice_chars(rest.as_slice(), 0, e);
            let next = slice_chars(rest.as_slice(), e + em.len() - 1, n);
            proof {
                assert(rep@ =~= rest@.take(e as int));
                assert(next@ =~= rest@.skip(e + end_marker().len() - 1));
            }
            StepRun::Block(search, rep, next)
        },
        None => StepRun::NoEnd,
    }
}

#[verifier::spinoff_prover]
#[verifier::rlimit(60)]
fn step_run(r: &Vec<char>) -> (out: StepRun)
    ensures
        step_agrees(out, next_block(r@)),
{
    reveal(next_block);
    let m = chars_of("<<<<<<< SEARCH");
    match find(r.as_slice(), m.as_slice()) {
        None => StepRun::Done,
        Some(i) => {
            let body = body_run(r, i);
            let (split, undefined) = split_run(&body);
            match split {
                Some((search, rest)) => tail_run(search, &rest),
                None => if undefined {
                    StepRun::Undefined
                } else {
                    StepRun::NoSeparator
                },
            }
        },
    }
}

/// The outcome of running the parser.
#[derive(Debug)]
pub enum ParseRun {
    Blocks(Vec<(String, String)>),
    Failed(String),
    /// The parser could not slice the input (see the module notes).
    Undefined,
}

fn run_parse(input: &str) -> (r: ParseRun)
    ensures
        match parsed_blocks(input@) {
            Parse::Blocks(bs) => r matches ParseRun::Blocks(v) && block_views(v@) == bs,
            Parse::Failed(m) => r matches ParseRun::Failed(s) && s@ == m,
            Parse::Undefined => r is Undefined,
        },
{
    let mut rem = chars_of(input);
    let mut out: Vec<(String, String)> = Vec::new();
    proof {
        assert(block_views(out@) =~= Seq::<(Seq<char>, Seq<char>)>::empty());
        assert(prepend(block_views(out@), blocks_from(rem@)) =~= blocks_from(input@));
    }
    loop
        invariant
            blocks_from(input@) == prepend(block_views(out@), blocks_from(rem@)),
        ensures
            blocks_from(input@) == Parse::Blocks(block_views(out@)),
        decreases rem@.len(),
    {
        let st = step_run(&rem);
        proof {
            lemma_next_block_shorter(rem@);
        }
        match st {
            StepRun::Done => {
                proof {
                    assert(blocks_from(rem@) == Parse::Blocks(Seq::<(Seq<char>, Seq<char>)>::empty()));
                    assert(block_views(out@) + Seq::<(Seq<char>, Seq<char>)>::empty() =~= block_views(out@));
                }
                break ;
            },
            StepRun::Block(s, rep, next) => {
                let ghost before = block_views(out@);
                let ghost b = (s@, rep@);
                out.push((string_of(s.as_slice()), string_of(rep.as_slice())));
                proof {
                    assert(block_views(out@) =~= before.push(b));
                    match blocks_from(next@) {
                        Parse::Blocks(x) => {
                            assert(before + (seq![b] + x) =~= before.push(b) + x);
                        },
                        _ => {},
                    }
                }
                rem = next;
            },
            StepRun::NoSeparator => {
                let m = chars_of("SEARCH/REPLACE block missing '=======' separator.");
                return ParseRun::Failed(string_of(m.as_slice()));
            },
            StepRun::NoEnd => {
                let m = chars_of("SEARCH/REPLACE block missing '>>>>>>> REPLACE' end marker.");
                return ParseRun::Failed(string_of(m.as_slice()));
            },
            StepRun::Undefined => {
                return ParseRun::Undefined;
            },
        }
    }
    if out.len() == 0 {
        let m = chars_of(
            "No SEARCH/REPLACE blocks found. Format:\n<<<<<<< SEARCH\nold text\n=======\nnew text\n>>>>>>> REPLACE",
        );
        return ParseRun::Failed(string_of(m.as_slice()));
    }
    ParseRun::Blocks(out)
}

/// Whether the parser can slice this patch: every separator line is followed
/// by a one-byte character (see the module notes).
pub fn patch_is_parsable(input: &str) -> (r: bool)
    ensures
        r == !(parsed_blocks(input@) is Undefined),
{
    match run_parse(input) {
        ParseRun::Undefined => false,
        _ => true,
    }
}

/// The (search, replace) blocks of a patch, in order, or the message that
/// says what is wrong with it.
pub fn parse_search_replace_blocks(input: &str) -> (r: Result<Vec<(String, String)>, String>)
    requires
        !(parsed_blocks(input@) is Undefined),
    ensures
        match parsed_blocks(input@) {
            Parse::Blocks(bs) => r matches Ok(v) && block_views(v@) == bs,
            Parse::Failed(m) => r matches Err(s) && s@ == m,
            Parse::Undefined => false,
        },
{
    match run_parse(input) {
        ParseRun::Blocks(v) => Ok(v),
        ParseRun::Failed(m) => Err(m),
        ParseRun::Undefined => Err(String::new()),
    }
}

/// What applying the blocks from index `i` on gives: the new content, or
/// the index of the first block whose text to find does not occur exactly
/// once in the content at that point, with its number of occurrences. A
/// block with empty text to find replaces the whole content.
pub open spec fn apply_from(c: Seq<char>, bs: Seq<(Seq<char>, Seq<char>)>, i: int) -> Result<
    Seq<char>,
    (int, nat),
>
    decreases bs.len() - i,
{
    if i < 0 || i >= bs.len() {
        Ok(c)
    } else if bs[i].0.len() == 0 {
        apply_from(bs[i].1, bs, i + 1)
    } else {
        let n = count_from(c, bs[i].0, 0);
        if n == 1 {
            apply_from(replace_first(c, bs[i].0, bs[i].1), bs, i + 1)
        } else {
            Err((i, n))
        }
    }
}

proof fn lemma_apply_shift(c: Seq<char>, bs: Seq<(Seq<char>, Seq<char>)>, i: int)
    requires
        bs.len() > 0,
        0 <= i,
    ensures
        apply_from(c, bs, i + 1) == match apply_from(c, bs.drop_first(), i) {
            Ok(v) => Ok::<Seq<char>, (int, nat)>(v),
            Err((j, n)) => Err((j + 1, n)),
        },
    decreases bs.len() - i,
{
    let t = bs.drop_first();
    if i + 1 < bs.len() {
        assert(bs[i + 1] == t[i]);
        if bs[i + 1].0.len() == 0 {
            lemma_apply_shift(bs[i + 1].1, bs, i + 1);
        } else {
            lemma_apply_shift(replace_first(c, bs[i + 1].0, bs[i + 1].1), bs, i + 1);
        }
    }
}

/// Applying blocks composes: when the first block's text to find occurs
/// exactly once in the content, applying all the blocks gives what applying
/// the remaining blocks gives to the content with that one occurrence
/// replaced (a later block's failure is reported under its own number).
pub proof fn law_blocks_apply_in_order(c: Seq<char>, bs: Seq<(Seq<char>, Seq<char>)>)
    requires
        bs.len() > 0,
        bs[0].0.len() > 0,
        count_from(c, bs[0].0, 0) == 1,
    ensures
        apply_from(c, bs, 0) == match apply_from(replace_first(c, bs[0].0, bs[0].1), bs.drop_first(), 0) {
            Ok(v) => Ok::<Seq<char>, (int, nat)>(v),
            Err((j, n)) => Err((j + 1, n)),
        },
{
    lemma_apply_shift(replace_first(c, bs[0].0, bs[0].1), bs, 0);
}

/// Two blocks that each find their text exactly once (the second in the
/// content after the first is applied) both take effect, one after the
/// other.
pub proof fn law_two_blocks_both_apply(
    c: Seq<char>,
    s1: Seq<char>,
    r1: Seq<char>,
    s2: Seq<char>,
    r2: Seq<char>,
)
    requires
        s1.len() > 0,
        s2.len() > 0,
        count_from(c, s1, 0) == 1,
        count_from(replace_first(c, s1, r1), s2, 0) == 1,
    ensures
        apply_from(c, seq![(s1, r1), (s2, r2)], 0) == Ok::<Seq<char>, (int, nat)>(
            replace_first(replace_first(c, s1, r1), s2, r2),
        ),
{
    let bs = seq![(s1, r1), (s2, r2)];
    law_blocks_apply_in_order(c, bs);
    let c1 = replace_first(c, s1, r1);
    let t = bs.drop_first();
    assert(t =~= seq![(s2, r2)]);
    assert(apply_from(replace_first(c1, s2, r2), t, 1) == Ok::<Seq<char>, (int, nat)>(replace_first(c1, s2, r2)));
}

/// The text to find as an error message shows it: cut to 120 bytes at a
/// character boundary, with `...`, when longer.
pub open spec fn search_preview(s: Seq<char>) -> Seq<char> {
    if utf8_len(s) > 120 {
        floor_prefix(s, 120) + "..."@
    } else {
        s
    }
}

/// The refusal for block number `no` (counted from 1) whose text to find
/// `s` occurs `n` times, `n` being other than one.
pub open spec fn search_refusal(f: Refusal, no: nat, n: nat, s: Seq<char>) -> bool {
    if n == 0 {
        f.code@ == "search_not_found"@ && f.message@ == "SEARCH block #"@ + decimal(no)
            + " not found in the file.\nSearched for text:\n```\n"@ + search_preview(s) + "\n```"@
    } else {
        f.code@ == "search_ambiguous"@ && f.message@ == "SEARCH block #"@ + decimal(no)
            + " appears "@ + decimal(n) + " times in the file, not unique."@
    }
}

pub fn preview_chars(s: &[char]) -> (r: Vec<char>)
    ensures
        r@ == search_preview(s@),
{
    if utf8_len_of(s) > 120 {
        let mut v = floor_prefix_chars(s, 120);
        push_str(&mut v, "...");
        v
    } else {
        slice_chars(s, 0, s.len())
    }
}

fn refuse_block(no: usize, n: usize, s: &[char]) -> (f: Refusal)
    requires
        n != 1,
    ensures
        search_refusal(f, no as nat, n as nat, s@),
{
    let mut m = chars_of("SEARCH block #");
    let d = fmt_u64(no as u64);
    push_all(&mut m, d.as_slice());
    if n == 0 {
        push_str(&mut m, " not found in the file.\nSearched for text:\n```\n");
        let p = preview_chars(s);
        push_all(&mut m, p.as_slice());
        push_str(&mut m, "\n```");
        Refusal::with_chars("search_not_found", m.as_slice())
    } else {
        push_str(&mut m, " appears ");
        let c = fmt_u64(n as u64);
        push_all(&mut m, c.as_slice());
        push_str(&mut m, " times in the file, not unique.");
        Refusal::with_chars("search_ambiguous", m.as_slice())
    }
}

/// Applies the blocks, in order, to the content.
pub fn apply_blocks(content: &str, blocks: &Vec<(String, String)>) -> (r: Result<String, Refusal>)
    ensures
        match apply_from(content@, block_views(blocks@), 0) {
            Ok(c) => r matches Ok(s) && s@ == c,
            Err((i, n)) => r matches Err(f) && search_refusal(
                f,
                (i + 1) as nat,
                n,
                block_views(blocks@)[i].0,
            ),
        },
{
    let ghost bv = block_views(blocks@);
    let mut c = chars_of(content);
    let mut i: usize = 0;
    while i < blocks.len()
        invariant
            i <= blocks@.len(),
            bv == block_views(blocks@),
            apply_from(content@, bv, 0) == apply_from(c@, bv, i as int),
        decreases blocks@.len() - i,
    {
        let sv = chars_of(blocks[i].0.as_str());
        let rv = chars_of(blocks[i].1.as_str());
        proof {
            assert(bv[i as int] == (sv@, rv@));
        }
        if sv.len() == 0 {
            c = rv;
        } else {
            let n = count_matches(c.as_slice(), sv.as_slice());
            if n != 1 {
                return Err(refuse_block(i + 1, n, sv.as_slice()));
            }
            c = replace_first_chars(c.as_slice(), sv.as_slice(), rv.as_slice());
        }
        i = i + 1;
    }
    Ok(string_of(c.as_slice()))
}

/// The message of a patch that applied.
pub open spec fn patch_summary(nblocks: nat, before: nat, after: nat) -> Seq<char> {
    "Successfully applied "@ + decimal(nblocks) + " SEARCH/REPLACE block(s) ("@ + decimal(before)
        + " bytes -> "@ + decimal(after) + " bytes)"@
}

/// Applies a patch to a file's content: the new content and the success
/// message, or why the patch was refused.
pub fn apply_patch_to_content(content: &str, patch: &str) -> (r: Result<(String, String), Refusal>)
    requires
        !(parsed_blocks(patch@) is Undefined),
    ensures
        match parsed_blocks(patch@) {
            Parse::Failed(m) => r matches Err(f) && f.code@ == "parse_error"@ && f.message@ == m,
            Parse::Blocks(bs) => match apply_from(content@, bs, 0) {
                Ok(c) => r matches Ok(p) && p.0@ == c && p.1@ == patch_summary(
                    bs.len(),
                    utf8_len(content@),
                    utf8_len(c),
                ),
                Err((i, n)) => r matches Err(f) && search_refusal(f, (i + 1) as nat, n, bs[i].0),
            },
            Parse::Undefined => false,
        },
{
    let blocks = match parse_search_replace_blocks(patch) {
        Ok(b) => b,
        Err(e) => {
            let ev = chars_of(e.as_str());
            return Err(Refusal::with_chars("parse_error", ev.as_slice()));
        },
    };
    let out = apply_blocks(content, &blocks)?;
    let cv = chars_of(content);
    let ov = chars_of(out.as_str());
    let mut m = chars_of("Successfully applied ");
    let a = fmt_u64(blocks.len() as u64);
    push_all(&mut m, a.as_slice());
    push_str(&mut m, " SEARCH/REPLACE block(s) (");
    let b = fmt_u128(utf8_len_of(cv.as_slice()));
    push_all(&mut m, b.as_slice());
    push_str(&mut m, " bytes -> ");
    let c = fmt_u128(utf8_len_of(ov.as_slice()));
    push_all(&mut m, c.as_slice());
    push_str(&mut m, " bytes)");
    Ok((out, string_of(m.as_slice())))
}

/// The checks on an apply_patch request made before the file is touched:
/// a path, a patch, and a patch of at most 50000 bytes.
pub fn check_patch_request(path: &str, patch: &str) -> (r: Result<(), Refusal>)
    ensures
        path@.len() == 0 ==> refuses(r, "empty_path"@, "File path is empty"@),
        path@.len() > 0 && patch@.len() == 0 ==> refuses(
            r,
            "empty_patch"@,
            "patch content is empty"@,
        ),
        path@.len() > 0 && patch@.len() > 0 && utf8_len(patch@) > 50000 ==> refuses(
            r,
            "patch_too_large"@,
            "patch length "@ + decimal(utf8_len(patch@))
                + " exceeds max 50000 chars. Split into multiple apply_patch calls."@,
        ),
        path@.len() > 0 && patch@.len() > 0 && utf8_len(patch@) <= 50000 ==> r is Ok,
{
    let pv = chars_of(path);
    if pv.len() == 0 {
        return Err(Refusal::new("empty_path", "File path is empty"));
    }
    let tv = chars_of(patch);
    if tv.len() == 0 {
        return Err(Refusal::new("empty_patch", "patch content is empty"));
    }
    let n = utf8_len_of(tv.as_slice());
    if n > 50000 {
        let mut m = chars_of("patch length ");
        let d = fmt_u128(n);
        push_all(&mut m, d.as_slice());
        push_str(&mut m, " exceeds max 50000 chars. Split into multiple apply_patch calls.");
        return Err(Refusal::with_chars("patch_too_large", m.as_slice()));
    }
    Ok(())
}

} // verus!
