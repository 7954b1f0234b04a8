//! Character-sequence primitives shared by the text-processing logic.
//!
//! Strings are modelled by their `Seq<char>` view. Every helper here is
//! specified by a spec function over that view.
use vstd::prelude::*;
use vstd::utf8::*;

verus! {

// ───────────────────────── conversions ─────────────────────────

/// The characters of a string slice, as a vector.
/// Calls `Iterator::collect` on `str::chars`.
#[verifier::external_body]
pub fn chars_of(s: &str) -> (r: Vec<char>)
    ensures
        r@ == s@,
{
    s.chars().collect()
}

/// A string holding exactly the given characters.
/// Calls `Iterator::collect` on the slice's iterator.
#[verifier::external_body]
pub fn string_of(v: &[char]) -> (r: String)
    ensures
        r@ == v@,
{
    v.iter().collect()
}

// ───────────────────────── whitespace ─────────────────────────

/// Unicode `White_Space` property (the definition used by `char::is_whitespace`).
pub open spec fn is_ws(c: char) -> bool {
    let u = c as u32;
    ||| 0x9 <= u <= 0xD
    ||| u == 0x20
    ||| u == 0x85
    ||| u == 0xA0
    ||| u == 0x1680
    ||| 0x2000 <= u <= 0x200A
    ||| u == 0x2028
    ||| u == 0x2029
    ||| u == 0x202F
    ||| u == 0x205F
    ||| u == 0x3000
}

pub fn is_whitespace(c: char) -> (r: bool)
    ensures
        r == is_ws(c),
{
    let u = c as u32;
    (0x9 <= u && u <= 0xD) || u == 0x20 || u == 0x85 || u == 0xA0 || u == 0x1680 || (0x2000 <= u
        && u <= 0x200A) || u == 0x2028 || u == 0x2029 || u == 0x202F || u == 0x205F || u == 0x3000
}

// ───────────────────────── UTF-8 sizes ─────────────────────────

/// Number of bytes of the UTF-8 encoding of one character.
pub open spec fn char_bytes(c: char) -> nat {
    let u = c as u32;
    if u <= 0x7F {
        1
    } else if u <= 0x7FF {
        2
    } else if u <= 0xFFFF {
        3
    } else {
        4
    }
}

/// Number of bytes of the UTF-8 encoding of a character sequence.
pub open spec fn utf8_len(s: Seq<char>) -> nat
    decreases s.len(),
{
    if s.len() == 0 {
        0
    } else {
        char_bytes(s[0]) + utf8_len(s.drop_first())
    }
}

pub fn char_len_utf8(c: char) -> (r: usize)
    ensures
        r == char_bytes(c),
        1 <= r <= 4,
{
    let u = c as u32;
    if u <= 0x7F {
        1
    } else if u <= 0x7FF {
        2
    } else if u <= 0xFFFF {
        3
    } else {
        4
    }
}

pub proof fn lemma_utf8_len_concat(a: Seq<char>, b: Seq<char>)
    ensures
        utf8_len(a + b) == utf8_len(a) + utf8_len(b),
    decreases a.len(),
{
    if a.len() == 0 {
        assert(a + b =~= b);
    } else {
        lemma_utf8_len_concat(a.drop_first(), b);
        assert((a + b).drop_first() =~= a.drop_first() + b);
    }
}

pub proof fn lemma_utf8_len_push(a: Seq<char>, c: char)
    ensures
        utf8_len(a.push(c)) == utf8_len(a) + char_bytes(c),
{
    lemma_utf8_len_concat(a, seq![c]);
    assert(a.push(c) =~= a + seq![c]);
    assert(seq![c].drop_first() =~= Seq::<char>::empty());
    assert(utf8_len(seq![c]) == char_bytes(c) + utf8_len(seq![c].drop_first()));
}

pub proof fn lemma_utf8_len_bounds(a: Seq<char>)
    ensures
        a.len() <= utf8_len(a) <= 4 * a.len(),
    decreases a.len(),
{
    if a.len() > 0 {
        lemma_utf8_len_bounds(a.drop_first());
    }
}

pub proof fn lemma_utf8_len_prefix_mono(a: Seq<char>, i: int, j: int)
    requires
        0 <= i <= j <= a.len(),
    ensures
        utf8_len(a.take(i)) <= utf8_len(a.take(j)),
    decreases j - i,
{
    if i < j {
        lemma_utf8_len_prefix_mono(a, i, j - 1);
        assert(a.take(j) =~= a.take(j - 1).push(a[j - 1]));
        lemma_utf8_len_push(a.take(j - 1), a[j - 1]);
    }
}

pub proof fn lemma_utf8_len_is_encoding_len(s: Seq<char>)
    ensures
        utf8_len(s) == encode_utf8(s).len(),
    decreases s.len(),
{
    if s.len() > 0 {
        lemma_utf8_len_is_encoding_len(s.drop_first());
        char_is_scalar(s[0]);
    }
}

/// Byte length of the UTF-8 encoding of a character sequence.
pub fn utf8_len_of(v: &[char]) -> (r: u128)
    ensures
        r == utf8_len(v@),
{
    let mut i: usize = 0;
    let mut acc: u128 = 0;
    while i < v.len()
        invariant
            i <= v@.len(),
            acc == utf8_len(v@.take(i as int)),
            acc <= 4 * i,
        decreases v@.len() - i,
    {
        proof {
            assert(v@.take(i + 1) =~= v@.take(i as int).push(v@[i as int]));
            lemma_utf8_len_push(v@.take(i as int), v@[i as int]);
        }
        let b = char_len_utf8(v[i]);
        acc = acc + b as u128;
        i = i + 1;
    }
    assert(v@.take(i as int) =~= v@);
    acc
}

// ───────────────────────── substrings ─────────────────────────

/// `p` occurs in `s` starting at index `i`.
pub open spec fn occurs_at(s: Seq<char>, p: Seq<char>, i: int) -> bool {
    0 <= i && i + p.len() <= s.len() && s.subrange(i, i + p.len()) == p
}

/// `p` is a substring of `s` (`str::contains`).
pub open spec fn has_sub(s: Seq<char>, p: Seq<char>) -> bool {
    exists|i: int| occurs_at(s, p, i)
}

/// `s` starts with `p` (`str::starts_with`).
pub open spec fn starts_with(s: Seq<char>, p: Seq<char>) -> bool {
    p.len() <= s.len() && s.take(p.len() as int) == p
}

/// `s` ends with `p` (`str::ends_with`).
pub open spec fn ends_with(s: Seq<char>, p: Seq<char>) -> bool {
    p.len() <= s.len() && s.skip(s.len() - p.len()) == p
}

/// Index of the first occurrence of `p` in `s` at or after `start`.
pub open spec fn first_occ_from(s: Seq<char>, p: Seq<char>, start: int) -> Option<int> {
    if exists|i: int| start <= i && #[trigger] occurs_at(s, p, i) {
        Some(
            choose|i: int|
                start <= i && occurs_at(s, p, i) && forall|j: int|
                    start <= j < i ==> !#[trigger] occurs_at(s, p, j),
        )
    } else {
        None
    }
}

pub fn matches_at(s: &[char], p: &[char], i: usize) -> (r: bool)
    ensures
        r == occurs_at(s@, p@, i as int),
{
    if i > s.len() || p.len() > s.len() - i {
        return false;
    }
    let n = s.len();
    let mut k: usize = 0;
    while k < p.len()
        invariant
            n == s@.len(),
            i + p@.len() <= s@.len(),
            k <= p@.len(),
            forall|t: int| 0 <= t < k ==> s@[i + t] == p@[t],
        decreases p@.len() - k,
    {
        assert(i + k < s@.len());
        if s[i + k] != p[k] {
            proof {
                assert(s@.subrange(i as int, i + p@.len())[k as int] != p@[k as int]);
            }
            return false;
        }
        k = k + 1;
    }
    assert(s@.subrange(i as int, i + p@.len()) =~= p@);
    true
}

pub proof fn lemma_first_occ_from(s: Seq<char>, p: Seq<char>, start: int, i: int)
    requires
        start <= i,
        occurs_at(s, p, i),
        forall|j: int| start <= j < i ==> !#[trigger] occurs_at(s, p, j),
    ensures
        first_occ_from(s, p, start) == Some(i),
{
    let k = choose|k: int|
        start <= k && occurs_at(s, p, k) && forall|j: int| start <= j < k ==> !#[trigger] occurs_at(s, p, j);
    assert(start <= k && occurs_at(s, p, k));
    if k < i {
        assert(!occurs_at(s, p, k));
    }
    if i < k {
        assert(!occurs_at(s, p, i));
    }
}

/// Number of non-overlapping occurrences of `p` in `s` at or after `i`,
/// taken left to right (what `str::matches(p).count()` gives for a
/// non-empty `p`).
pub open spec fn count_from(s: Seq<char>, p: Seq<char>, i: int) -> nat
    decreases s.len() - i,
{
    if p.len() == 0 || i < 0 || i + p.len() > s.len() {
        0
    } else if occurs_at(s, p, i) {
        1 + count_from(s, p, i + p.len())
    } else {
        count_from(s, p, i + 1)
    }
}

/// `s` with its first occurrence of `p` replaced by `r` (`str::replacen(p, r, 1)`).
pub open spec fn replace_first(s: Seq<char>, p: Seq<char>, r: Seq<char>) -> Seq<char> {
    match first_occ_from(s, p, 0) {
        Some(i) => s.take(i) + r + s.skip(i + p.len()),
        None => s,
    }
}

/// Counts the non-overlapping occurrences of a non-empty `p` in `s`.
pub fn count_matches(s: &[char], p: &[char]) -> (r: usize)
    ensures
        r == count_from(s@, p@, 0),
{
    if p.len() == 0 {
        return 0;
    }
    let mut i: usize = 0;
    let mut n: usize = 0;
    while i <= s.len() && p.len() <= s.len() - i
        invariant
            p@.len() > 0,
            i <= s@.len() + 1,
            n <= i,
            n + count_from(s@, p@, i as int) == count_from(s@, p@, 0),
        decreases s@.len() + 1 - i,
    {
        if matches_at(s, p, i) {
            n = n + 1;
            i = i + p.len();
        } else {
            i = i + 1;
        }
    }
    n
}

/// Replaces the first occurrence of `p` in `s` by `r`.
proof fn lemma_replace_first_at(s: Seq<char>, p: Seq<char>, r: Seq<char>, i: int)
    requires
        first_occ_from(s, p, 0) == Some(i),
    ensures
        replace_first(s, p, r) == s.take(i) + r + s.skip(i + p.len()),
{
}

proof fn lemma_replace_first_none(s: Seq<char>, p: Seq<char>, r: Seq<char>)
    requires
        first_occ_from(s, p, 0) is None,
    ensures
        replace_first(s, p, r) == s,
{
}

/// `s` with the `n` characters at `i` replaced by `r`.
fn splice_chars(s: &[char], i: usize, n: usize, r: &[char]) -> (out: Vec<char>)
    requires
        i + n <= s@.len(),
    ensures
        out@ == s@.take(i as int) + r@ + s@.skip(i + n),
{
    let len = s.len();
    assert(i + n <= len);
    let mut v = slice_chars(s, 0, i);
    push_all(&mut v, r);
    let tail = slice_chars(s, i + n, len);
    push_all(&mut v, tail.as_slice());
    proof {
        assert(s@.subrange(0, i as int) =~= s@.take(i as int));
        assert(s@.subrange(i + n, s@.len() as int) =~= s@.skip(i + n));
    }
    v
}

/// Replaces the first occurrence of `p` in `s` by `r`.
pub fn replace_first_chars(s: &[char], p: &[char], r: &[char]) -> (out: Vec<char>)
    ensures
        out@ == replace_first(s@, p@, r@),
{
    match find(s, p) {
        Some(i) => {
            let v = splice_chars(s, i, p.len(), r);
            proof {
                lemma_replace_first_at(s@, p@, r@, i as int);
            }
            v
        },
        None => {
            let v = slice_chars(s, 0, s.len());
            proof {
                lemma_replace_first_none(s@, p@, r@);
                assert(v@ =~= s@);
            }
            v
        },
    }
}

proof fn lemma_min_occ(s: Seq<char>, p: Seq<char>, start: int, i: int)
    requires
        start <= i,
        occurs_at(s, p, i),
    ensures
        exists|k: int|
            start <= k <= i && occurs_at(s, p, k) && forall|j: int|
                start <= j < k ==> !#[trigger] occurs_at(s, p, j),
    decreases i - start,
{
    if exists|j: int| start <= j < i && #[trigger] occurs_at(s, p, j) {
        let j = choose|j: int| start <= j < i && #[trigger] occurs_at(s, p, j);
        lemma_min_occ(s, p, start, j);
    } else {
        assert(start <= i <= i && occurs_at(s, p, i) && forall|j: int|
            start <= j < i ==> !#[trigger] occurs_at(s, p, j));
    }
}

/// A found occurrence is an occurrence, at or after the start.
pub proof fn lemma_first_occ_found(s: Seq<char>, p: Seq<char>, start: int)
    ensures
        first_occ_from(s, p, start) matches Some(i) ==> start <= i && occurs_at(s, p, i),
{
    if exists|i: int| start <= i && #[trigger] occurs_at(s, p, i) {
        let w = choose|i: int| start <= i && #[trigger] occurs_at(s, p, i);
        lemma_min_occ(s, p, start, w);
    }
}

/// First occurrence of `p` in `s` at or after `start` (`str::find` on a suffix).
pub fn find_from(s: &[char], p: &[char], start: usize) -> (r: Option<usize>)
    ensures
        r matches Some(i) ==> first_occ_from(s@, p@, start as int) == Some(i as int) && occurs_at(
            s@,
            p@,
            i as int,
        ) && start <= i,
        r is None ==> first_occ_from(s@, p@, start as int) is None && forall|j: int|
            start <= j ==> !#[trigger] occurs_at(s@, p@, j),
{
    if start > s.len() {
        return None;
    }
    let mut i = start;
    loop
        invariant
            start <= i <= s@.len(),
            forall|j: int| start <= j < i ==> !#[trigger] occurs_at(s@, p@, j),
        ensures
            i == s@.len(),
            forall|j: int| start <= j < i ==> !#[trigger] occurs_at(s@, p@, j),
            !occurs_at(s@, p@, i as int),
        decreases s@.len() - i,
    {
        if matches_at(s, p, i) {
            proof {
                lemma_first_occ_from(s@, p@, start as int, i as int);
            }
            return Some(i);
        }
        if i == s.len() {
            break;
        }
        i = i + 1;
    }
    assert forall|j: int| start <= j implies !#[trigger] occurs_at(s@, p@, j) by {
        if j > i {
            assert(j + p@.len() > s@.len());
        }
    }
    assert(!exists|j: int| start <= j && #[trigger] occurs_at(s@, p@, j));
    None
}

pub fn find(s: &[char], p: &[char]) -> (r: Option<usize>)
    ensures
        r matches Some(i) ==> first_occ_from(s@, p@, 0) == Some(i as int) && occurs_at(s@, p@, i as int),
        r is None ==> first_occ_from(s@, p@, 0) is None && !has_sub(s@, p@),
{
    let r = find_from(s, p, 0);
    proof {
        if r is None {
            assert forall|j: int| !occurs_at(s@, p@, j) by {
                if j < 0 {
                }
            }
        }
    }
    r
}

pub fn contains(s: &[char], p: &[char]) -> (r: bool)
    ensures
        r == has_sub(s@, p@),
{
    match find(s, p) {
        Some(_) => true,
        None => false,
    }
}

/// `contains` for a string literal pattern.
pub fn contains_str(s: &[char], p: &str) -> (r: bool)
    ensures
        r == has_sub(s@, p@),
{
    let pv = chars_of(p);
    contains(s, pv.as_slice())
}

pub fn starts_with_at(s: &[char], p: &[char]) -> (r: bool)
    ensures
        r == starts_with(s@, p@),
{
    let r = matches_at(s, p, 0);
    proof {
        if starts_with(s@, p@) {
            assert(s@.subrange(0, p@.len() as int) =~= s@.take(p@.len() as int));
        }
        if r {
            assert(s@.subrange(0, p@.len() as int) =~= s@.take(p@.len() as int));
        }
    }
    r
}

pub fn starts_with_str(s: &[char], p: &str) -> (r: bool)
    ensures
        r == starts_with(s@, p@),
{
    let pv = chars_of(p);
    starts_with_at(s, pv.as_slice())
}

pub fn ends_with_at(s: &[char], p: &[char]) -> (r: bool)
    ensures
        r == ends_with(s@, p@),
{
    if p.len() > s.len() {
        return false;
    }
    let r = matches_at(s, p, s.len() - p.len());
    proof {
        assert(s@.subrange(s@.len() - p@.len(), s@.len() as int) =~= s@.skip(s@.len() - p@.len()));
    }
    r
}

pub fn ends_with_str(s: &[char], p: &str) -> (r: bool)
    ensures
        r == ends_with(s@, p@),
{
    let pv = chars_of(p);
    ends_with_at(s, pv.as_slice())
}

pub fn eq_chars(a: &[char], b: &[char]) -> (r: bool)
    ensures
        r == (a@ == b@),
{
    if a.len() != b.len() {
        return false;
    }
    let r = matches_at(a, b, 0);
    proof {
        assert(a@.subrange(0, b@.len() as int) =~= a@);
    }
    r
}

pub fn eq_str(a: &[char], b: &str) -> (r: bool)
    ensures
        r == (a@ == b@),
{
    let bv = chars_of(b);
    eq_chars(a, bv.as_slice())
}

/// Equality of two string slices by their characters.
pub fn str_eq(a: &str, b: &str) -> (r: bool)
    ensures
        r == (a@ == b@),
{
    let av = chars_of(a);
    eq_str(av.as_slice(), b)
}

/// A copy of `s[a..b]`.
pub fn slice_chars(s: &[char], a: usize, b: usize) -> (r: Vec<char>)
    requires
        a <= b <= s@.len(),
    ensures
        r@ == s@.subrange(a as int, b as int),
{
    let mut r: Vec<char> = Vec::new();
    let mut i = a;
    while i < b
        invariant
            a <= i <= b <= s@.len(),
            r@ == s@.subrange(a as int, i as int),
        decreases b - i,
    {
        r.push(s[i]);
        i = i + 1;
        proof {
            assert(r@ =~= s@.subrange(a as int, i as int));
        }
    }
    r
}

/// Appends `t` to `r`.
pub fn push_all(r: &mut Vec<char>, t: &[char])
    ensures
        final(r)@ == old(r)@ + t@,
{
    let mut i: usize = 0;
    while i < t.len()
        invariant
            i <= t@.len(),
            r@ == old(r)@ + t@.take(i as int),
        decreases t@.len() - i,
    {
        r.push(t[i]);
        i = i + 1;
        proof {
            assert(r@ =~= old(r)@ + t@.take(i as int));
        }
    }
    assert(t@.take(i as int) =~= t@);
}

/// Appends a string literal to `r`.
pub fn push_str(r: &mut Vec<char>, t: &str)
    ensures
        final(r)@ == old(r)@ + t@,
{
    let tv = chars_of(t);
    push_all(r, tv.as_slice());
}

// ───────────────────────── trimming ─────────────────────────

/// First index at or after `i` that is not whitespace (or the length).
pub open spec fn skip_ws_from(s: Seq<char>, i: int) -> int
    decreases s.len() - i,
{
    if 0 <= i < s.len() && is_ws(s[i]) {
        skip_ws_from(s, i + 1)
    } else {
        i
    }
}

/// Largest `j' <= j`, not below `lo`, such that `s[j'-1]` is not whitespace.
pub open spec fn back_ws_to(s: Seq<char>, lo: int, j: int) -> int
    decreases j - lo,
{
    if lo < j <= s.len() && is_ws(s[j - 1]) {
        back_ws_to(s, lo, j - 1)
    } else {
        j
    }
}

/// `str::trim_start`.
pub open spec fn trim_start(s: Seq<char>) -> Seq<char> {
    s.skip(skip_ws_from(s, 0))
}

/// `str::trim_end`.
pub open spec fn trim_end(s: Seq<char>) -> Seq<char> {
    s.take(back_ws_to(s, 0, s.len() as int))
}

/// `str::trim`.
pub open spec fn trim(s: Seq<char>) -> Seq<char> {
    let a = skip_ws_from(s, 0);
    s.subrange(a, back_ws_to(s, a, s.len() as int))
}

pub proof fn lemma_skip_ws_bounds(s: Seq<char>, i: int)
    requires
        0 <= i <= s.len(),
    ensures
        i <= skip_ws_from(s, i) <= s.len(),
        forall|k: int| i <= k < skip_ws_from(s, i) ==> is_ws(#[trigger] s[k]),
        skip_ws_from(s, i) < s.len() ==> !is_ws(s[skip_ws_from(s, i)]),
    decreases s.len() - i,
{
    if i < s.len() && is_ws(s[i]) {
        lemma_skip_ws_bounds(s, i + 1);
    }
}

pub proof fn lemma_back_ws_bounds(s: Seq<char>, lo: int, j: int)
    requires
        0 <= lo <= j <= s.len(),
    ensures
        lo <= back_ws_to(s, lo, j) <= j,
        forall|k: int| back_ws_to(s, lo, j) <= k < j ==> is_ws(#[trigger] s[k]),
        back_ws_to(s, lo, j) > lo ==> !is_ws(s[back_ws_to(s, lo, j) - 1]),
    decreases j - lo,
{
    if lo < j && is_ws(s[j - 1]) {
        lemma_back_ws_bounds(s, lo, j - 1);
    }
}

fn skip_ws_index(v: &[char], start: usize) -> (r: usize)
    requires
        start <= v@.len(),
    ensures
        r == skip_ws_from(v@, start as int),
        start <= r <= v@.len(),
{
    let mut i = start;
    while i < v.len() && is_whitespace(v[i])
        invariant
            start <= i <= v@.len(),
            skip_ws_from(v@, start as int) == skip_ws_from(v@, i as int),
        decreases v@.len() - i,
    {
        i = i + 1;
    }
    i
}

fn back_ws_index(v: &[char], lo: usize) -> (r: usize)
    requires
        lo <= v@.len(),
    ensures
        r == back_ws_to(v@, lo as int, v@.len() as int),
        lo <= r <= v@.len(),
{
    let mut j = v.len();
    while j > lo && is_whitespace(v[j - 1])
        invariant
            lo <= j <= v@.len(),
            back_ws_to(v@, lo as int, v@.len() as int) == back_ws_to(v@, lo as int, j as int),
        decreases j - lo,
    {
        j = j - 1;
    }
    j
}

pub fn trim_chars(v: &[char]) -> (r: Vec<char>)
    ensures
        r@ == trim(v@),
{
    let a = skip_ws_index(v, 0);
    let b = back_ws_index(v, a);
    slice_chars(v, a, b)
}

pub fn trim_start_chars(v: &[char]) -> (r: Vec<char>)
    ensures
        r@ == trim_start(v@),
{
    let a = skip_ws_index(v, 0);
    let r = slice_chars(v, a, v.len());
    assert(r@ =~= v@.skip(a as int));
    r
}

pub fn trim_end_chars(v: &[char]) -> (r: Vec<char>)
    ensures
        r@ == trim_end(v@),
{
    let b = back_ws_index(v, 0);
    let r = slice_chars(v, 0, b);
    assert(r@ =~= v@.take(b as int));
    r
}

// ───────────────────────── lines ─────────────────────────

/// Index of the first newline at or after `i` (or the length).
pub open spec fn next_nl(s: Seq<char>, i: int) -> int
    decreases s.len() - i,
{
    if i < 0 || i >= s.len() {
        s.len() as int
    } else if s[i] == '\n' {
        i
    } else {
        next_nl(s, i + 1)
    }
}

pub proof fn lemma_next_nl_bounds(s: Seq<char>, i: int)
    requires
        0 <= i <= s.len(),
    ensures
        i <= next_nl(s, i) <= s.len(),
        forall|k: int| i <= k < next_nl(s, i) ==> #[trigger] s[k] != '\n',
        next_nl(s, i) < s.len() ==> s[next_nl(s, i)] == '\n',
    decreases s.len() - i,
{
    if i < s.len() && s[i] != '\n' {
        lemma_next_nl_bounds(s, i + 1);
    }
}

/// Removes one trailing carriage return.
pub open spec fn strip_cr(line: Seq<char>) -> Seq<char> {
    if line.len() > 0 && line.last() == '\r' {
        line.drop_last()
    } else {
        line
    }
}

/// The lines of `s[i..]` as `str::lines` yields them: split at `\n`, a `\r`
/// directly before a `\n` removed, no empty line after a final `\n`.
pub open spec fn lines_from(s: Seq<char>, i: int) -> Seq<Seq<char>>
    decreases s.len() + 1 - i,
{
    if i < 0 || i >= s.len() {
        Seq::empty()
    } else {
        let j = next_nl(s, i);
        proof {
            lemma_next_nl_bounds(s, i);
        }
        let raw = s.subrange(i, j);
        let line = if j < s.len() {
            strip_cr(raw)
        } else {
            raw
        };
        seq![line] + lines_from(s, j + 1)
    }
}

/// `str::lines`.
pub open spec fn lines(s: Seq<char>) -> Seq<Seq<char>> {
    lines_from(s, 0)
}

fn next_nl_index(v: &[char], i: usize) -> (r: usize)
    requires
        i <= v@.len(),
    ensures
        r == next_nl(v@, i as int),
        i <= r <= v@.len(),
{
    proof {
        lemma_next_nl_bounds(v@, i as int);
    }
    let mut j = i;
    while j < v.len() && v[j] != '\n'
        invariant
            i <= j <= v@.len(),
            next_nl(v@, i as int) == next_nl(v@, j as int),
        decreases v@.len() - j,
    {
        j = j + 1;
    }
    j
}

pub proof fn lemma_chars_deep_view(v: Vec<char>)
    ensures
        v.deep_view() == v@,
{
    assert(v.deep_view() =~= v@);
}

/// Appends a line to a vector of lines.
pub fn push_line(out: &mut Vec<Vec<char>>, line: Vec<char>)
    ensures
        final(out).deep_view() == old(out).deep_view().push(line@),
{
    let ghost l = line@;
    proof {
        lemma_chars_deep_view(line);
    }
    out.push(line);
    proof {
        assert(final(out).deep_view() =~= old(out).deep_view().push(l));
    }
}

/// Splits into lines (`str::lines`).
pub fn split_lines(v: &[char]) -> (r: Vec<Vec<char>>)
    ensures
        r.deep_view() == lines(v@),
{
    let mut out: Vec<Vec<char>> = Vec::new();
    let mut i: usize = 0;
    while i < v.len()
        invariant
            i <= v@.len(),
            out.deep_view() + lines_from(v@, i as int) == lines(v@),
        decreases v@.len() - i,
    {
        let j = next_nl_index(v, i);
        let raw = slice_chars(v, i, j);
        let mut line = raw;
        if j < v.len() && line.len() > 0 && line[line.len() - 1] == '\r' {
            line.pop();
        }
        proof {
            assert(line@ =~= (if j < v@.len() {
                strip_cr(v@.subrange(i as int, j as int))
            } else {
                v@.subrange(i as int, j as int)
            }));
            let old_out = out.deep_view();
            assert(lines_from(v@, i as int) == seq![line@] + lines_from(v@, j + 1));
        }
        let ghost prev = out.deep_view();
        let ghost lv = line@;
        push_line(&mut out, line);
        proof {
            assert(out.deep_view() =~= prev.push(lv));
            assert(prev + lines_from(v@, i as int) =~= out.deep_view() + lines_from(v@, j + 1));
        }
        if j == v.len() {
            proof {
                assert(lines_from(v@, j + 1) =~= Seq::<Seq<char>>::empty());
                assert(out.deep_view() + lines_from(v@, j + 1) =~= out.deep_view());
            }
            return out;
        }
        i = j + 1;
    }
    proof {
        assert(lines_from(v@, i as int) =~= Seq::<Seq<char>>::empty());
        assert(out.deep_view() + lines_from(v@, i as int) =~= out.deep_view());
    }
    out
}

// ───────────────────────── whitespace-separated words ─────────────────────────

/// First index at or after `i` that is whitespace (or the length).
pub open spec fn skip_word_from(s: Seq<char>, i: int) -> int
    decreases s.len() - i,
{
    if 0 <= i < s.len() && !is_ws(s[i]) {
        skip_word_from(s, i + 1)
    } else {
        i
    }
}

pub proof fn lemma_skip_word_bounds(s: Seq<char>, i: int)
    requires
        0 <= i <= s.len(),
    ensures
        i <= skip_word_from(s, i) <= s.len(),
        forall|k: int| i <= k < skip_word_from(s, i) ==> !is_ws(#[trigger] s[k]),
        skip_word_from(s, i) < s.len() ==> is_ws(s[skip_word_from(s, i)]),
    decreases s.len() - i,
{
    if i < s.len() && !is_ws(s[i]) {
        lemma_skip_word_bounds(s, i + 1);
    }
}

/// The maximal whitespace-free runs of `s[i..]` (`str::split_whitespace`).
pub open spec fn words_from(s: Seq<char>, i: int) -> Seq<Seq<char>>
    decreases s.len() - i,
{
    if i < 0 || i > s.len() {
        Seq::empty()
    } else {
        let a = skip_ws_from(s, i);
        proof {
            lemma_skip_ws_bounds(s, i);
        }
        if a >= s.len() {
            Seq::empty()
        } else {
            let b = skip_word_from(s, a);
            proof {
                lemma_skip_word_bounds(s, a);
            }
            seq![s.subrange(a, b)] + words_from(s, b)
        }
    }
}

/// `str::split_whitespace`.
pub open spec fn words(s: Seq<char>) -> Seq<Seq<char>> {
    words_from(s, 0)
}

fn skip_word_index(v: &[char], start: usize) -> (r: usize)
    requires
        start <= v@.len(),
    ensures
        r == skip_word_from(v@, start as int),
        start <= r <= v@.len(),
{
    let mut i = start;
    while i < v.len() && !is_whitespace(v[i])
        invariant
            start <= i <= v@.len(),
            skip_word_from(v@, start as int) == skip_word_from(v@, i as int),
        decreases v@.len() - i,
    {
        i = i + 1;
    }
    i
}

pub fn split_words(v: &[char]) -> (r: Vec<Vec<char>>)
    ensures
        r.deep_view() == words(v@),
{
    let mut out: Vec<Vec<char>> = Vec::new();
    let mut i: usize = 0;
    loop
        invariant
            i <= v@.len(),
            out.deep_view() + words_from(v@, i as int) == words(v@),
        decreases v@.len() - i,
    {
        let a = skip_ws_index(v, i);
        if a >= v.len() {
            proof {
                assert(words_from(v@, i as int) =~= Seq::<Seq<char>>::empty());
                assert(out.deep_view() + words_from(v@, i as int) =~= out.deep_view());
            }
            return out;
        }
        let b = skip_word_index(v, a);
        let w = slice_chars(v, a, b);
        let ghost prev = out.deep_view();
        proof {
            assert(words_from(v@, i as int) == seq![w@] + words_from(v@, b as int));
        }
        let ghost wv = w@;
        push_line(&mut out, w);
        proof {
            assert(out.deep_view() =~= prev.push(wv));
            assert(prev + words_from(v@, i as int) =~= out.deep_view() + words_from(v@, b as int));
        }
        i = b;
    }
}

// ───────────────────────── numbers ─────────────────────────

/// The decimal digit character for `d` (0..9).
pub open spec fn digit_char(d: nat) -> char {
    if d == 0 {
        '0'
    } else if d == 1 {
        '1'
    } else if d == 2 {
        '2'
    } else if d == 3 {
        '3'
    } else if d == 4 {
        '4'
    } else if d == 5 {
        '5'
    } else if d == 6 {
        '6'
    } else if d == 7 {
        '7'
    } else if d == 8 {
        '8'
    } else {
        '9'
    }
}

/// Decimal rendering of a natural number (as `format!("{}", n)`).
pub open spec fn decimal(n: nat) -> Seq<char>
    decreases n,
{
    if n < 10 {
        seq![digit_char(n)]
    } else {
        decimal(n / 10).push(digit_char(n % 10))
    }
}

/// Decimal rendering of an integer, with a leading `-` when negative.
pub open spec fn int_decimal(i: int) -> Seq<char> {
    if i < 0 {
        seq!['-'] + decimal((-i) as nat)
    } else {
        decimal(i as nat)
    }
}

fn digit(d: u64) -> (r: char)
    requires
        d < 10,
    ensures
        r == digit_char(d as nat),
{
    if d == 0 {
        '0'
    } else if d == 1 {
        '1'
    } else if d == 2 {
        '2'
    } else if d == 3 {
        '3'
    } else if d == 4 {
        '4'
    } else if d == 5 {
        '5'
    } else if d == 6 {
        '6'
    } else if d == 7 {
        '7'
    } else if d == 8 {
        '8'
    } else {
        '9'
    }
}

/// `format!("{}", n)` for an unsigned integer.
pub fn fmt_u64(n: u64) -> (r: Vec<char>)
    ensures
        r@ == decimal(n as nat),
    decreases n,
{
    if n < 10 {
        let mut v = Vec::new();
        v.push(digit(n));
        proof {
            assert(v@ =~= seq![digit_char(n as nat)]);
        }
        v
    } else {
        let mut v = fmt_u64(n / 10);
        v.push(digit(n % 10));
        v
    }
}

/// `format!("{}", n)` for a 128-bit unsigned integer.
pub fn fmt_u128(n: u128) -> (r: Vec<char>)
    ensures
        r@ == decimal(n as nat),
    decreases n,
{
    if n < 10 {
        let mut v = Vec::new();
        v.push(digit(n as u64));
        proof {
            assert(v@ =~= seq![digit_char(n as nat)]);
        }
        v
    } else {
        let mut v = fmt_u128(n / 10);
        v.push(digit((n % 10) as u64));
        v
    }
}

/// `format!("{}", n)` for a signed 64-bit integer.
pub fn fmt_i64(n: i64) -> (r: Vec<char>)
    ensures
        r@ == int_decimal(n as int),
{
    if n < 0 {
        let m: i128 = -(n as i128);
        let mut v = Vec::new();
        v.push('-');
        let d = fmt_u128(m as u128);
        push_all(&mut v, d.as_slice());
        proof {
            assert(v@ =~= seq!['-'] + decimal((-(n as int)) as nat));
        }
        v
    } else {
        fmt_u64(n as u64)
    }
}

/// `format!("{}", n)` for a signed 32-bit integer.
pub fn fmt_i32(n: i32) -> (r: Vec<char>)
    ensures
        r@ == int_decimal(n as int),
{
    if n < 0 {
        let m: i64 = -(n as i64);
        let mut v = Vec::new();
        v.push('-');
        let d = fmt_u64(m as u64);
        push_all(&mut v, d.as_slice());
        proof {
            assert(v@ =~= seq!['-'] + decimal((-(n as int)) as nat));
        }
        v
    } else {
        fmt_u64(n as u64)
    }
}


// ───────────────────────── pattern lists and affixes ─────────────────────────

/// The characters of each string.
pub open spec fn strs(v: Seq<String>) -> Seq<Seq<char>> {
    Seq::new(v.len(), |i: int| v[i]@)
}

/// The first `n` elements (all of them when there are fewer).
pub open spec fn prefix_upto<A>(s: Seq<A>, n: nat) -> Seq<A> {
    if s.len() <= n {
        s
    } else {
        s.take(n as int)
    }
}

/// A vector of strings holding the given character sequences.
pub fn strings_from(v: &Vec<Vec<char>>) -> (r: Vec<String>)
    ensures
        strs(r@) == v.deep_view(),
{
    let mut r: Vec<String> = Vec::new();
    let mut i: usize = 0;
    while i < v.len()
        invariant
            i <= v@.len(),
            strs(r@) == v.deep_view().take(i as int),
        decreases v@.len() - i,
    {
        proof {
            lemma_chars_deep_view(v@[i as int]);
            assert(v.deep_view()[i as int] == v@[i as int].deep_view());
        }
        let s = string_of(v[i].as_slice());
        let ghost r0 = r@;
        r.push(s);
        proof {
            assert(strs(r@) =~= strs(r0).push(v.deep_view()[i as int]));
            assert(v.deep_view().take(i + 1) =~= v.deep_view().take(i as int).push(v.deep_view()[i as int]));
        }
        i = i + 1;
    }
    proof {
        assert(v.deep_view().take(i as int) =~= v.deep_view());
    }
    r
}

/// The characters of each string slice.
pub open spec fn str_views(v: Seq<&'static str>) -> Seq<Seq<char>> {
    Seq::new(v.len(), |i: int| v[i]@)
}

/// Some pattern occurs in `s`.
pub open spec fn any_sub(s: Seq<char>, pats: Seq<Seq<char>>) -> bool {
    exists|i: int| 0 <= i < pats.len() && has_sub(s, #[trigger] pats[i])
}

/// `s` starts with some pattern.
pub open spec fn any_prefix(s: Seq<char>, pats: Seq<Seq<char>>) -> bool {
    exists|i: int| 0 <= i < pats.len() && starts_with(s, #[trigger] pats[i])
}

/// The first pattern that occurs in `s`.
pub open spec fn first_sub(s: Seq<char>, pats: Seq<Seq<char>>) -> Option<Seq<char>>
    decreases pats.len(),
{
    if pats.len() == 0 {
        None
    } else if has_sub(s, pats[0]) {
        Some(pats[0])
    } else {
        first_sub(s, pats.drop_first())
    }
}

/// Whether some pattern occurs in `s`.
pub fn any_pattern(s: &[char], pats: &Vec<&'static str>) -> (r: bool)
    ensures
        r == any_sub(s@, str_views(pats@)),
{
    let mut i: usize = 0;
    while i < pats.len()
        invariant
            i <= pats@.len(),
            forall|j: int| 0 <= j < i ==> !has_sub(s@, #[trigger] str_views(pats@)[j]),
        decreases pats@.len() - i,
    {
        if contains_str(s, pats[i]) {
            proof {
                assert(has_sub(s@, str_views(pats@)[i as int]));
            }
            return true;
        }
        i = i + 1;
    }
    false
}

/// Whether `s` starts with some pattern.
pub fn any_prefix_of(s: &[char], pats: &Vec<&'static str>) -> (r: bool)
    ensures
        r == any_prefix(s@, str_views(pats@)),
{
    let mut i: usize = 0;
    while i < pats.len()
        invariant
            i <= pats@.len(),
            forall|j: int| 0 <= j < i ==> !starts_with(s@, #[trigger] str_views(pats@)[j]),
        decreases pats@.len() - i,
    {
        if starts_with_str(s, pats[i]) {
            proof {
                assert(starts_with(s@, str_views(pats@)[i as int]));
            }
            return true;
        }
        i = i + 1;
    }
    false
}

/// The first pattern that occurs in `s`.
pub fn first_pattern(s: &[char], pats: &Vec<&'static str>) -> (r: Option<&'static str>)
    ensures
        (match r {
            Some(p) => Some(p@),
            None => None,
        }) == first_sub(s@, str_views(pats@)),
{
    let mut i: usize = 0;
    proof {
        assert(str_views(pats@).skip(0) =~= str_views(pats@));
    }
    while i < pats.len()
        invariant
            i <= pats@.len(),
            first_sub(s@, str_views(pats@)) == first_sub(s@, str_views(pats@).skip(i as int)),
        decreases pats@.len() - i,
    {
        proof {
            assert(str_views(pats@).skip(i as int).drop_first() =~= str_views(pats@).skip(i as int + 1));
        }
        if contains_str(s, pats[i]) {
            return Some(pats[i]);
        }
        i = i + 1;
    }
    proof {
        assert(str_views(pats@).skip(i as int) =~= Seq::<Seq<char>>::empty());
    }
    None
}

/// `str::trim_start_matches` with a non-empty literal pattern: every leading copy removed.
pub open spec fn strip_prefix_all(s: Seq<char>, p: Seq<char>) -> Seq<char>
    decreases s.len(),
{
    if p.len() > 0 && starts_with(s, p) {
        strip_prefix_all(s.skip(p.len() as int), p)
    } else {
        s
    }
}

/// `str::trim_end_matches` with a non-empty literal pattern: every trailing copy removed.
pub open spec fn strip_suffix_all(s: Seq<char>, p: Seq<char>) -> Seq<char>
    decreases s.len(),
{
    if p.len() > 0 && ends_with(s, p) {
        strip_suffix_all(s.take(s.len() - p.len()), p)
    } else {
        s
    }
}

/// `s` without every leading copy of `p`.
pub fn strip_prefix_all_chars(s: &[char], p: &str) -> (r: Vec<char>)
    ensures
        r@ == strip_prefix_all(s@, p@),
{
    let pv = chars_of(p);
    let mut i: usize = 0;
    if pv.len() == 0 {
        return slice_chars(s, 0, s.len());
    }
    proof {
        assert(s@.skip(0) =~= s@);
    }
    while pv.len() <= s.len() - i && matches_at(s, pv.as_slice(), i)
        invariant
            pv@ == p@,
            pv@.len() > 0,
            i <= s@.len(),
            strip_prefix_all(s@, p@) == strip_prefix_all(s@.skip(i as int), p@),
        decreases s@.len() - i,
    {
        proof {
            assert(s@.skip(i as int).take(p@.len() as int) =~= s@.subrange(i as int, i + p@.len()));
            assert(s@.skip(i as int).skip(p@.len() as int) =~= s@.skip(i + p@.len()));
        }
        i = i + pv.len();
    }
    proof {
        if i + pv@.len() <= s@.len() {
            assert(s@.skip(i as int).take(p@.len() as int) =~= s@.subrange(i as int, i + p@.len()));
        }
    }
    let r = slice_chars(s, i, s.len());
    proof {
        assert(r@ =~= s@.skip(i as int));
    }
    r
}

/// `s` without every trailing copy of `p`.
pub fn strip_suffix_all_chars(s: &[char], p: &str) -> (r: Vec<char>)
    ensures
        r@ == strip_suffix_all(s@, p@),
{
    let pv = chars_of(p);
    let mut j: usize = s.len();
    if pv.len() == 0 {
        return slice_chars(s, 0, s.len());
    }
    proof {
        assert(s@.take(s@.len() as int) =~= s@);
    }
    while j >= pv.len() && matches_at(s, pv.as_slice(), j - pv.len())
        invariant
            pv@ == p@,
            pv@.len() > 0,
            j <= s@.len(),
            strip_suffix_all(s@, p@) == strip_suffix_all(s@.take(j as int), p@),
        decreases j,
    {
        proof {
            let t = s@.take(j as int);
            assert(t.skip(t.len() - p@.len()) =~= s@.subrange(j - p@.len(), j as int));
            assert(t.take(t.len() - p@.len()) =~= s@.take(j - p@.len()));
        }
        j = j - pv.len();
    }
    proof {
        let t = s@.take(j as int);
        if j >= pv@.len() {
            assert(t.skip(t.len() - p@.len()) =~= s@.subrange(j - p@.len(), j as int));
        }
    }
    slice_chars(s, 0, j)
}

/// The first `n` characters (all of them when there are fewer).
pub open spec fn first_n(s: Seq<char>, n: nat) -> Seq<char> {
    if s.len() <= n {
        s
    } else {
        s.take(n as int)
    }
}

/// The first `n` characters (all of them when there are fewer).
pub fn first_n_chars(s: &[char], n: usize) -> (r: Vec<char>)
    ensures
        r@ == first_n(s@, n as nat),
{
    if s.len() <= n {
        let r = slice_chars(s, 0, s.len());
        proof {
            assert(r@ =~= s@);
        }
        r
    } else {
        slice_chars(s, 0, n)
    }
}

/// Number of leading characters whose UTF-8 encoding fits in `n` bytes
/// (the prefix that `str::floor_char_boundary(n)` keeps), counting from `i`.
pub open spec fn fit_from(s: Seq<char>, n: nat, i: int) -> int
    decreases s.len() - i,
{
    if 0 <= i < s.len() && utf8_len(s.take(i + 1)) <= n {
        fit_from(s, n, i + 1)
    } else {
        i
    }
}

/// The longest prefix of `s` whose UTF-8 encoding fits in `n` bytes.
pub open spec fn floor_prefix(s: Seq<char>, n: nat) -> Seq<char> {
    s.take(fit_from(s, n, 0))
}

pub proof fn lemma_fit_bounds(s: Seq<char>, n: nat, i: int)
    requires
        0 <= i <= s.len(),
        utf8_len(s.take(i)) <= n,
    ensures
        i <= fit_from(s, n, i) <= s.len(),
        utf8_len(s.take(fit_from(s, n, i))) <= n,
    decreases s.len() - i,
{
    if i < s.len() && utf8_len(s.take(i + 1)) <= n {
        lemma_fit_bounds(s, n, i + 1);
    }
}

/// The longest prefix of `s` whose UTF-8 encoding fits in `n` bytes.
pub fn floor_prefix_chars(s: &[char], n: u128) -> (r: Vec<char>)
    ensures
        r@ == floor_prefix(s@, n as nat),
        utf8_len(r@) <= n,
{
    let mut i: usize = 0;
    let mut bytes: u128 = 0;
    proof {
        assert(s@.take(0) =~= Seq::<char>::empty());
    }
    while i < s.len() && (char_len_utf8(s[i]) as u128) <= n - bytes
        invariant
            i <= s@.len(),
            bytes == utf8_len(s@.take(i as int)),
            bytes <= n,
            fit_from(s@, n as nat, 0) == fit_from(s@, n as nat, i as int),
        decreases s@.len() - i,
    {
        proof {
            assert(s@.take(i + 1) =~= s@.take(i as int).push(s@[i as int]));
            lemma_utf8_len_push(s@.take(i as int), s@[i as int]);
        }
        bytes = bytes + char_len_utf8(s[i]) as u128;
        i = i + 1;
    }
    proof {
        if i < s@.len() {
            assert(s@.take(i + 1) =~= s@.take(i as int).push(s@[i as int]));
            lemma_utf8_len_push(s@.take(i as int), s@[i as int]);
        }
    }
    slice_chars(s, 0, i)
}

// ───────────────────────── joining ─────────────────────────

/// `parts.join(sep)`.
pub open spec fn join(parts: Seq<Seq<char>>, sep: Seq<char>) -> Seq<char>
    decreases parts.len(),
{
    if parts.len() == 0 {
        Seq::empty()
    } else if parts.len() == 1 {
        parts[0]
    } else {
        join(parts.drop_last(), sep) + sep + parts.last()
    }
}

pub fn join_chars(parts: &Vec<Vec<char>>, sep: &[char]) -> (r: Vec<char>)
    ensures
        r@ == join(parts.deep_view(), sep@),
{
    let mut out: Vec<char> = Vec::new();
    let mut i: usize = 0;
    while i < parts.len()
        invariant
            i <= parts@.len(),
            out@ == join(parts.deep_view().take(i as int), sep@),
        decreases parts@.len() - i,
    {
        proof {
            lemma_chars_deep_view(parts@[i as int]);
            assert(parts.deep_view().take(i + 1).drop_last() =~= parts.deep_view().take(i as int));
        }
        if i > 0 {
            push_all(&mut out, sep);
        }
        push_all(&mut out, parts[i].as_slice());
        i = i + 1;
        proof {
            if i == 1 {
                assert(out@ =~= join(parts.deep_view().take(i as int), sep@));
            }
        }
    }
    assert(parts.deep_view().take(i as int) =~= parts.deep_view());
    out
}

// ───────────────────────── character classes ─────────────────────────

/// What `char::is_alphanumeric` gives (the Unicode Alphabetic or Numeric property).
pub uninterp spec fn is_alnum(c: char) -> bool;

/// Whether the character is alphanumeric, by `char::is_alphanumeric`.
/// The contract names the result; the Unicode tables are not restated.
#[verifier::external_body]
pub fn char_is_alphanumeric(c: char) -> (r: bool)
    ensures
        r == is_alnum(c),
{
    c.is_alphanumeric()
}

// ───────────────────────── case mapping ─────────────────────────

/// The result of `str::to_lowercase` (Unicode lowercase mapping) on a character sequence.
pub uninterp spec fn lowercase(s: Seq<char>) -> Seq<char>;

/// A character in ASCII lowercase.
pub open spec fn ascii_lower(c: char) -> char {
    if 'A' <= c && c <= 'Z' {
        ((c as u32) + 32) as char
    } else {
        c
    }
}

/// Every character is ASCII.
pub open spec fn all_ascii(s: Seq<char>) -> bool {
    forall|i: int| 0 <= i < s.len() ==> (#[trigger] s[i] as u32) < 128
}

/// The text in ASCII lowercase.
pub open spec fn ascii_lowered(s: Seq<char>) -> Seq<char> {
    s.map_values(|c: char| ascii_lower(c))
}

/// The words of ASCII text are ASCII.
pub proof fn lemma_words_ascii(s: Seq<char>, i: int)
    requires
        all_ascii(s),
    ensures
        forall|k: int| 0 <= k < words_from(s, i).len() ==> all_ascii(#[trigger] words_from(s, i)[k]),
    decreases s.len() - i,
{
    if 0 <= i <= s.len() {
        let a = skip_ws_from(s, i);
        lemma_skip_ws_bounds(s, i);
        if a < s.len() {
            let b = skip_word_from(s, a);
            lemma_skip_word_bounds(s, a);
            lemma_words_ascii(s, b);
            let w = s.subrange(a, b);
            assert(all_ascii(w)) by {
                assert forall|j: int| 0 <= j < w.len() implies (#[trigger] w[j] as u32) < 128 by {
                    assert(w[j] == s[a + j]);
                }
            }
            let ws = words_from(s, i);
            assert(ws == seq![w] + words_from(s, b));
            assert forall|k: int| 0 <= k < ws.len() implies all_ascii(#[trigger] ws[k]) by {
                if k > 0 {
                    assert(ws[k] == words_from(s, b)[k - 1]);
                }
            }
        }
    }
}

/// Joining ASCII pieces with an ASCII separator gives ASCII text.
pub proof fn lemma_join_ascii(parts: Seq<Seq<char>>, sep: Seq<char>)
    requires
        all_ascii(sep),
        forall|k: int| 0 <= k < parts.len() ==> all_ascii(#[trigger] parts[k]),
    ensures
        all_ascii(join(parts, sep)),
    decreases parts.len(),
{
    if parts.len() > 1 {
        let init = parts.drop_last();
        assert forall|k: int| 0 <= k < init.len() implies all_ascii(#[trigger] init[k]) by {
            assert(init[k] == parts[k]);
        }
        lemma_join_ascii(init, sep);
        let j = join(init, sep);
        let l = parts.last();
        assert(all_ascii(l)) by {
            assert(l == parts[parts.len() - 1]);
        }
        let r = j + sep + l;
        assert forall|i: int| 0 <= i < r.len() implies (#[trigger] r[i] as u32) < 128 by {
            if i < j.len() {
                assert(r[i] == j[i]);
            } else if i < j.len() + sep.len() {
                assert(r[i] == sep[i - j.len()]);
            } else {
                assert(r[i] == l[i - j.len() - sep.len()]);
            }
        }
    } else if parts.len() == 1 {
        assert(all_ascii(parts[0]));
    }
}

/// Trimmed ASCII text is ASCII.
pub proof fn lemma_trim_ascii(s: Seq<char>)
    requires
        all_ascii(s),
    ensures
        all_ascii(trim(s)),
{
    let a = skip_ws_from(s, 0);
    lemma_skip_ws_bounds(s, 0);
    lemma_back_ws_bounds(s, a, s.len() as int);
    let t = trim(s);
    assert forall|j: int| 0 <= j < t.len() implies (#[trigger] t[j] as u32) < 128 by {
        assert(t[j] == s[a + j]);
    }
}

/// ASCII text with its whitespace runs collapsed to single spaces is ASCII.
pub proof fn lemma_collapsed_ascii(s: Seq<char>)
    requires
        all_ascii(s),
    ensures
        all_ascii(join(words(s), " "@)),
{
    lemma_words_ascii(s, 0);
    reveal_strlit(" ");
    lemma_join_ascii(words(s), " "@);
}

/// Lowercases a character sequence by calling `str::to_lowercase`. The
/// contract names the result, and states what the Unicode mapping gives on
/// ASCII text: each letter `A`..`Z` becomes its lowercase letter, every
/// other character stays; beyond ASCII the tables are not restated.
#[verifier::external_body]
pub fn to_lowercase(v: &[char]) -> (r: Vec<char>)
    ensures
        r@ == lowercase(v@),
        all_ascii(v@) ==> r@ == v@.map_values(|c: char| ascii_lower(c)),
{
    let s: String = v.iter().collect();
    s.to_lowercase().chars().collect()
}

} // verus!
