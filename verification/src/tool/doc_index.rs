//! Finding documents by their ids: the ids a bare reference number may
//! stand for, how a requested id is normalised, the ids offered in hints,
//! and the newest document of some types.
use crate::text::{
    chars_of, decimal, ends_with, ends_with_str, lemma_chars_deep_view, push_all, push_line, push_str,
    slice_chars, str_eq, string_of, strings_from, strs, trim, trim_chars, contains,
};
use crate::tool::command_ops::{lemma_split_pieces_len, split_at_any, split_pieces};
use crate::tool::doc_tools::{id_prefix, parse_u64, parse_u64_chars};
use crate::tool::tree::{chars_lt, chars_less};
use vstd::prelude::*;

verus! {

/// The type prefixes of document ids, in the order a reference number is
/// looked up.
pub open spec fn doc_type_prefixes() -> Seq<Seq<char>> {
    seq![
        "dsgn"@,
        "plan"@,
        "pdsg"@,
        "ddtl"@,
        "revw"@,
        "task"@,
        "ctrt"@,
        "rprt"@,
        "reqs"@,
        "anls"@,
        "precepts"@,
    ]
}

/// A number in decimal, padded with zeros to three digits (`{:03}`).
pub open spec fn pad3(n: nat) -> Seq<char> {
    let d = decimal(n);
    if d.len() >= 3 {
        d
    } else if d.len() == 2 {
        seq!['0'] + d
    } else {
        seq!['0', '0'] + d
    }
}

/// The ids that reference number `n` may stand for, in the order they are
/// tried: for each type, `type_n` and then `type_nnn`.
pub open spec fn ref_candidates(n: nat) -> Seq<Seq<char>> {
    Seq::new(
        22,
        |k: int|
            doc_type_prefixes()[k / 2] + "_"@ + if k % 2 == 0 {
                decimal(n)
            } else {
                pad3(n)
            },
    )
}

fn prefix_list() -> (r: Vec<&'static str>)
    ensures
        r@.map_values(|s: &'static str| s@) == doc_type_prefixes(),
{
    let r = vec!["dsgn", "plan", "pdsg", "ddtl", "revw", "task", "ctrt", "rprt", "reqs", "anls", "precepts"];
    proof {
        assert(r@.map_values(|s: &'static str| s@) =~= doc_type_prefixes());
    }
    r
}

fn padded3(d: &Vec<char>) -> (r: Vec<char>)
    ensures
        d@.len() >= 3 ==> r@ == d@,
        d@.len() == 2 ==> r@ == seq!['0'] + d@,
        d@.len() < 2 ==> r@ == seq!['0', '0'] + d@,
{
    let mut r: Vec<char> = Vec::new();
    if d.len() < 3 {
        r.push('0');
        if d.len() < 2 {
            r.push('0');
        }
    }
    push_all(&mut r, d.as_slice());
    proof {
        if d@.len() < 2 {
            assert(r@ =~= seq!['0', '0'] + d@);
        } else if d@.len() == 2 {
            assert(r@ =~= seq!['0'] + d@);
        } else {
            assert(r@ =~= d@);
        }
    }
    r
}

/// The ids that a reference number may stand for (see [`ref_candidates`]).
pub fn ref_id_candidates(n: u64) -> (r: Vec<String>)
    ensures
        strs(r@) == ref_candidates(n as nat),
{
    let ps = prefix_list();
    let d = crate::text::fmt_u64(n);
    let p3 = padded3(&d);
    let mut out: Vec<Vec<char>> = Vec::new();
    let mut i: usize = 0;
    proof {
        assert(doc_type_prefixes().len() == 11);
        assert(ps@.len() == ps@.map_values(|s: &'static str| s@).len());
    }
    while i < ps.len()
        invariant
            ps@.map_values(|s: &'static str| s@) == doc_type_prefixes(),
            ps@.len() == 11,
            i <= 11,
            d@ == decimal(n as nat),
            p3@ == pad3(n as nat),
            out.deep_view() == ref_candidates(n as nat).take(2 * i),
        decreases 11 - i,
    {
        let mut a = chars_of(ps[i]);
        push_str(&mut a, "_");
        push_all(&mut a, d.as_slice());
        let mut b = chars_of(ps[i]);
        push_str(&mut b, "_");
        push_all(&mut b, p3.as_slice());
        proof {
            assert(ps@[i as int]@ == doc_type_prefixes()[i as int]);
            assert((2 * i) / 2 == i && (2 * i) % 2 == 0);
            assert((2 * i + 1) / 2 == i && (2 * i + 1) % 2 == 1);
        }
        let ghost before = out.deep_view();
        let ghost av = a@;
        let ghost bv = b@;
        push_line(&mut out, a);
        push_line(&mut out, b);
        proof {
            let rc = ref_candidates(n as nat);
            assert(ps@.map_values(|s: &'static str| s@)[i as int] == ps@[i as int]@);
            assert(rc[2 * i] == doc_type_prefixes()[i as int] + "_"@ + decimal(n as nat));
            assert(rc[2 * i + 1] == doc_type_prefixes()[i as int] + "_"@ + pad3(n as nat));
            assert(av == rc[2 * i]);
            assert(bv == rc[2 * i + 1]);
            assert(out.deep_view() =~= before.push(av).push(bv));
            assert(rc.take(2 * i + 2) =~= rc.take(2 * i).push(rc[2 * i]).push(rc[2 * i + 1]));
        }
        i = i + 1;
    }
    proof {
        assert(ref_candidates(n as nat).take(22) =~= ref_candidates(n as nat));
    }
    strings_from(&out)
}

// ───────────────────────── requested ids ─────────────────────────

/// A requested id trimmed and without a `.md` ending.
pub open spec fn trimmed_id(raw: Seq<char>) -> Seq<char> {
    let t = trim(raw);
    if ends_with(t, ".md"@) {
        t.take(t.len() - 3)
    } else {
        t
    }
}

/// All characters are ASCII digits (true of the empty text).
pub open spec fn ascii_digits(s: Seq<char>) -> bool {
    forall|i: int| 0 <= i < s.len() ==> '0' <= #[trigger] s[i] && s[i] <= '9'
}

/// The reference number a requested id stands for: an id of digits only
/// whose value fits in `u64`.
pub open spec fn ref_number(raw: Seq<char>) -> Option<nat> {
    let id = trimmed_id(raw);
    if ascii_digits(id) {
        parse_u64(id)
    } else {
        None
    }
}

/// A requested id as it is looked up: trimmed, without `.md`; and, when it
/// is a bare number, that number (to be resolved to the id it stands for).
pub fn doc_id_request(raw: &str) -> (r: (String, Option<u64>))
    ensures
        r.0@ == trimmed_id(raw@),
        match r.1 {
            Some(n) => ref_number(raw@) == Some(n as nat),
            None => ref_number(raw@) is None,
        },
{
    let v = chars_of(raw);
    let t = trim_chars(v.as_slice());
    let id = if ends_with_str(t.as_slice(), ".md") {
        proof {
            reveal_strlit(".md");
        }
        slice_chars(t.as_slice(), 0, t.len() - 3)
    } else {
        t
    };
    proof {
        if ends_with(trim(raw@), ".md"@) {
            assert(id@ =~= trim(raw@).take(trim(raw@).len() - 3));
        }
    }
    let mut i: usize = 0;
    let mut digits = true;
    while i < id.len()
        invariant
            i <= id@.len(),
            id@ == trimmed_id(raw@),
            digits == forall|k: int| 0 <= k < i ==> '0' <= #[trigger] id@[k] && id@[k] <= '9',
        decreases id@.len() - i,
    {
        if !('0' <= id[i] && id[i] <= '9') {
            digits = false;
        }
        i = i + 1;
    }
    let num = if digits {
        parse_u64_chars(id.as_slice())
    } else {
        None
    };
    (string_of(id.as_slice()), num)
}

// ───────────────────────── ids for hints ─────────────────────────

/// `e` put into the sorted ids `s` after those not greater.
pub open spec fn insert_id(s: Seq<Seq<char>>, e: Seq<char>) -> Seq<Seq<char>>
    decreases s.len(),
{
    if s.len() == 0 {
        seq![e]
    } else if chars_lt(e, s[0]) {
        seq![e] + s
    } else {
        seq![s[0]] + insert_id(s.drop_first(), e)
    }
}

/// The document id of a file name: a `.md` file whose stem holds `_`.
pub open spec fn id_of_file(name: Seq<char>) -> Option<Seq<char>> {
    if ends_with(name, ".md"@) && name.take(name.len() - 3).contains('_') {
        Some(name.take(name.len() - 3))
    } else {
        None
    }
}

/// The document ids among the file names, sorted.
pub open spec fn sorted_ids(names: Seq<Seq<char>>) -> Seq<Seq<char>>
    decreases names.len(),
{
    if names.len() == 0 {
        Seq::empty()
    } else {
        match id_of_file(names.last()) {
            Some(id) => insert_id(sorted_ids(names.drop_last()), id),
            None => sorted_ids(names.drop_last()),
        }
    }
}

proof fn lemma_insert_id_at(s: Seq<Seq<char>>, e: Seq<char>, p: int)
    requires
        0 <= p <= s.len(),
        forall|q: int| 0 <= q < p ==> !chars_lt(e, #[trigger] s[q]),
        p < s.len() ==> chars_lt(e, s[p]),
    ensures
        insert_id(s, e) == s.insert(p, e),
    decreases s.len(),
{
    if s.len() == 0 {
        assert(s.insert(p, e) =~= seq![e]);
    } else if p == 0 {
        assert(s.insert(0, e) =~= seq![e] + s);
    } else {
        let t = s.drop_first();
        assert forall|q: int| 0 <= q < p - 1 implies !chars_lt(e, #[trigger] t[q]) by {
            assert(t[q] == s[q + 1]);
        }
        lemma_insert_id_at(t, e, p - 1);
        assert(s.insert(p, e) =~= seq![s[0]] + t.insert(p - 1, e));
    }
}

fn id_of_file_exec(name: &str) -> (r: Option<Vec<char>>)
    ensures
        match id_of_file(name@) {
            Some(id) => r matches Some(v) && v@ == id,
            None => r is None,
        },
{
    proof {
        reveal_strlit(".md");
    }
    let v = chars_of(name);
    if !ends_with_str(v.as_slice(), ".md") {
        return None;
    }
    let stem = slice_chars(v.as_slice(), 0, v.len() - 3);
    proof {
        assert(stem@ =~= name@.take(name@.len() - 3));
    }
    let mut k: usize = 0;
    while k < stem.len()
        invariant
            k <= stem@.len(),
            ends_with(name@, ".md"@),
            stem@ == name@.take(name@.len() - 3),
            forall|j: int| 0 <= j < k ==> stem@[j] != '_',
        decreases stem@.len() - k,
    {
        if stem[k] == '_' {
            proof {
                assert(stem@[k as int] == '_');
                assert(stem@.contains('_'));
            }
            return Some(stem);
        }
        k = k + 1;
    }
    None
}

/// The document ids among the file names of a folder (a `.md` file whose
/// stem holds `_`), sorted, at most `limit` of them.
pub fn doc_ids_from_names(names: &Vec<String>, limit: usize) -> (r: Vec<String>)
    ensures
        strs(r@) == (if sorted_ids(strs(names@)).len() <= limit {
            sorted_ids(strs(names@))
        } else {
            sorted_ids(strs(names@)).take(limit as int)
        }),
{
    let mut out: Vec<Vec<char>> = Vec::new();
    let mut i: usize = 0;
    while i < names.len()
        invariant
            i <= names@.len(),
            out.deep_view() == sorted_ids(strs(names@).take(i as int)),
        decreases names@.len() - i,
    {
        proof {
            assert(strs(names@).take(i + 1).drop_last() =~= strs(names@).take(i as int));
            assert(strs(names@).take(i + 1).last() == names@[i as int]@);
        }
        match id_of_file_exec(names[i].as_str()) {
            Some(id) => {
                let ghost before = out.deep_view();
                let mut p: usize = 0;
                while p < out.len() && !chars_less(id.as_slice(), out[p].as_slice())
                    invariant
                        p <= out@.len(),
                        before == out.deep_view(),
                        forall|q: int| 0 <= q < p ==> !chars_lt(id@, #[trigger] before[q]),
                    decreases out@.len() - p,
                {
                    proof {
                        assert(before[p as int] == out@[p as int]@);
                    }
                    p = p + 1;
                }
                proof {
                    if p < out@.len() {
                        assert(before[p as int] == out@[p as int]@);
                    }
                    lemma_insert_id_at(before, id@, p as int);
                    lemma_chars_deep_view(id);
                }
                let ghost idv = id@;
                out.insert(p, id);
                proof {
                    assert(out.deep_view() =~= before.insert(p as int, idv));
                }
            },
            None => {},
        }
        i = i + 1;
    }
    proof {
        assert(strs(names@).take(i as int) =~= strs(names@));
    }
    out.truncate(limit);
    strings_from(&out)
}

// ───────────────────────── the newest document ─────────────────────────

/// The part of an id after its last `_` (the whole id without one).
pub open spec fn id_suffix(id: Seq<char>) -> Seq<char> {
    split_pieces(id, seq!['_']).last()
}

/// One file name taken into the search for the newest document: a `.md`
/// file of a wanted type (and `keep`) whose number is at least the best
/// one so far becomes the best; a wanted file whose number does not parse
/// ends the search with nothing (`None`).
pub open spec fn latest_step(
    best: Option<(nat, Seq<char>)>,
    name: Seq<char>,
    keep: bool,
    prefixes: Seq<Seq<char>>,
) -> Option<Option<(nat, Seq<char>)>> {
    if !ends_with(name, ".md"@) {
        Some(best)
    } else {
        let id = name.take(name.len() - 3);
        if !prefixes.contains(id_prefix(id)) || !keep {
            Some(best)
        } else {
            match parse_u64(id_suffix(id)) {
                None => None,
                Some(n) => if best matches Some(b) && n < b.0 {
                    Some(best)
                } else {
                    Some(Some((n, id)))
                },
            }
        }
    }
}

/// The search for the newest document over the file names in order.
pub open spec fn latest_scan(names: Seq<Seq<char>>, keeps: Seq<bool>, prefixes: Seq<Seq<char>>) -> Option<
    Option<(nat, Seq<char>)>,
>
    decreases names.len(),
{
    if names.len() == 0 {
        Some(None)
    } else {
        match latest_scan(names.drop_last(), keeps.take(names.len() - 1), prefixes) {
            None => None,
            Some(best) => latest_step(best, names.last(), keeps[names.len() - 1], prefixes),
        }
    }
}

/// The id of the newest document: the highest number, the last found
/// among equals.
pub open spec fn latest_doc(names: Seq<Seq<char>>, keeps: Seq<bool>, prefixes: Seq<Seq<char>>) -> Option<
    Seq<char>,
> {
    match latest_scan(names, keeps, prefixes) {
        Some(Some(b)) => Some(b.1),
        _ => None,
    }
}

/// Every file counts.
pub open spec fn all_kept(n: nat) -> Seq<bool> {
    Seq::new(n, |i: int| true)
}

fn listed_prefix(p: &[char], prefixes: &Vec<&str>) -> (r: bool)
    ensures
        r == prefixes@.map_values(|s: &str| s@).contains(p@),
{
    let ghost ps = prefixes@.map_values(|s: &str| s@);
    let mut i: usize = 0;
    while i < prefixes.len()
        invariant
            i <= prefixes@.len(),
            ps == prefixes@.map_values(|s: &str| s@),
            forall|k: int| 0 <= k < i ==> ps[k] != p@,
        decreases prefixes@.len() - i,
    {
        let pv = chars_of(prefixes[i]);
        if crate::text::eq_chars(pv.as_slice(), p) {
            proof {
                assert(ps[i as int] == p@);
            }
            return true;
        }
        i = i + 1;
    }
    false
}

proof fn lemma_scan_abort(names: Seq<Seq<char>>, keeps: Seq<bool>, ps: Seq<Seq<char>>, k: int)
    requires
        0 <= k <= names.len(),
        keeps.len() == names.len(),
        latest_scan(names.take(k), keeps.take(k), ps) is None,
    ensures
        latest_scan(names, keeps, ps) is None,
    decreases names.len() - k,
{
    if k == names.len() {
        assert(names.take(k) =~= names);
        assert(keeps.take(k) =~= keeps);
    } else {
        let n1 = names.take(k + 1);
        assert(n1.drop_last() =~= names.take(k));
        assert(keeps.take(k + 1).take(k) =~= keeps.take(k));
        assert(latest_scan(n1, keeps.take(k + 1), ps) is None);
        lemma_scan_abort(names, keeps, ps, k + 1);
    }
}

spec fn best_view(best: Option<(u64, Vec<char>)>) -> Option<(nat, Seq<char>)> {
    match best {
        Some(b) => Some((b.0 as nat, b.1@)),
        None => None,
    }
}

fn scan_latest(names: &Vec<String>, keeps: &Vec<bool>, prefixes: &Vec<&str>) -> (r: Option<String>)
    requires
        names@.len() == keeps@.len(),
    ensures
        match latest_doc(strs(names@), keeps@, prefixes@.map_values(|s: &str| s@)) {
            Some(id) => r matches Some(x) && x@ == id,
            None => r is None,
        },
{
    let ghost ps = prefixes@.map_values(|s: &str| s@);
    let mut best: Option<(u64, Vec<char>)> = None;
    let mut i: usize = 0;
    while i < names.len()
        invariant
            i <= names@.len(),
            names@.len() == keeps@.len(),
            ps == prefixes@.map_values(|s: &str| s@),
            latest_scan(strs(names@).take(i as int), keeps@.take(i as int), ps) == Some(best_view(best)),
        decreases names@.len() - i,
    {
        proof {
            let t = strs(names@).take(i + 1);
            assert(t.drop_last() =~= strs(names@).take(i as int));
            assert(keeps@.take(i + 1).take(i as int) =~= keeps@.take(i as int));
            assert(t.last() == names@[i as int]@);
            assert(keeps@.take(i + 1)[i as int] == keeps@[i as int]);
        }
        let v = chars_of(names[i].as_str());
        if ends_with_str(v.as_slice(), ".md") {
            proof {
                reveal_strlit(".md");
            }
            let id = slice_chars(v.as_slice(), 0, v.len() - 3);
            proof {
                assert(id@ =~= names@[i as int]@.take(names@[i as int]@.len() - 3));
            }
            let seps = vec!['_'];
            let pieces = split_at_any(id.as_slice(), seps.as_slice());
            proof {
                assert(seps@ =~= seq!['_']);
                lemma_split_pieces_len(id@, seq!['_']);
                lemma_chars_deep_view(pieces@[0]);
                lemma_chars_deep_view(pieces@[pieces@.len() - 1]);
            }
            if listed_prefix(pieces[0].as_slice(), prefixes) && keeps[i] {
                let last = pieces.len() - 1;
                match parse_u64_chars(pieces[last].as_slice()) {
                    None => {
                        proof {
                            let nm = strs(names@);
                            assert(pieces.deep_view()[last as int] == pieces@[last as int]@);
                            assert(id_suffix(id@) == pieces@[last as int]@);
                            assert(id_prefix(id@) == pieces@[0]@);
                            assert(latest_step(best_view(best), nm[i as int], keeps@[i as int], ps) is None);
                            assert(latest_scan(nm.take(i + 1), keeps@.take(i + 1), ps) is None);
                            lemma_scan_abort(nm, keeps@, ps, i + 1);
                        }
                        return None;
                    },
                    Some(n) => {
                        let replace = match &best {
                            Some(b) => !(n < b.0),
                            None => true,
                        };
                        if replace {
                            best = Some((n, id));
                        }
                    },
                }
            }
        }
        i = i + 1;
    }
    proof {
        assert(strs(names@).take(i as int) =~= strs(names@));
        assert(keeps@.take(i as int) =~= keeps@);
    }
    match best {
        Some(b) => Some(string_of(b.1.as_slice())),
        None => None,
    }
}

/// The newest document among the file names of the document folders (in
/// the order read) whose type prefix is one of `prefixes`; nothing when a
/// wanted file has no number after its last `_`.
pub fn latest_doc_id(names: &Vec<String>, prefixes: &Vec<&str>) -> (r: Option<String>)
    ensures
        match latest_doc(strs(names@), all_kept(names@.len()), prefixes@.map_values(|s: &str| s@)) {
            Some(id) => r matches Some(x) && x@ == id,
            None => r is None,
        },
{
    let mut keeps: Vec<bool> = Vec::new();
    let mut i: usize = 0;
    while i < names.len()
        invariant
            i <= names@.len(),
            keeps@ == all_kept(i as nat),
        decreases names@.len() - i,
    {
        keeps.push(true);
        i = i + 1;
        proof {
            assert(keeps@ =~= all_kept(i as nat));
        }
    }
    scan_latest(names, &keeps, prefixes)
}

/// Like [`latest_doc_id`], counting only the files whose body is not empty
/// (`non_empty`, one flag per name).
pub fn latest_non_empty_doc_id(names: &Vec<String>, non_empty: &Vec<bool>, prefixes: &Vec<&str>) -> (r:
    Option<String>)
    requires
        names@.len() == non_empty@.len(),
    ensures
        match latest_doc(strs(names@), non_empty@, prefixes@.map_values(|s: &str| s@)) {
            Some(id) => r matches Some(x) && x@ == id,
            None => r is None,
        },
{
    scan_latest(names, non_empty, prefixes)
}

} // verus!
