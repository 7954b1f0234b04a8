//! Read cache for file contents, bucketed by project directory.
//!
//! Directories and paths are held as their components, so two spellings of
//! one path meet in the same entry and a directory prefix is matched
//! component by component. An entry is served only while the file's
//! modification time is the one it was cached with.
use crate::text::{chars_of, push_str, str_eq, string_of, strs};
use vstd::prelude::*;

verus! {

/// One cached read: project directory, file path, the file's modification
/// time (nanoseconds from the Unix epoch) and the read result.
#[derive(Debug)]
pub struct CacheEntry {
    pub dir: Vec<String>,
    pub path: Vec<String>,
    pub mtime: i128,
    pub result: String,
}

impl View for CacheEntry {
    type V = (Seq<Seq<char>>, Seq<Seq<char>>, i128, Seq<char>);

    open spec fn view(&self) -> Self::V {
        (strs(self.dir@), strs(self.path@), self.mtime, self.result@)
    }
}

/// The cache: its entries, latest binding of a key last.
#[derive(Debug)]
pub struct ReadCache {
    entries: Vec<CacheEntry>,
}

impl View for ReadCache {
    type V = Seq<(Seq<Seq<char>>, Seq<Seq<char>>, i128, Seq<char>)>;

    closed spec fn view(&self) -> Self::V {
        self.entries@.map_values(|e: CacheEntry| e@)
    }
}

/// The (modification time, result) bound to `path` in the bucket of `dir`.
pub open spec fn cached(
    s: Seq<(Seq<Seq<char>>, Seq<Seq<char>>, i128, Seq<char>)>,
    dir: Seq<Seq<char>>,
    path: Seq<Seq<char>>,
) -> Option<(i128, Seq<char>)>
    decreases s.len(),
{
    if s.len() == 0 {
        None
    } else if s.last().0 == dir && s.last().1 == path {
        Some((s.last().2, s.last().3))
    } else {
        cached(s.drop_last(), dir, path)
    }
}

/// `pre` is a leading run of the components of `p` (as `Path::starts_with`).
pub open spec fn parts_prefix(pre: Seq<Seq<char>>, p: Seq<Seq<char>>) -> bool {
    pre.len() <= p.len() && p.take(pre.len() as int) == pre
}

/// Whether an entry under (`d`, `p`) goes when dropping `path` in `dir`:
/// the exact path when `whole`, else every path under it.
pub open spec fn goes(
    d: Seq<Seq<char>>,
    p: Seq<Seq<char>>,
    dir: Seq<Seq<char>>,
    path: Seq<Seq<char>>,
    whole: bool,
) -> bool {
    d == dir && (if whole {
        p == path
    } else {
        parts_prefix(path, p)
    })
}

/// The entries that stay when dropping `path` in `dir`.
pub open spec fn kept(
    s: Seq<(Seq<Seq<char>>, Seq<Seq<char>>, i128, Seq<char>)>,
    dir: Seq<Seq<char>>,
    path: Seq<Seq<char>>,
    whole: bool,
) -> Seq<(Seq<Seq<char>>, Seq<Seq<char>>, i128, Seq<char>)>
    decreases s.len(),
{
    if s.len() == 0 {
        s
    } else {
        let rest = kept(s.drop_last(), dir, path, whole);
        if goes(s.last().0, s.last().1, dir, path, whole) {
            rest
        } else {
            rest.push(s.last())
        }
    }
}

/// The cache after binding `path` in `dir` to (`mtime`, `result`).
pub open spec fn inserted(
    s: Seq<(Seq<Seq<char>>, Seq<Seq<char>>, i128, Seq<char>)>,
    dir: Seq<Seq<char>>,
    path: Seq<Seq<char>>,
    mtime: i128,
    result: Seq<char>,
) -> Seq<(Seq<Seq<char>>, Seq<Seq<char>>, i128, Seq<char>)> {
    kept(s, dir, path, true).push((dir, path, mtime, result))
}

/// The marker appended to a result served from the cache.
pub open spec fn hit_marker() -> Seq<char> {
    "[缓存命中: 内容未变 (cached: true)]"@
}

/// What a lookup gives: the cached result with the hit marker, when the
/// file's current modification time is known and equals the cached one.
pub open spec fn lookup_result(
    s: Seq<(Seq<Seq<char>>, Seq<Seq<char>>, i128, Seq<char>)>,
    dir: Seq<Seq<char>>,
    path: Seq<Seq<char>>,
    current: Option<i128>,
) -> Option<Seq<char>> {
    match cached(s, dir, path) {
        Some((m, r)) => if current == Some(m) {
            Some(r + hit_marker())
        } else {
            None
        },
        None => None,
    }
}

pub proof fn lemma_cached_kept(
    s: Seq<(Seq<Seq<char>>, Seq<Seq<char>>, i128, Seq<char>)>,
    dir: Seq<Seq<char>>,
    path: Seq<Seq<char>>,
    whole: bool,
    d: Seq<Seq<char>>,
    p: Seq<Seq<char>>,
)
    ensures
        cached(kept(s, dir, path, whole), d, p) == (if goes(d, p, dir, path, whole) {
            None
        } else {
            cached(s, d, p)
        }),
    decreases s.len(),
{
    if s.len() > 0 {
        lemma_cached_kept(s.drop_last(), dir, path, whole, d, p);
        let rest = kept(s.drop_last(), dir, path, whole);
        assert(rest.push(s.last()).drop_last() =~= rest);
    }
}

/// No two entries bind the same path in the same directory bucket.
pub open spec fn distinct_keys(s: Seq<(Seq<Seq<char>>, Seq<Seq<char>>, i128, Seq<char>)>) -> bool {
    forall|i: int, j: int|
        0 <= i < j < s.len() ==> !(#[trigger] s[i].0 == #[trigger] s[j].0 && s[i].1 == s[j].1)
}

/// Every entry that stays was an entry before, and does not go.
proof fn lemma_kept_from(
    s: Seq<(Seq<Seq<char>>, Seq<Seq<char>>, i128, Seq<char>)>,
    dir: Seq<Seq<char>>,
    path: Seq<Seq<char>>,
    whole: bool,
)
    ensures
        distinct_keys(s) ==> distinct_keys(kept(s, dir, path, whole)),
        forall|k: int|
            #![trigger kept(s, dir, path, whole)[k]]
            0 <= k < kept(s, dir, path, whole).len() ==> !goes(
                kept(s, dir, path, whole)[k].0,
                kept(s, dir, path, whole)[k].1,
                dir,
                path,
                whole,
            ),
        forall|k: int|
            #![trigger kept(s, dir, path, whole)[k]]
            0 <= k < kept(s, dir, path, whole).len() ==> exists|m: int|
                0 <= m < s.len() && s[m] == kept(s, dir, path, whole)[k],
    decreases s.len(),
{
    if s.len() > 0 {
        let init = s.drop_last();
        lemma_kept_from(init, dir, path, whole);
        let rest = kept(init, dir, path, whole);
        assert forall|k: int| 0 <= k < rest.len() implies exists|m: int|
            0 <= m < s.len() && s[m] == #[trigger] rest[k] by {
            let m = choose|m: int| 0 <= m < init.len() && init[m] == rest[k];
            assert(s[m] == init[m]);
        }
        if !goes(s.last().0, s.last().1, dir, path, whole) {
            let t = rest.push(s.last());
            assert forall|k: int| 0 <= k < t.len() implies exists|m: int|
                0 <= m < s.len() && s[m] == #[trigger] t[k] by {
                if k < rest.len() {
                    assert(t[k] == rest[k]);
                } else {
                    assert(s[s.len() - 1] == t[k]);
                }
            }
            assert forall|k: int| 0 <= k < t.len() implies !goes(#[trigger] t[k].0, t[k].1, dir, path, whole) by {
                if k < rest.len() {
                    assert(t[k] == rest[k]);
                }
            }
        }
        if !goes(s.last().0, s.last().1, dir, path, whole) {
            assert(s[s.len() - 1] == s.last());
            if distinct_keys(s) {
                assert forall|k: int| 0 <= k < rest.len() implies !(rest[k].0 == s.last().0 && rest[k].1
                    == s.last().1) by {
                    let m = choose|m: int| 0 <= m < init.len() && init[m] == rest[k];
                    assert(s[m] == init[m]);
                    assert(s[m].0 != s[s.len() - 1].0 || s[m].1 != s[s.len() - 1].1);
                }
                assert(distinct_keys(init)) by {
                    assert forall|i: int, j: int| 0 <= i < j < init.len() implies !(#[trigger] init[i].0
                        == #[trigger] init[j].0 && init[i].1 == init[j].1) by {
                        assert(init[i] == s[i] && init[j] == s[j]);
                    }
                }
            }
        } else if distinct_keys(s) {
            assert(distinct_keys(init)) by {
                assert forall|i: int, j: int| 0 <= i < j < init.len() implies !(#[trigger] init[i].0
                    == #[trigger] init[j].0 && init[i].1 == init[j].1) by {
                    assert(init[i] == s[i] && init[j] == s[j]);
                }
            }
        }
    }
}

/// The cache's entries keep one binding per path in each directory bucket:
/// an insert and an invalidation keep that so, as an empty cache has it.
pub proof fn law_one_binding_per_path(
    s: Seq<(Seq<Seq<char>>, Seq<Seq<char>>, i128, Seq<char>)>,
    dir: Seq<Seq<char>>,
    path: Seq<Seq<char>>,
    mtime: i128,
    result: Seq<char>,
    whole: bool,
)
    requires
        distinct_keys(s),
    ensures
        distinct_keys(inserted(s, dir, path, mtime, result)),
        distinct_keys(kept(s, dir, path, whole)),
        distinct_keys(Seq::<(Seq<Seq<char>>, Seq<Seq<char>>, i128, Seq<char>)>::empty()),
{
    lemma_kept_from(s, dir, path, whole);
    lemma_kept_from(s, dir, path, true);
    let k = kept(s, dir, path, true);
    let t = inserted(s, dir, path, mtime, result);
    assert forall|i: int, j: int| 0 <= i < j < t.len() implies !(#[trigger] t[i].0 == #[trigger] t[j].0
        && t[i].1 == t[j].1) by {
        assert(t[i] == k[i]);
        if j < k.len() {
            assert(t[j] == k[j]);
        } else {
            assert(!goes(k[i].0, k[i].1, dir, path, true));
        }
    }
}

/// Whether two component lists are equal.
fn same_parts(a: &Vec<String>, b: &Vec<String>) -> (r: bool)
    ensures
        r == (strs(a@) == strs(b@)),
{
    if a.len() != b.len() {
        proof {
            assert(strs(a@).len() != strs(b@).len());
        }
        return false;
    }
    let mut i: usize = 0;
    while i < a.len()
        invariant
            a@.len() == b@.len(),
            i <= a@.len(),
            forall|j: int| 0 <= j < i ==> a@[j]@ == b@[j]@,
        decreases a@.len() - i,
    {
        if !str_eq(a[i].as_str(), b[i].as_str()) {
            proof {
                assert(strs(a@)[i as int] != strs(b@)[i as int]);
            }
            return false;
        }
        i = i + 1;
    }
    proof {
        assert(strs(a@) =~= strs(b@));
    }
    true
}

/// Whether the components of `pre` lead the components of `p`.
fn leads(pre: &Vec<String>, p: &Vec<String>) -> (r: bool)
    ensures
        r == parts_prefix(strs(pre@), strs(p@)),
{
    if pre.len() > p.len() {
        return false;
    }
    let mut i: usize = 0;
    while i < pre.len()
        invariant
            pre@.len() <= p@.len(),
            i <= pre@.len(),
            forall|j: int| 0 <= j < i ==> pre@[j]@ == p@[j]@,
        decreases pre@.len() - i,
    {
        if !str_eq(pre[i].as_str(), p[i].as_str()) {
            proof {
                assert(strs(p@).take(pre@.len() as int)[i as int] != strs(pre@)[i as int]);
            }
            return false;
        }
        i = i + 1;
    }
    proof {
        assert(strs(p@).take(pre@.len() as int) =~= strs(pre@));
    }
    true
}

impl ReadCache {
    /// An empty cache.
    pub fn new() -> (r: Self)
        ensures
            r@ == Seq::<(Seq<Seq<char>>, Seq<Seq<char>>, i128, Seq<char>)>::empty(),
            distinct_keys(r@),
    {
        let r = ReadCache { entries: Vec::new() };
        proof {
            assert(r@ =~= Seq::<(Seq<Seq<char>>, Seq<Seq<char>>, i128, Seq<char>)>::empty());
        }
        r
    }

    /// Drops the entries that `goes` selects, keeping the others in order.
    fn drop_entries(&mut self, dir: &Vec<String>, path: &Vec<String>, whole: bool)
        ensures
            final(self)@ == kept(old(self)@, strs(dir@), strs(path@), whole),
    {
        let ghost orig = self@;
        let ghost d = strs(dir@);
        let ghost pp = strs(path@);
        let mut i: usize = 0;
        let ghost mut j: int = 0;
        proof {
            assert(orig.take(0) =~= Seq::<(Seq<Seq<char>>, Seq<Seq<char>>, i128, Seq<char>)>::empty());
            assert(orig.skip(0) =~= orig);
            assert(kept(orig.take(0), d, pp, whole) + orig.skip(0) =~= self@);
        }
        while i < self.entries.len()
            invariant
                0 <= j <= orig.len(),
                d == strs(dir@),
                pp == strs(path@),
                self@ == kept(orig.take(j), d, pp, whole) + orig.skip(j),
                i == kept(orig.take(j), d, pp, whole).len(),
            decreases self.entries@.len() - i,
        {
            let ghost before = self@;
            let ghost k = kept(orig.take(j), d, pp, whole);
            proof {
                assert(self@.len() == self.entries@.len());
                assert(before[i as int] == orig[j]);
                assert(self.entries@[i as int]@ == orig[j]);
                assert(orig.take(j + 1).drop_last() =~= orig.take(j));
                assert(orig.take(j + 1).last() == orig[j]);
            }
            let e = &self.entries[i];
            let g = same_parts(&e.dir, dir) && (if whole {
                same_parts(&e.path, path)
            } else {
                leads(path, &e.path)
            });
            if g {
                let ghost ents = self.entries@;
                self.entries.remove(i);
                proof {
                    assert(self.entries@ == ents.remove(i as int));
                    assert(self@.len() == before.len() - 1);
                    assert forall|x: int| 0 <= x < self@.len() implies self@[x] == (k + orig.skip(
                        j + 1,
                    ))[x] by {
                        if x < i {
                            assert(self@[x] == ents[x]@);
                            assert(before[x] == ents[x]@);
                        } else {
                            assert(self@[x] == ents[x + 1]@);
                            assert(before[x + 1] == ents[x + 1]@);
                        }
                    }
                    assert(self@ =~= k + orig.skip(j + 1));
                }
            } else {
                i = i + 1;
                proof {
                    assert(self@ =~= k.push(orig[j]) + orig.skip(j + 1));
                }
            }
            proof {
                j = j + 1;
            }
        }
        proof {
            assert(orig.take(j) =~= orig);
            assert(self@ =~= kept(orig, d, pp, whole));
        }
    }
}

/// Binds `path` in the bucket of `working_dir` to a read result and the
/// modification time it was read at, replacing any earlier binding.
pub fn cache_insert(
    cache: &mut ReadCache,
    working_dir: &Vec<String>,
    path: Vec<String>,
    mtime: i128,
    result: String,
)
    ensures
        final(cache)@ == inserted(old(cache)@, strs(working_dir@), strs(path@), mtime, result@),
        distinct_keys(old(cache)@) ==> distinct_keys(final(cache)@),
{
    cache.drop_entries(working_dir, &path, true);
    let ghost mid = cache@;
    let dir = working_dir.clone();
    proof {
        assert(strs(dir@) =~= strs(working_dir@));
    }
    let e = CacheEntry { dir, path, mtime, result };
    cache.entries.push(e);
    proof {
        assert(cache@ =~= mid.push(e@));
        if distinct_keys(old(cache)@) {
            law_one_binding_per_path(old(cache)@, strs(working_dir@), strs(path@), mtime, result@, true);
        }
    }
}

/// Drops every entry of the bucket of `working_dir` whose path is `path`
/// or lies under it.
pub fn cache_invalidate(cache: &mut ReadCache, working_dir: &Vec<String>, path: &Vec<String>)
    ensures
        final(cache)@ == kept(old(cache)@, strs(working_dir@), strs(path@), false),
        distinct_keys(old(cache)@) ==> distinct_keys(final(cache)@),
{
    cache.drop_entries(working_dir, path, false);
    proof {
        lemma_kept_from(old(cache)@, strs(working_dir@), strs(path@), false);
    }
}

/// Empties the cache, all buckets.
pub fn cache_clear_all(cache: &mut ReadCache)
    ensures
        final(cache)@ == Seq::<(Seq<Seq<char>>, Seq<Seq<char>>, i128, Seq<char>)>::empty(),
{
    cache.entries.clear();
    proof {
        assert(cache@ =~= Seq::<(Seq<Seq<char>>, Seq<Seq<char>>, i128, Seq<char>)>::empty());
    }
}

/// The cached read result for `path` in `working_dir`, marked as a cache hit,
/// when `current_mtime` (the file's modification time now; `None` when it
/// cannot be read) equals the one it was cached with.
pub fn cache_lookup(
    cache: &ReadCache,
    working_dir: &Vec<String>,
    path: &Vec<String>,
    current_mtime: Option<i128>,
) -> (r: Option<String>)
    ensures
        r matches Some(s) ==> lookup_result(cache@, strs(working_dir@), strs(path@), current_mtime)
            == Some(s@),
        r is None ==> lookup_result(cache@, strs(working_dir@), strs(path@), current_mtime) is None,
{
    let ghost d = strs(working_dir@);
    let ghost p = strs(path@);
    let n = cache.entries.len();
    let mut i: usize = n;
    proof {
        assert(cache@.take(n as int) =~= cache@);
    }
    while i > 0
        invariant
            i <= n,
            n == cache@.len(),
            n == cache.entries@.len(),
            d == strs(working_dir@),
            p == strs(path@),
            cached(cache@, d, p) == cached(cache@.take(i as int), d, p),
        decreases i,
    {
        let e = &cache.entries[i - 1];
        proof {
            assert(cache@[i - 1] == e@);
            assert(cache@.take(i as int).last() == e@);
            assert(cache@.take(i as int).drop_last() =~= cache@.take(i - 1));
        }
        if same_parts(&e.dir, working_dir) && same_parts(&e.path, path) {
            match current_mtime {
                Some(m) => {
                    if m == e.mtime {
                        let mut v = chars_of(e.result.as_str());
                        push_str(&mut v, "[缓存命中: 内容未变 (cached: true)]");
                        return Some(string_of(v.as_slice()));
                    }
                    return None;
                },
                None => {
                    return None;
                },
            }
        }
        i = i - 1;
    }
    proof {
        assert(cache@.take(0) =~= Seq::<(Seq<Seq<char>>, Seq<Seq<char>>, i128, Seq<char>)>::empty());
    }
    None
}

/// A read after a write gives what was written: once `path` is cached in
/// `dir` at `mtime`, a lookup at that same modification time serves the
/// cached result, marked as a hit, and a lookup at any other time misses.
pub proof fn law_read_after_insert(
    s: Seq<(Seq<Seq<char>>, Seq<Seq<char>>, i128, Seq<char>)>,
    dir: Seq<Seq<char>>,
    path: Seq<Seq<char>>,
    mtime: i128,
    result: Seq<char>,
    other_mtime: i128,
)
    requires
        other_mtime != mtime,
    ensures
        lookup_result(inserted(s, dir, path, mtime, result), dir, path, Some(mtime)) == Some(
            result + hit_marker(),
        ),
        lookup_result(inserted(s, dir, path, mtime, result), dir, path, Some(other_mtime)) is None,
        lookup_result(inserted(s, dir, path, mtime, result), dir, path, None) is None,
{
    let t = kept(s, dir, path, true);
    assert(t.push((dir, path, mtime, result)).drop_last() =~= t);
}

/// Caching one path leaves every other path, in every bucket, as it was.
pub proof fn law_insert_keeps_other_paths(
    s: Seq<(Seq<Seq<char>>, Seq<Seq<char>>, i128, Seq<char>)>,
    dir: Seq<Seq<char>>,
    path: Seq<Seq<char>>,
    mtime: i128,
    result: Seq<char>,
    d: Seq<Seq<char>>,
    p: Seq<Seq<char>>,
)
    requires
        d != dir || p != path,
    ensures
        cached(inserted(s, dir, path, mtime, result), d, p) == cached(s, d, p),
{
    lemma_cached_kept(s, dir, path, true, d, p);
    let t = kept(s, dir, path, true);
    assert(t.push((dir, path, mtime, result)).drop_last() =~= t);
}

/// After invalidating `path` in `dir`, nothing at or under `path` in that
/// bucket is served; every other entry stays as it was.
pub proof fn law_invalidate(
    s: Seq<(Seq<Seq<char>>, Seq<Seq<char>>, i128, Seq<char>)>,
    dir: Seq<Seq<char>>,
    path: Seq<Seq<char>>,
    d: Seq<Seq<char>>,
    p: Seq<Seq<char>>,
)
    ensures
        d == dir && parts_prefix(path, p) ==> cached(kept(s, dir, path, false), d, p) is None,
        !(d == dir && parts_prefix(path, p)) ==> cached(kept(s, dir, path, false), d, p)
            == cached(s, d, p),
{
    lemma_cached_kept(s, dir, path, false, d, p);
}

/// After clearing, no lookup is served.
pub proof fn law_clear_all(d: Seq<Seq<char>>, p: Seq<Seq<char>>, current: Option<i128>)
    ensures
        lookup_result(
            Seq::<(Seq<Seq<char>>, Seq<Seq<char>>, i128, Seq<char>)>::empty(),
            d,
            p,
            current,
        ) is None,
{
}

} // verus!
