//! Small association lists keyed by strings, with unique keys.
//!
//! Used in place of `HashMap<String, T>` where the logic reads and updates
//! entries by role or artifact name.
use vstd::prelude::*;

verus! {

/// Keys of an association list are pairwise distinct.
pub open spec fn keys_unique<T>(v: Seq<(String, T)>) -> bool {
    forall|i: int, j: int| 0 <= i < v.len() && 0 <= j < v.len() && #[trigger] v[i].0@ == #[trigger] v[j].0@ ==> i == j
}

/// The value bound to `k`, if any.
pub open spec fn lookup<T>(v: Seq<(String, T)>, k: Seq<char>) -> Option<T> {
    if exists|i: int| 0 <= i < v.len() && #[trigger] v[i].0@ == k {
        Some(v[choose|i: int| 0 <= i < v.len() && #[trigger] v[i].0@ == k].1)
    } else {
        None
    }
}

pub proof fn lemma_lookup_at<T>(v: Seq<(String, T)>, i: int)
    requires
        keys_unique(v),
        0 <= i < v.len(),
    ensures
        lookup(v, v[i].0@) == Some(v[i].1),
{
    let k = v[i].0@;
    let j = choose|j: int| 0 <= j < v.len() && #[trigger] v[j].0@ == k;
    assert(v[j].0@ == v[i].0@);
}

pub proof fn lemma_lookup_none<T>(v: Seq<(String, T)>, k: Seq<char>)
    requires
        forall|i: int| 0 <= i < v.len() ==> #[trigger] v[i].0@ != k,
    ensures
        lookup(v, k) is None,
{
}

/// Index of the entry for `k`.
pub fn index_of<T>(v: &Vec<(String, T)>, k: &String) -> (r: Option<usize>)
    requires
        keys_unique(v@),
    ensures
        r matches Some(i) ==> i < v@.len() && v@[i as int].0@ == k@ && lookup(v@, k@) == Some(
            v@[i as int].1,
        ),
        r is None ==> lookup(v@, k@) is None && forall|i: int|
            0 <= i < v@.len() ==> #[trigger] v@[i].0@ != k@,
{
    let mut i: usize = 0;
    while i < v.len()
        invariant
            keys_unique(v@),
            i <= v@.len(),
            forall|j: int| 0 <= j < i ==> #[trigger] v@[j].0@ != k@,
        decreases v@.len() - i,
    {
        if v[i].0 == *k {
            proof {
                lemma_lookup_at(v@, i as int);
            }
            return Some(i);
        }
        i = i + 1;
    }
    None
}

/// Binds `k` to `val`, replacing any earlier binding.
pub fn set_key<T>(v: &mut Vec<(String, T)>, k: &String, val: T)
    requires
        keys_unique(old(v)@),
    ensures
        keys_unique(final(v)@),
        forall|kk: Seq<char>| #[trigger] lookup(final(v)@, kk) == (if kk == k@ {
            Some(val)
        } else {
            lookup(old(v)@, kk)
        }),
{
    match index_of(v, k) {
        Some(i) => {
            let key = v[i].0.clone();
            v.set(i, (key, val));
            proof {
                assert forall|kk: Seq<char>| #[trigger] lookup(final(v)@, kk) == (if kk == k@ {
                    Some(val)
                } else {
                    lookup(old(v)@, kk)
                }) by {
                    if kk == k@ {
                        lemma_lookup_at(final(v)@, i as int);
                    } else {
                        if exists|j: int| 0 <= j < old(v)@.len() && #[trigger] old(v)@[j].0@ == kk {
                            let j = choose|j: int|
                                0 <= j < old(v)@.len() && #[trigger] old(v)@[j].0@ == kk;
                            lemma_lookup_at(old(v)@, j);
                            lemma_lookup_at(final(v)@, j);
                        } else {
                            assert forall|j: int| 0 <= j < final(v)@.len() implies #[trigger] final(v)@[j].0@ != kk by {
                                assert(old(v)@[j].0@ != kk);
                            }
                        }
                    }
                }
            }
        },
        None => {
            v.push((k.clone(), val));
            proof {
                let n = old(v)@.len();
                assert(final(v)@[n as int].0@ == k@);
                assert forall|kk: Seq<char>| #[trigger] lookup(final(v)@, kk) == (if kk == k@ {
                    Some(val)
                } else {
                    lookup(old(v)@, kk)
                }) by {
                    if kk == k@ {
                        lemma_lookup_at(final(v)@, n as int);
                    } else {
                        if exists|j: int| 0 <= j < old(v)@.len() && #[trigger] old(v)@[j].0@ == kk {
                            let j = choose|j: int|
                                0 <= j < old(v)@.len() && #[trigger] old(v)@[j].0@ == kk;
                            lemma_lookup_at(old(v)@, j);
                            lemma_lookup_at(final(v)@, j);
                        } else {
                            assert forall|j: int| 0 <= j < final(v)@.len() implies #[trigger] final(v)@[j].0@ != kk by {
                                if j < n {
                                    assert(old(v)@[j].0@ != kk);
                                }
                            }
                        }
                    }
                }
            }
        },
    }
}

} // verus!
