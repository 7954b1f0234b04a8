//! Choosing the project that tests run in, in a workspace that holds
//! several: where candidates are looked for, the order they are offered
//! in, and the refusals of a named subproject.
use crate::text::{chars_of, push_str, string_of};
use crate::tool::command_ops::ProjectCandidate;
use vstd::prelude::*;

verus! {

/// The folders below the working directory that may hold a project, in
/// the order they are looked at (after the working directory itself).
pub open spec fn common_subdirs() -> Seq<Seq<char>> {
    seq![
        "shuji-app"@,
        "shuji-app/src-tauri"@,
        "src"@,
        "src-tauri"@,
        "frontend"@,
        "backend"@,
        "server"@,
        "client"@,
        "web"@,
        "api"@,
    ]
}

/// The folders that may hold a project (see [`common_subdirs`]).
pub fn common_subdir_list() -> (r: Vec<&'static str>)
    ensures
        r@.map_values(|s: &'static str| s@) == common_subdirs(),
{
    let r = vec![
        "shuji-app",
        "shuji-app/src-tauri",
        "src",
        "src-tauri",
        "frontend",
        "backend",
        "server",
        "client",
        "web",
        "api",
    ];
    proof {
        assert(r@.map_values(|s: &'static str| s@) =~= common_subdirs());
    }
    r
}

/// At most this many candidates are offered.
pub open spec fn candidate_limit() -> int {
    6
}

/// The number of `/` in a relative path: how deep the candidate lies.
pub open spec fn slashes(s: Seq<char>) -> nat
    decreases s.len(),
{
    if s.len() == 0 {
        0
    } else {
        slashes(s.drop_last()) + if s.last() == '/' {
            1nat
        } else {
            0nat
        }
    }
}

/// `e` put into `s` after every candidate that lies no deeper.
pub open spec fn insert_by_depth(s: Seq<ProjectCandidate>, e: ProjectCandidate) -> Seq<ProjectCandidate>
    decreases s.len(),
{
    if s.len() == 0 {
        seq![e]
    } else if slashes(e.relative@) < slashes(s[0].relative@) {
        seq![e] + s
    } else {
        seq![s[0]] + insert_by_depth(s.drop_first(), e)
    }
}

/// The candidates sorted stably by depth (shallowest first).
pub open spec fn by_depth(s: Seq<ProjectCandidate>) -> Seq<ProjectCandidate>
    decreases s.len(),
{
    if s.len() == 0 {
        Seq::empty()
    } else {
        insert_by_depth(by_depth(s.drop_last()), s.last())
    }
}

fn slash_count(s: &str) -> (r: usize)
    ensures
        r == slashes(s@),
{
    let v = chars_of(s);
    let mut n: usize = 0;
    let mut i: usize = 0;
    while i < v.len()
        invariant
            i <= v@.len(),
            v@ == s@,
            n == slashes(v@.take(i as int)),
            n <= i,
        decreases v@.len() - i,
    {
        proof {
            assert(v@.take(i + 1).drop_last() =~= v@.take(i as int));
        }
        if v[i] == '/' {
            n = n + 1;
        }
        i = i + 1;
    }
    proof {
        assert(v@.take(i as int) =~= v@);
    }
    n
}

proof fn lemma_insert_by_depth_at(s: Seq<ProjectCandidate>, e: ProjectCandidate, p: int)
    requires
        0 <= p <= s.len(),
        forall|q: int| 0 <= q < p ==> !(slashes(e.relative@) < slashes(#[trigger] s[q].relative@)),
        p < s.len() ==> slashes(e.relative@) < slashes(s[p].relative@),
    ensures
        insert_by_depth(s, e) == s.insert(p, e),
    decreases s.len(),
{
    if s.len() == 0 {
        assert(s.insert(p, e) =~= seq![e]);
    } else if p == 0 {
        assert(s.insert(0, e) =~= seq![e] + s);
    } else {
        let t = s.drop_first();
        assert forall|q: int| 0 <= q < p - 1 implies !(slashes(e.relative@) < slashes(
            #[trigger] t[q].relative@,
        )) by {
            assert(t[q] == s[q + 1]);
        }
        lemma_insert_by_depth_at(t, e, p - 1);
        assert(s.insert(p, e) =~= seq![s[0]] + t.insert(p - 1, e));
    }
}

/// The candidates in the order they are offered: shallowest first, in the
/// order found among equals, at most six.
pub fn order_candidates(found: Vec<ProjectCandidate>) -> (r: Vec<ProjectCandidate>)
    ensures
        r@ == (if by_depth(found@).len() <= candidate_limit() {
            by_depth(found@)
        } else {
            by_depth(found@).take(candidate_limit())
        }),
{
    let ghost orig = found@;
    let n = found.len();
    assert(orig.len() == n);
    let mut rest = found;
    let mut out: Vec<ProjectCandidate> = Vec::new();
    let mut k: usize = 0;
    while rest.len() > 0
        invariant
            k + rest@.len() == orig.len(),
            orig.len() <= usize::MAX,
            rest@ == orig.skip(k as int),
            out@ == by_depth(orig.take(k as int)),
        decreases rest@.len(),
    {
        let e = rest.remove(0);
        let d = slash_count(e.relative.as_str());
        let mut p: usize = 0;
        while p < out.len() && !(d < slash_count(out[p].relative.as_str()))
            invariant
                p <= out@.len(),
                d == slashes(e.relative@),
                forall|q: int| 0 <= q < p ==> !(slashes(e.relative@) < slashes(#[trigger] out@[q].relative@)),
            decreases out@.len() - p,
        {
            p = p + 1;
        }
        proof {
            lemma_insert_by_depth_at(out@, e, p as int);
            assert(orig.take(k + 1).drop_last() =~= orig.take(k as int));
            assert(orig.take(k + 1).last() == orig[k as int]);
            assert(e == orig[k as int]);
        }
        out.insert(p, e);
        k = k + 1;
        proof {
            assert(rest@ =~= orig.skip(k as int));
        }
    }
    proof {
        assert(orig.take(k as int) =~= orig);
    }
    out.truncate(6);
    out
}

/// A named subproject to resolve: none when absent or empty.
pub fn named_subproject(subproject: Option<&str>) -> (r: Option<&str>)
    ensures
        match subproject {
            Some(s) => if s@.len() > 0 {
                r == Some(s)
            } else {
                r is None
            },
            None => r is None,
        },
{
    match subproject {
        Some(s) => {
            let v = chars_of(s);
            if v.len() > 0 {
                Some(s)
            } else {
                None
            }
        },
        None => None,
    }
}

/// The refusal of a subproject that does not exist.
pub fn missing_subproject_message(sub: &str, error: &str) -> (r: String)
    ensures
        r@ == "subproject '"@ + sub@ + "' does not exist: "@ + error@,
{
    let mut m = chars_of("subproject '");
    push_str(&mut m, sub);
    push_str(&mut m, "' does not exist: ");
    push_str(&mut m, error);
    string_of(m.as_slice())
}

/// The refusal of a subproject that lies outside the project.
pub fn escaping_subproject_message(sub: &str) -> (r: String)
    ensures
        r@ == "subproject '"@ + sub@ + "' escapes the project root directory"@,
{
    let mut m = chars_of("subproject '");
    push_str(&mut m, sub);
    push_str(&mut m, "' escapes the project root directory");
    string_of(m.as_slice())
}

} // verus!
