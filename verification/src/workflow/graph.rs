//! Task-flow graph between departments.
//!
//! Every routing of a task from one department to another adds a directed
//! edge. The graph is kept acyclic: when the target department's current
//! node can already reach the source, a fresh instance of the target is
//! created instead of reconnecting.
use crate::keyed::{keys_unique, lookup, lemma_lookup_at, index_of, set_key};
use vstd::prelude::*;

verus! {

/// Status of a graph node.
#[derive(Debug, Clone, Copy, PartialEq, Eq, Structural)]
pub enum NodeStatus {
    Active,
    Completed,
    Failed,
}

/// One appearance of a department in the flow.
#[derive(Debug, Clone)]
pub struct GraphNode {
    pub id: usize,
    pub role: String,
    pub instance: u32,
    /// Summary of the task the node currently carries.
    pub task_summary: String,
    pub status: NodeStatus,
    pub created_at: String,
}

/// One routing of a task.
#[derive(Debug, Clone)]
pub struct GraphEdge {
    pub id: usize,
    pub source: usize,
    pub target: usize,
    pub task_id: String,
    pub description: String,
    pub timestamp: String,
}

// ───────────────────────── reachability ─────────────────────────

/// Some edge goes from `a` to `b`.
pub open spec fn has_edge(es: Seq<GraphEdge>, a: int, b: int) -> bool {
    exists|k: int| 0 <= k < es.len() && #[trigger] es[k].source == a && es[k].target == b
}

/// Step `i` of the node sequence `p` follows an edge.
pub open spec fn step_ok(es: Seq<GraphEdge>, p: Seq<int>, i: int) -> bool {
    has_edge(es, p[i], p[i + 1])
}

/// `p` is a (possibly single-node) walk along edges.
pub open spec fn is_path(es: Seq<GraphEdge>, p: Seq<int>) -> bool {
    p.len() >= 1 && forall|i: int| 0 <= i < p.len() - 1 ==> #[trigger] step_ok(es, p, i)
}

/// `b` can be reached from `a` in zero or more steps.
pub open spec fn reach(es: Seq<GraphEdge>, a: int, b: int) -> bool {
    exists|p: Seq<int>| #[trigger] is_path(es, p) && p[0] == a && p.last() == b
}

/// `b` can be reached from `a` in one or more steps.
pub open spec fn reach_plus(es: Seq<GraphEdge>, a: int, b: int) -> bool {
    exists|p: Seq<int>| #[trigger] is_path(es, p) && p.len() >= 2 && p[0] == a && p.last() == b
}

/// No node reaches itself in one or more steps.
pub open spec fn acyclic(es: Seq<GraphEdge>) -> bool {
    forall|a: int| !#[trigger] reach_plus(es, a, a)
}

/// A graph without edges has no cycle. Every graph starts so (see
/// `WorkflowGraph::new_at`) and `WorkflowGraph::add_edge_at` keeps a graph
/// acyclic, so the task graph never holds a cycle.
pub proof fn law_edgeless_graph_is_acyclic(es: Seq<GraphEdge>)
    requires
        es.len() == 0,
    ensures
        acyclic(es),
{
    assert forall|a: int| !#[trigger] reach_plus(es, a, a) by {
        if reach_plus(es, a, a) {
            let p = choose|p: Seq<int>| #[trigger] is_path(es, p) && p.len() >= 2 && p[0] == a && p.last() == a;
            assert(step_ok(es, p, 0));
        }
    }
}

pub proof fn lemma_reach_refl(es: Seq<GraphEdge>, a: int)
    ensures
        reach(es, a, a),
{
    let p = seq![a];
    assert(is_path(es, p));
}

pub proof fn lemma_path_push(es: Seq<GraphEdge>, p: Seq<int>, w: int)
    requires
        is_path(es, p),
        has_edge(es, p.last(), w),
    ensures
        is_path(es, p.push(w)),
        p.push(w)[0] == p[0],
        p.push(w).last() == w,
{
    let q = p.push(w);
    assert forall|i: int| 0 <= i < q.len() - 1 implies #[trigger] step_ok(es, q, i) by {
        if i < p.len() - 1 {
            assert(step_ok(es, p, i));
        }
    }
}

pub proof fn lemma_reach_step(es: Seq<GraphEdge>, a: int, c: int, w: int)
    requires
        reach(es, a, c),
        has_edge(es, c, w),
    ensures
        reach(es, a, w),
        reach_plus(es, a, w),
{
    let p = choose|p: Seq<int>| #[trigger] is_path(es, p) && p[0] == a && p.last() == c;
    lemma_path_push(es, p, w);
    assert(is_path(es, p.push(w)));
}

pub proof fn lemma_plus_step(es: Seq<GraphEdge>, a: int, c: int, w: int)
    requires
        reach_plus(es, a, c),
        has_edge(es, c, w),
    ensures
        reach_plus(es, a, w),
{
    let p = choose|p: Seq<int>| #[trigger] is_path(es, p) && p.len() >= 2 && p[0] == a && p.last() == c;
    lemma_path_push(es, p, w);
    assert(is_path(es, p.push(w)));
}

pub proof fn lemma_plus_reach(es: Seq<GraphEdge>, a: int, b: int)
    requires
        reach_plus(es, a, b),
    ensures
        reach(es, a, b),
{
    let p = choose|p: Seq<int>| #[trigger] is_path(es, p) && p.len() >= 2 && p[0] == a && p.last() == b;
    assert(is_path(es, p));
}

pub proof fn lemma_edge_plus(es: Seq<GraphEdge>, a: int, b: int)
    requires
        has_edge(es, a, b),
    ensures
        reach_plus(es, a, b),
{
    lemma_reach_refl(es, a);
    lemma_reach_step(es, a, a, b);
}

pub proof fn lemma_reach_trans(es: Seq<GraphEdge>, a: int, b: int, c: int)
    requires
        reach(es, a, b),
        reach(es, b, c),
    ensures
        reach(es, a, c),
{
    let p1 = choose|p: Seq<int>| #[trigger] is_path(es, p) && p[0] == a && p.last() == b;
    let p2 = choose|p: Seq<int>| #[trigger] is_path(es, p) && p[0] == b && p.last() == c;
    let q = p1 + p2.drop_first();
    assert forall|i: int| 0 <= i < q.len() - 1 implies #[trigger] step_ok(es, q, i) by {
        if i < p1.len() - 1 {
            assert(step_ok(es, p1, i));
            assert(q[i] == p1[i] && q[i + 1] == p1[i + 1]);
        } else if i == p1.len() - 1 {
            assert(step_ok(es, p2, 0));
            assert(q[i] == p2[0] && q[i + 1] == p2[1]);
        } else {
            let j = i - p1.len() + 1;
            assert(step_ok(es, p2, j));
            assert(q[i] == p2[j] && q[i + 1] == p2[j + 1]);
        }
    }
    assert(is_path(es, q));
    if p2.len() == 1 {
        assert(q.last() == p1.last());
    } else {
        assert(q.last() == p2.last());
    }
}

pub proof fn lemma_push_edge_keeps(es: Seq<GraphEdge>, e: GraphEdge, a: int, b: int)
    requires
        has_edge(es, a, b),
    ensures
        has_edge(es.push(e), a, b),
{
    let k = choose|k: int| 0 <= k < es.len() && #[trigger] es[k].source == a && es[k].target == b;
    assert(es.push(e)[k] == es[k]);
}

/// A walk in the graph extended by edge `u → v` either stays in the old
/// graph or passes through the new edge.
pub proof fn lemma_new_edge_walk(es: Seq<GraphEdge>, e: GraphEdge, p: Seq<int>)
    requires
        is_path(es.push(e), p),
        p.len() >= 2,
    ensures
        reach_plus(es, p[0], p.last()) || (reach(es, p[0], e.source as int) && reach(
            es,
            e.target as int,
            p.last(),
        )),
    decreases p.len(),
{
    let es2 = es.push(e);
    let u = e.source as int;
    let v = e.target as int;
    let q = p.drop_last();
    let x = q.last();
    let y = p.last();
    assert(step_ok(es2, p, p.len() - 2));
    assert(p[p.len() - 2] == x);
    let k = choose|k: int| 0 <= k < es2.len() && #[trigger] es2[k].source == x && es2[k].target == y;
    let old_edge = k < es.len();
    if old_edge {
        assert(es2[k] == es[k]);
        assert(has_edge(es, x, y));
    } else {
        assert(x == u && y == v);
    }
    if p.len() == 2 {
        if old_edge {
            lemma_edge_plus(es, x, y);
        } else {
            lemma_reach_refl(es, u);
            lemma_reach_refl(es, v);
        }
    } else {
        assert forall|i: int| 0 <= i < q.len() - 1 implies #[trigger] step_ok(es2, q, i) by {
            assert(step_ok(es2, p, i));
        }
        lemma_new_edge_walk(es, e, q);
        if reach_plus(es, q[0], x) {
            if old_edge {
                lemma_plus_step(es, q[0], x, y);
            } else {
                lemma_plus_reach(es, q[0], x);
                lemma_reach_refl(es, v);
            }
        } else {
            if old_edge {
                lemma_reach_step(es, v, x, y);
            } else {
                lemma_reach_refl(es, v);
            }
        }
    }
}

/// Adding edge `u → v` keeps a graph acyclic when `v` cannot reach `u`.
pub proof fn lemma_acyclic_push(es: Seq<GraphEdge>, e: GraphEdge)
    requires
        acyclic(es),
        !reach(es, e.target as int, e.source as int),
    ensures
        acyclic(es.push(e)),
{
    let es2 = es.push(e);
    assert forall|a: int| !#[trigger] reach_plus(es2, a, a) by {
        if reach_plus(es2, a, a) {
            let p = choose|p: Seq<int>| #[trigger] is_path(es2, p) && p.len() >= 2 && p[0] == a && p.last() == a;
            lemma_new_edge_walk(es, e, p);
            if reach_plus(es, a, a) {
                assert(!reach_plus(es, a, a));
            } else {
                lemma_reach_trans(es, e.target as int, a, e.source as int);
            }
        }
    }
}

/// A node that starts no edge reaches only itself.
pub proof fn lemma_no_out_edges(es: Seq<GraphEdge>, a: int, b: int)
    requires
        forall|k: int| 0 <= k < es.len() ==> #[trigger] es[k].source != a,
        reach(es, a, b),
    ensures
        a == b,
{
    let p = choose|p: Seq<int>| #[trigger] is_path(es, p) && p[0] == a && p.last() == b;
    if p.len() >= 2 {
        assert(step_ok(es, p, 0));
        let k = choose|k: int| 0 <= k < es.len() && #[trigger] es[k].source == p[0] && es[k].target == p[1];
        assert(es[k].source == a);
    }
}

/// `vis` marks a set of nodes closed under edges.
pub open spec fn closed(es: Seq<GraphEdge>, vis: Seq<bool>) -> bool {
    forall|k: int|
        0 <= k < es.len() && 0 <= #[trigger] es[k].source < vis.len() && vis[es[k].source as int]
            ==> 0 <= es[k].target < vis.len() && vis[es[k].target as int]
}

pub proof fn lemma_closed_path(es: Seq<GraphEdge>, vis: Seq<bool>, p: Seq<int>)
    requires
        closed(es, vis),
        is_path(es, p),
        0 <= p[0] < vis.len(),
        vis[p[0]],
    ensures
        0 <= p.last() < vis.len(),
        vis[p.last()],
    decreases p.len(),
{
    if p.len() > 1 {
        let q = p.drop_last();
        assert forall|i: int| 0 <= i < q.len() - 1 implies #[trigger] step_ok(es, q, i) by {
            assert(step_ok(es, p, i));
        }
        lemma_closed_path(es, vis, q);
        assert(step_ok(es, p, p.len() - 2));
        let k = choose|k: int|
            0 <= k < es.len() && #[trigger] es[k].source == p[p.len() - 2] && es[k].target == p.last();
        assert(es[k].source == q.last());
    }
}

/// Number of unmarked entries.
pub open spec fn count_false(s: Seq<bool>) -> nat
    decreases s.len(),
{
    if s.len() == 0 {
        0
    } else {
        count_false(s.drop_last()) + if s.last() {
            0nat
        } else {
            1nat
        }
    }
}

pub proof fn lemma_count_false_mark(s: Seq<bool>, i: int)
    requires
        0 <= i < s.len(),
        !s[i],
    ensures
        count_false(s.update(i, true)) + 1 == count_false(s),
    decreases s.len(),
{
    let t = s.update(i, true);
    if i == s.len() - 1 {
        assert(t.drop_last() =~= s.drop_last());
    } else {
        assert(t.drop_last() =~= s.drop_last().update(i, true));
        lemma_count_false_mark(s.drop_last(), i);
    }
}

/// Whether `to_id` is reachable from `from_id` along the edges `es`, where
/// all edge endpoints are below `n`.
pub fn reachable(es: &Vec<GraphEdge>, n: usize, from_id: usize, to_id: usize) -> (r: bool)
    requires
        forall|k: int| 0 <= k < es@.len() ==> #[trigger] es@[k].source < n && es@[k].target < n,
    ensures
        r == reach(es@, from_id as int, to_id as int),
{
    if from_id == to_id {
        proof {
            lemma_reach_refl(es@, from_id as int);
        }
        return true;
    }
    if from_id >= n {
        proof {
            if reach(es@, from_id as int, to_id as int) {
                assert forall|k: int| 0 <= k < es@.len() implies #[trigger] es@[k].source != from_id by {
                    assert(es@[k].source < n);
                }
                lemma_no_out_edges(es@, from_id as int, to_id as int);
            }
        }
        return false;
    }
    let mut visited: Vec<bool> = Vec::new();
    let mut i: usize = 0;
    while i < n
        invariant
            i <= n,
            visited@.len() == i,
            forall|j: int| 0 <= j < i ==> !#[trigger] visited@[j],
        decreases n - i,
    {
        visited.push(false);
        i = i + 1;
    }
    visited.set(from_id, true);
    let mut stack: Vec<usize> = Vec::new();
    stack.push(from_id);
    proof {
        lemma_reach_refl(es@, from_id as int);
        assert(stack@[0] == from_id);
        assert forall|k: int|
            0 <= k < es@.len() && #[trigger] visited@[es@[k].source as int] && !stack@.contains(
                es@[k].source,
            ) implies visited@[es@[k].target as int] by {
            if es@[k].source != from_id {
                assert(!visited@[es@[k].source as int]);
            }
        }
    }
    while stack.len() > 0
        invariant
            forall|k: int| 0 <= k < es@.len() ==> #[trigger] es@[k].source < n && es@[k].target < n,
            from_id < n,
            from_id != to_id,
            visited@.len() == n,
            visited@[from_id as int],
            to_id < n ==> !visited@[to_id as int],
            forall|j: int| 0 <= j < n && #[trigger] visited@[j] ==> reach(es@, from_id as int, j),
            forall|s: int| 0 <= s < stack@.len() ==> #[trigger] stack@[s] < n && visited@[stack@[s] as int],
            forall|s: int, t: int| 0 <= s < t < stack@.len() ==> stack@[s] != stack@[t],
            forall|k: int|
                0 <= k < es@.len() && #[trigger] visited@[es@[k].source as int] && !stack@.contains(
                    es@[k].source,
                ) ==> visited@[es@[k].target as int],
        decreases 2 * count_false(visited@) + stack@.len(),
    {
        let ghost st_before = stack@;
        let x = stack.pop().unwrap();
        let ghost vis0 = visited@;
        let ghost st0 = stack@;
        proof {
            assert(st0 =~= st_before.drop_last());
            assert(x == st_before.last());
            assert(!st0.contains(x)) by {
                if st0.contains(x) {
                    let s = choose|s: int| 0 <= s < st0.len() && st0[s] == x;
                    assert(st_before[s] == st_before[st_before.len() - 1]);
                }
            }
        }
        let mut k: usize = 0;
        while k < es.len()
            invariant
                forall|k: int| 0 <= k < es@.len() ==> #[trigger] es@[k].source < n && es@[k].target < n,
                from_id < n,
                from_id != to_id,
                x < n,
                visited@.len() == n,
                visited@[from_id as int],
                visited@[x as int],
                to_id < n ==> !visited@[to_id as int],
                k <= es@.len(),
                forall|j: int| 0 <= j < n && #[trigger] visited@[j] ==> reach(es@, from_id as int, j),
                forall|j: int| 0 <= j < n && #[trigger] vis0[j] ==> visited@[j],
                stack@.len() >= st0.len(),
                forall|s: int| 0 <= s < st0.len() ==> #[trigger] stack@[s] == st0[s],
                forall|s: int| st0.len() <= s < stack@.len() ==> !#[trigger] vis0[stack@[s] as int],
                forall|s: int| 0 <= s < stack@.len() ==> #[trigger] stack@[s] < n && visited@[stack@[s] as int],
                forall|s: int, t: int| 0 <= s < t < stack@.len() ==> stack@[s] != stack@[t],
                !st0.contains(x),
                forall|j: int| 0 <= j < n && #[trigger] visited@[j] && !vis0[j] ==> stack@.contains(j as usize),
                forall|kk: int| 0 <= kk < k && #[trigger] es@[kk].source == x ==> visited@[es@[kk].target as int],
                2 * count_false(visited@) + stack@.len() + 1 <= 2 * count_false(vis0) + st0.len() + 1,
            decreases es@.len() - k,
        {
            if es[k].source == x {
                let t = es[k].target;
                if t == to_id {
                    proof {
                        assert(has_edge(es@, x as int, t as int));
                        lemma_reach_step(es@, from_id as int, x as int, t as int);
                    }
                    return true;
                }
                if !visited[t] {
                    proof {
                        assert(has_edge(es@, x as int, t as int));
                        lemma_reach_step(es@, from_id as int, x as int, t as int);
                        lemma_count_false_mark(visited@, t as int);
                    }
                    let ghost st_mid = stack@;
                    visited.set(t, true);
                    stack.push(t);
                    proof {
                        assert(stack@[stack@.len() - 1] == t);
                        assert(stack@.contains(t));
                        assert forall|j: int|
                            0 <= j < n && #[trigger] visited@[j] && !vis0[j] implies stack@.contains(
                                j as usize,
                            ) by {
                            if j != t {
                                assert(st_mid.contains(j as usize));
                                let s = choose|s: int| 0 <= s < st_mid.len() && st_mid[s] == j as usize;
                                assert(stack@[s] == j as usize);
                            }
                        }
                    }
                }
            }
            k = k + 1;
        }
        proof {
            assert forall|kk: int|
                0 <= kk < es@.len() && #[trigger] visited@[es@[kk].source as int] && !stack@.contains(
                    es@[kk].source,
                ) implies visited@[es@[kk].target as int] by {
                let src = es@[kk].source;
                if src != x {
                    if !vis0[src as int] {
                        assert(stack@.contains(src));
                    } else {
                        assert(!st_before.contains(src)) by {
                            if st_before.contains(src) {
                                let s = choose|s: int| 0 <= s < st_before.len() && st_before[s] == src;
                                if s < st0.len() {
                                    assert(stack@[s] == src);
                                }
                            }
                        }
                    }
                }
            }
        }
    }
    proof {
        assert(closed(es@, visited@)) by {
            assert forall|k: int|
                0 <= k < es@.len() && 0 <= #[trigger] es@[k].source < visited@.len() && visited@[es@[k].source as int]
                    implies 0 <= es@[k].target < visited@.len() && visited@[es@[k].target as int] by {
                assert(!stack@.contains(es@[k].source));
            }
        }
        if reach(es@, from_id as int, to_id as int) {
            let p = choose|p: Seq<int>| #[trigger] is_path(es@, p) && p[0] == from_id && p.last() == to_id;
            lemma_closed_path(es@, visited@, p);
        }
    }
    false
}

// ───────────────────────── the graph ─────────────────────────

/// Directed acyclic flow graph.
#[derive(Debug, Clone)]
pub struct WorkflowGraph {
    pub nodes: Vec<GraphNode>,
    pub edges: Vec<GraphEdge>,
    pub next_node_id: usize,
    pub next_edge_id: usize,
    /// Role → id of its currently active node (runtime state, rebuilt after loading).
    pub current_nodes: Vec<(String, usize)>,
    /// Role → highest instance number seen (runtime state, rebuilt after loading).
    pub instance_counts: Vec<(String, u32)>,
}

/// A time of day written `HH:MM:SS`: two digits, a colon, two digits, a
/// colon, two digits.
pub open spec fn hms_shape(t: Seq<char>) -> bool {
    &&& t.len() == 8
    &&& t[2] == ':' && t[5] == ':'
    &&& forall|i: int| 0 <= i < 8 && i != 2 && i != 5 ==> '0' <= #[trigger] t[i] <= '9'
}

/// Wall-clock time of day from `chrono::Local::now`, formatted with
/// `%H:%M:%S`. Which time it is depends on the clock; what is stated is
/// the shape chrono documents for these fields (each zero-padded to two
/// digits).
#[verifier::external_body]
fn clock_hms() -> (r: String)
    ensures
        hms_shape(r@),
{
    chrono::Local::now().format("%H:%M:%S").to_string()
}

/// A node with the given contents.
pub open spec fn node_is(
    n: GraphNode,
    id: int,
    role: Seq<char>,
    instance: int,
    task: Seq<char>,
    status: NodeStatus,
    created: Seq<char>,
) -> bool {
    &&& n.id == id
    &&& n.role@ == role
    &&& n.instance == instance
    &&& n.task_summary@ == task
    &&& n.status == status
    &&& n.created_at@ == created
}

/// The same node with only its task summary replaced.
pub open spec fn node_resummarized(n2: GraphNode, n1: GraphNode, task: Seq<char>) -> bool {
    node_is(n2, n1.id as int, n1.role@, n1.instance as int, task, n1.status, n1.created_at@)
}

/// The same node with only its status replaced.
pub open spec fn node_restatused(n2: GraphNode, n1: GraphNode, st: NodeStatus) -> bool {
    node_is(n2, n1.id as int, n1.role@, n1.instance as int, n1.task_summary@, st, n1.created_at@)
}

/// Id of the last node of the given role.
pub open spec fn last_id_of(nodes: Seq<GraphNode>, r: Seq<char>) -> Option<usize>
    decreases nodes.len(),
{
    if nodes.len() == 0 {
        None
    } else if nodes.last().role@ == r {
        Some(nodes.last().id)
    } else {
        last_id_of(nodes.drop_last(), r)
    }
}

/// Highest instance number among nodes of the given role.
pub open spec fn max_instance_of(nodes: Seq<GraphNode>, r: Seq<char>) -> Option<u32>
    decreases nodes.len(),
{
    if nodes.len() == 0 {
        None
    } else {
        let m = max_instance_of(nodes.drop_last(), r);
        if nodes.last().role@ == r {
            let prev: u32 = match m {
                Some(c) => c,
                None => 0,
            };
            Some(if prev >= nodes.last().instance {
                prev
            } else {
                nodes.last().instance
            })
        } else {
            m
        }
    }
}

/// `k` is the first index of a node with id `id`.
pub open spec fn first_with_id(nodes: Seq<GraphNode>, k: int, id: usize) -> bool {
    &&& 0 <= k < nodes.len()
    &&& nodes[k].id == id
    &&& forall|j: int| 0 <= j < k ==> #[trigger] nodes[j].id != id
}

/// `after` is `before` with the status of the node carrying id `cur` (the
/// first such node) set to `st`; unchanged when `cur` is `None` or no node
/// carries it.
pub open spec fn status_set(
    before: Seq<GraphNode>,
    after: Seq<GraphNode>,
    cur: Option<usize>,
    st: NodeStatus,
) -> bool {
    &&& after.len() == before.len()
    &&& forall|k: int|
        0 <= k < before.len() ==> if cur matches Some(id) && first_with_id(before, k, id) {
            node_restatused(#[trigger] after[k], before[k], st)
        } else {
            after[k] == before[k]
        }
}

/// Index of the last node of the given role.
pub open spec fn last_index_of(nodes: Seq<GraphNode>, r: Seq<char>) -> int
    decreases nodes.len(),
{
    if nodes.len() == 0 {
        -1
    } else if nodes.last().role@ == r {
        nodes.len() - 1
    } else {
        last_index_of(nodes.drop_last(), r)
    }
}

proof fn lemma_last_id_valid(nodes: Seq<GraphNode>)
    ensures
        forall|r: Seq<char>| #[trigger] last_id_of(nodes, r) matches Some(id) ==> {
            let k = last_index_of(nodes, r);
            &&& 0 <= k < nodes.len()
            &&& nodes[k].id == id
            &&& nodes[k].role@ == r
        },
    decreases nodes.len(),
{
    if nodes.len() > 0 {
        let init = nodes.drop_last();
        lemma_last_id_valid(init);
        assert forall|r: Seq<char>| #[trigger] last_id_of(nodes, r) is Some implies {
            let k = last_index_of(nodes, r);
            &&& 0 <= k < nodes.len()
            &&& nodes[k].id == last_id_of(nodes, r)->0
            &&& nodes[k].role@ == r
        } by {
            if nodes.last().role@ != r {
                assert(last_id_of(init, r) == last_id_of(nodes, r));
                let k = last_index_of(init, r);
                assert(nodes[k] == init[k]);
            }
        }
    }
}

/// Index of the first node carrying `id`.
fn find_node(nodes: &Vec<GraphNode>, id: usize) -> (r: Option<usize>)
    ensures
        r matches Some(k) ==> first_with_id(nodes@, k as int, id),
        r is None ==> forall|j: int| 0 <= j < nodes@.len() ==> #[trigger] nodes@[j].id != id,
{
    let mut k: usize = 0;
    while k < nodes.len()
        invariant
            k <= nodes@.len(),
            forall|j: int| 0 <= j < k ==> #[trigger] nodes@[j].id != id,
        decreases nodes@.len() - k,
    {
        if nodes[k].id == id {
            return Some(k);
        }
        k = k + 1;
    }
    None
}

/// A node with the given contents, whatever its creation time.
pub open spec fn node_fields(
    n: GraphNode,
    id: int,
    role: Seq<char>,
    instance: int,
    task: Seq<char>,
    status: NodeStatus,
) -> bool {
    &&& n.id == id
    &&& n.role@ == role
    &&& n.instance == instance
    &&& n.task_summary@ == task
    &&& n.status == status
}

/// `g1` is `g0` after routing task `task_id` from `from_role` to `to_role`,
/// timestamps aside: nothing changes when `from_role` has no current node;
/// otherwise one edge is appended from that node to the current node of
/// `to_role` (whose task summary becomes the description), or to a new
/// active instance of `to_role` when there is no such node or it can
/// already reach the source; the new node becomes the role's current node
/// and its instance raises the role's count.
pub open spec fn routed(
    g0: WorkflowGraph,
    g1: WorkflowGraph,
    from_role: Seq<char>,
    to_role: Seq<char>,
    task_id: Seq<char>,
    desc: Seq<char>,
) -> bool {
    &&& g0.cur_of(from_role) is None ==> g1 == g0
    &&& g0.cur_of(from_role) matches Some(u) ==> {
        let c = g0.cur_of(to_role);
        let fresh = c is None || reach(g0.edges@, c->0 as int, u as int);
        let n: int = g0.nodes@.len() as int;
        let tgt: int = if fresh { n + 1 } else { c->0 as int };
        let inst: int = if c is None { 1 } else { g0.count_of(to_role) + 1 };
        &&& g1.edges@.len() == g0.edges@.len() + 1
        &&& g1.edges@.drop_last() == g0.edges@
        &&& g1.edges@.last().id == g0.next_edge_id
        &&& g1.edges@.last().source == u
        &&& g1.edges@.last().target == tgt
        &&& g1.edges@.last().task_id@ == task_id
        &&& g1.edges@.last().description@ == desc
        &&& fresh ==> {
            &&& g1.nodes@.len() == n + 1
            &&& g1.nodes@.drop_last() == g0.nodes@
            &&& node_fields(g1.nodes@.last(), tgt, to_role, inst, desc, NodeStatus::Active)
            &&& forall|r: Seq<char>| #[trigger] g1.cur_of(r) == (if r == to_role {
                Some(tgt as usize)
            } else {
                g0.cur_of(r)
            })
            &&& forall|r: Seq<char>| #[trigger] g1.count_of(r) == (if r == to_role {
                if g0.count_of(r) >= inst { g0.count_of(r) } else { inst as u32 }
            } else {
                g0.count_of(r)
            })
        }
        &&& !fresh ==> {
            &&& g1.nodes@.len() == n
            &&& forall|k: int| 0 <= k < n && k != tgt - 1 ==> #[trigger] g1.nodes@[k] == g0.nodes@[k]
            &&& node_resummarized(g1.nodes@[tgt - 1], g0.nodes@[tgt - 1], desc)
            &&& g1.current_nodes == g0.current_nodes
            &&& g1.instance_counts == g0.instance_counts
        }
    }
}

impl WorkflowGraph {
    /// Id of the role's current node.
    pub open spec fn cur_of(self, r: Seq<char>) -> Option<usize> {
        lookup(self.current_nodes@, r)
    }

    /// Instance count recorded for a role (0 when none).
    pub open spec fn count_of(self, r: Seq<char>) -> u32 {
        match lookup(self.instance_counts@, r) {
            Some(c) => c,
            None => 0,
        }
    }

    /// Ids and counters are dense and every edge joins existing nodes.
    pub open spec fn wf_core(self) -> bool {
        &&& self.next_node_id == self.nodes@.len() + 1
        &&& self.next_edge_id == self.edges@.len() + 1
        &&& forall|k: int| 0 <= k < self.nodes@.len() ==> #[trigger] self.nodes@[k].id == k + 1
        &&& forall|k: int|
            0 <= k < self.edges@.len() ==> {
                &&& #[trigger] self.edges@[k].id == k + 1
                &&& 1 <= self.edges@[k].source <= self.nodes@.len()
                &&& 1 <= self.edges@[k].target <= self.nodes@.len()
            }
    }

    /// Structural invariant: `wf_core` plus consistent role maps.
    pub open spec fn wf(self) -> bool {
        &&& self.wf_core()
        &&& keys_unique(self.current_nodes@)
        &&& keys_unique(self.instance_counts@)
        &&& forall|i: int|
            0 <= i < self.current_nodes@.len() ==> {
                &&& 1 <= #[trigger] self.current_nodes@[i].1 <= self.nodes@.len()
                &&& self.nodes@[self.current_nodes@[i].1 - 1].role@ == self.current_nodes@[i].0@
            }
    }

    proof fn lemma_cur_valid(self, r: Seq<char>)
        requires
            self.wf(),
            self.cur_of(r) is Some,
        ensures
            1 <= self.cur_of(r)->0 <= self.nodes@.len(),
            self.nodes@[self.cur_of(r)->0 - 1].role@ == r,
    {
        let i = choose|i: int| 0 <= i < self.current_nodes@.len() && #[trigger] self.current_nodes@[i].0@ == r;
        lemma_lookup_at(self.current_nodes@, i);
    }

    /// A graph holding one active cabinet (内阁) node created at `now`.
    pub fn new_at(now: &str) -> (g: Self)
        ensures
            g.wf(),
            g.nodes@.len() == 1,
            g.edges@.len() == 0,
            acyclic(g.edges@),
            node_is(g.nodes@[0], 1, "内阁"@, 1, "会话启动"@, NodeStatus::Active, now@),
            forall|r: Seq<char>| #[trigger] g.cur_of(r) == (if r == "内阁"@ { Some(1usize) } else { None }),
            forall|r: Seq<char>| #[trigger] g.count_of(r) == (if r == "内阁"@ { 1u32 } else { 0u32 }),
    {
        let role = "内阁".to_owned();
        let mut nodes: Vec<GraphNode> = Vec::new();
        nodes.push(
            GraphNode {
                id: 1,
                role: role.clone(),
                instance: 1,
                task_summary: "会话启动".to_owned(),
                status: NodeStatus::Active,
                created_at: now.to_owned(),
            },
        );
        let mut current_nodes: Vec<(String, usize)> = Vec::new();
        current_nodes.push((role.clone(), 1));
        let mut instance_counts: Vec<(String, u32)> = Vec::new();
        instance_counts.push((role, 1));
        let g = WorkflowGraph {
            nodes,
            edges: Vec::new(),
            next_node_id: 2,
            next_edge_id: 1,
            current_nodes,
            instance_counts,
        };
        proof {
            law_edgeless_graph_is_acyclic(g.edges@);
            assert forall|r: Seq<char>| #[trigger] g.cur_of(r) == (if r == "内阁"@ {
                Some(1usize)
            } else {
                None
            }) by {
                if r == "内阁"@ {
                    lemma_lookup_at(g.current_nodes@, 0);
                }
            }
            assert forall|r: Seq<char>| #[trigger] g.count_of(r) == (if r == "内阁"@ {
                1u32
            } else {
                0u32
            }) by {
                if r == "内阁"@ {
                    lemma_lookup_at(g.instance_counts@, 0);
                }
            }
        }
        g
    }

    /// A new graph holding one active cabinet (内阁) node stamped with the current time.
    pub fn new() -> (g: Self)
        ensures
            g.wf(),
            g.nodes@.len() == 1,
            g.edges@.len() == 0,
            acyclic(g.edges@),
            g.nodes@[0].id == 1,
            g.nodes@[0].role@ == "内阁"@,
            g.nodes@[0].instance == 1,
            g.nodes@[0].status == NodeStatus::Active,
            forall|r: Seq<char>| #[trigger] g.cur_of(r) == (if r == "内阁"@ { Some(1usize) } else { None }),
            forall|r: Seq<char>| #[trigger] g.count_of(r) == (if r == "内阁"@ { 1u32 } else { 0u32 }),
            hms_shape(g.nodes@[0].created_at@),
    {
        let now = clock_hms();
        Self::new_at(now.as_str())
    }

    /// Id of the role's current node.
    pub fn current_node(&self, role: &str) -> (r: Option<usize>)
        requires
            self.wf(),
        ensures
            r == self.cur_of(role@),
    {
        let key = role.to_owned();
        match index_of(&self.current_nodes, &key) {
            Some(i) => Some(self.current_nodes[i].1),
            None => None,
        }
    }

    /// Instance count recorded for a role (0 when none).
    pub fn instance_count(&self, role: &str) -> (r: u32)
        requires
            self.wf(),
        ensures
            r == self.count_of(role@),
    {
        let key = role.to_owned();
        match index_of(&self.instance_counts, &key) {
            Some(i) => self.instance_counts[i].1,
            None => 0,
        }
    }

    /// Whether `to_id` can be reached from `from_id` along edges.
    pub fn has_path(&self, from_id: usize, to_id: usize) -> (r: bool)
        requires
            self.wf_core(),
        ensures
            r == reach(self.edges@, from_id as int, to_id as int),
    {
        proof {
            assert forall|k: int| 0 <= k < self.edges@.len() implies #[trigger] self.edges@[k].source
                < self.next_node_id && self.edges@[k].target < self.next_node_id by {
                assert(self.edges@[k].id == k + 1);
            }
        }
        reachable(&self.edges, self.next_node_id, from_id, to_id)
    }

    /// Creates a node for `role` and makes it the role's current node.
    fn alloc_node(&mut self, role: &String, instance: u32, task: &str, now: &str) -> (id: usize)
        requires
            old(self).wf(),
            old(self).next_node_id < usize::MAX,
        ensures
            final(self).wf(),
            id == old(self).nodes@.len() + 1,
            final(self).nodes@.len() == old(self).nodes@.len() + 1,
            final(self).nodes@.take(old(self).nodes@.len() as int) == old(self).nodes@,
            node_is(final(self).nodes@.last(), id as int, role@, instance as int, task@, NodeStatus::Active, now@),
            final(self).edges@ == old(self).edges@,
            final(self).next_edge_id == old(self).next_edge_id,
            forall|r: Seq<char>| #[trigger] final(self).cur_of(r) == (if r == role@ {
                Some(id)
            } else {
                old(self).cur_of(r)
            }),
            forall|r: Seq<char>| #[trigger] final(self).count_of(r) == (if r == role@ {
                if old(self).count_of(r) >= instance { old(self).count_of(r) } else { instance }
            } else {
                old(self).count_of(r)
            }),
    {
        let id = self.next_node_id;
        let node = GraphNode {
            id,
            role: role.clone(),
            instance,
            task_summary: task.to_owned(),
            status: NodeStatus::Active,
            created_at: now.to_owned(),
        };
        self.next_node_id = self.next_node_id + 1;
        let ghost old_counts = self.instance_counts@;
        let prev = match index_of(&self.instance_counts, role) {
            Some(i) => Some(self.instance_counts[i].1),
            None => None,
        };
        let newc = match prev {
            Some(c) => if c >= instance { c } else { instance },
            None => instance,
        };
        set_key(&mut self.instance_counts, role, newc);
        self.nodes.push(node);
        set_key(&mut self.current_nodes, role, id);
        proof {
            assert(self.nodes@.take(old(self).nodes@.len() as int) =~= old(self).nodes@);
            assert forall|i: int| 0 <= i < self.current_nodes@.len() implies {
                &&& 1 <= #[trigger] self.current_nodes@[i].1 <= self.nodes@.len()
                &&& self.nodes@[self.current_nodes@[i].1 - 1].role@ == self.current_nodes@[i].0@
            } by {
                let k = self.current_nodes@[i].0@;
                lemma_lookup_at(self.current_nodes@, i);
                if k != role@ {
                    let j = choose|j: int| 0 <= j < old(self).current_nodes@.len() && #[trigger] old(self).current_nodes@[j].0@ == k;
                    lemma_lookup_at(old(self).current_nodes@, j);
                }
            }
        }
        id
    }

    /// Records the routing of task `task_id` from `from_role` to `to_role`,
    /// stamping new nodes and the edge with `now`.
    ///
    /// Nothing changes when `from_role` has no current node. Otherwise the
    /// target is the current node of `to_role` unless that node can already
    /// reach the source (or there is none); then a new instance of `to_role`
    /// is created. The graph stays acyclic.
    pub fn add_edge_at(&mut self, from_role: &str, to_role: &str, task_id: &str, task_description: &str, now: &str)
        requires
            old(self).wf(),
            old(self).next_node_id < usize::MAX,
            old(self).next_edge_id < usize::MAX,
            old(self).count_of(to_role@) < u32::MAX,
        ensures
            final(self).wf(),
            acyclic(old(self).edges@) ==> acyclic(final(self).edges@),
            old(self).cur_of(from_role@) is None ==> *final(self) == *old(self),
            old(self).cur_of(from_role@) matches Some(u) ==> {
                let c = old(self).cur_of(to_role@);
                let fresh = c is None || reach(old(self).edges@, c->0 as int, u as int);
                let n: int = old(self).nodes@.len() as int;
                let tgt: int = if fresh { n + 1 } else { c->0 as int };
                let inst: int = if c is None { 1 } else { old(self).count_of(to_role@) + 1 };
                &&& final(self).edges@.len() == old(self).edges@.len() + 1
                &&& final(self).edges@.drop_last() == old(self).edges@
                &&& final(self).edges@.last().id == old(self).next_edge_id
                &&& final(self).edges@.last().source == u
                &&& final(self).edges@.last().target == tgt
                &&& final(self).edges@.last().task_id@ == task_id@
                &&& final(self).edges@.last().description@ == task_description@
                &&& final(self).edges@.last().timestamp@ == now@
                &&& fresh ==> {
                    &&& final(self).nodes@.len() == n + 1
                    &&& final(self).nodes@.drop_last() == old(self).nodes@
                    &&& node_is(final(self).nodes@.last(), tgt, to_role@, inst, task_description@, NodeStatus::Active, now@)
                    &&& forall|r: Seq<char>| #[trigger] final(self).cur_of(r) == (if r == to_role@ {
                        Some(tgt as usize)
                    } else {
                        old(self).cur_of(r)
                    })
                    &&& forall|r: Seq<char>| #[trigger] final(self).count_of(r) == (if r == to_role@ {
                        if old(self).count_of(r) >= inst { old(self).count_of(r) } else { inst as u32 }
                    } else {
                        old(self).count_of(r)
                    })
                }
                &&& !fresh ==> {
                    &&& final(self).nodes@.len() == n
                    &&& forall|k: int| 0 <= k < n && k != tgt - 1 ==> #[trigger] final(self).nodes@[k] == old(self).nodes@[k]
                    &&& node_resummarized(final(self).nodes@[tgt - 1], old(self).nodes@[tgt - 1], task_description@)
                    &&& final(self).current_nodes == old(self).current_nodes
                    &&& final(self).instance_counts == old(self).instance_counts
                }
            },
    {
        let from_key = from_role.to_owned();
        let to_key = to_role.to_owned();
        let from_id = match index_of(&self.current_nodes, &from_key) {
            Some(i) => self.current_nodes[i].1,
            None => {
                return;
            },
        };
        proof {
            self.lemma_cur_valid(from_role@);
        }
        let ghost es0 = self.edges@;
        let ghost n0 = self.nodes@.len();
        let target_id = match index_of(&self.current_nodes, &to_key) {
            Some(i) => {
                let candidate = self.current_nodes[i].1;
                proof {
                    self.lemma_cur_valid(to_role@);
                }
                if self.has_path(candidate, from_id) {
                    let inst = self.instance_count(to_role) + 1;
                    self.alloc_node(&to_key, inst, task_description, now)
                } else {
                    let idx = candidate - 1;
                    let old_node = &self.nodes[idx];
                    let updated = GraphNode {
                        id: old_node.id,
                        role: old_node.role.clone(),
                        instance: old_node.instance,
                        task_summary: task_description.to_owned(),
                        status: old_node.status,
                        created_at: old_node.created_at.clone(),
                    };
                    self.nodes.set(idx, updated);
                    candidate
                }
            },
            None => self.alloc_node(&to_key, 1, task_description, now),
        };
        let ghost mid = *self;
        proof {
            assert(es0 == self.edges@);
            if target_id == n0 + 1 {
                // a fresh node has no outgoing edge
                assert forall|k: int| 0 <= k < es0.len() implies #[trigger] es0[k].source != target_id by {
                    assert(old(self).edges@[k].id == k + 1);
                }
                if reach(es0, target_id as int, from_id as int) {
                    lemma_no_out_edges(es0, target_id as int, from_id as int);
                }
            }
        }
        let edge = GraphEdge {
            id: self.next_edge_id,
            source: from_id,
            target: target_id,
            task_id: task_id.to_owned(),
            description: task_description.to_owned(),
            timestamp: now.to_owned(),
        };
        self.next_edge_id = self.next_edge_id + 1;
        self.edges.push(edge);
        proof {
            assert forall|r: Seq<char>| #[trigger] self.cur_of(r) == mid.cur_of(r) by {}
            assert forall|r: Seq<char>| #[trigger] self.count_of(r) == mid.count_of(r) by {}
            assert(self.edges@.drop_last() =~= es0);
            if acyclic(es0) {
                lemma_acyclic_push(es0, self.edges@.last());
                assert(self.edges@ =~= es0.push(self.edges@.last()));
            }
        }
    }

    /// Records a routing stamped with the current time (see `add_edge_at`).
    pub fn add_edge(&mut self, from_role: &str, to_role: &str, task_id: &str, task_description: &str)
        requires
            old(self).wf(),
            old(self).next_node_id < usize::MAX,
            old(self).next_edge_id < usize::MAX,
            old(self).count_of(to_role@) < u32::MAX,
        ensures
            final(self).wf(),
            acyclic(old(self).edges@) ==> acyclic(final(self).edges@),
            old(self).cur_of(from_role@) is None ==> *final(self) == *old(self),
            routed(*old(self), *final(self), from_role@, to_role@, task_id@, task_description@),
            old(self).cur_of(from_role@) is Some ==> hms_shape(final(self).edges@.last().timestamp@),
    {
        let now = clock_hms();
        self.add_edge_at(from_role, to_role, task_id, task_description, now.as_str());
    }

    /// Sets the status of the role's current node (the first node carrying that id).
    fn set_current_status(&mut self, role: &str, st: NodeStatus)
        requires
            old(self).wf(),
        ensures
            final(self).wf(),
            status_set(old(self).nodes@, final(self).nodes@, old(self).cur_of(role@), st),
            final(self).edges == old(self).edges,
            final(self).next_node_id == old(self).next_node_id,
            final(self).next_edge_id == old(self).next_edge_id,
            final(self).current_nodes == old(self).current_nodes,
            final(self).instance_counts == old(self).instance_counts,
    {
        let key = role.to_owned();
        let id = match index_of(&self.current_nodes, &key) {
            Some(i) => self.current_nodes[i].1,
            None => {
                return;
            },
        };
        match find_node(&self.nodes, id) {
            Some(k) => {
                let n = &self.nodes[k];
                let updated = GraphNode {
                    id: n.id,
                    role: n.role.clone(),
                    instance: n.instance,
                    task_summary: n.task_summary.clone(),
                    status: st,
                    created_at: n.created_at.clone(),
                };
                self.nodes.set(k, updated);
                proof {
                    assert forall|j: int| 0 <= j < self.nodes@.len() implies #[trigger] self.nodes@[j].id
                        == old(self).nodes@[j].id && self.nodes@[j].role == old(self).nodes@[j].role by {}
                    assert forall|k2: int| 0 <= k2 < old(self).nodes@.len() && first_with_id(old(self).nodes@, k2, id) implies k2 == k by {
                        if k2 < k {
                            assert(old(self).nodes@[k2].id != id);
                        } else if k2 > k {
                            assert(old(self).nodes@[k as int].id != id);
                        }
                    }
                }
            },
            None => {},
        }
    }

    /// Marks the role's current node completed; nothing changes when the role has none.
    pub fn mark_completed(&mut self, role: &str)
        requires
            old(self).wf(),
        ensures
            final(self).wf(),
            status_set(old(self).nodes@, final(self).nodes@, old(self).cur_of(role@), NodeStatus::Completed),
            final(self).edges == old(self).edges,
            final(self).current_nodes == old(self).current_nodes,
            final(self).instance_counts == old(self).instance_counts,
    {
        self.set_current_status(role, NodeStatus::Completed);
    }

    /// Marks the role's current node failed; nothing changes when the role has none.
    pub fn mark_failed(&mut self, role: &str)
        requires
            old(self).wf(),
        ensures
            final(self).wf(),
            status_set(old(self).nodes@, final(self).nodes@, old(self).cur_of(role@), NodeStatus::Failed),
            final(self).edges == old(self).edges,
            final(self).current_nodes == old(self).current_nodes,
            final(self).instance_counts == old(self).instance_counts,
    {
        self.set_current_status(role, NodeStatus::Failed);
    }

    /// Rebuilds the runtime role maps from the nodes, as after loading:
    /// a role's current node is its last node, its instance count the
    /// highest instance among its nodes.
    pub fn rebuild_state(&mut self)
        ensures
            final(self).nodes == old(self).nodes,
            final(self).edges == old(self).edges,
            final(self).next_node_id == old(self).next_node_id,
            final(self).next_edge_id == old(self).next_edge_id,
            forall|r: Seq<char>| #[trigger] final(self).cur_of(r) == last_id_of(old(self).nodes@, r),
            forall|r: Seq<char>| #[trigger] final(self).count_of(r) == (match max_instance_of(old(self).nodes@, r) {
                Some(c) => c,
                None => 0u32,
            }),
            keys_unique(final(self).current_nodes@),
            keys_unique(final(self).instance_counts@),
            old(self).wf_core() ==> final(self).wf(),
    {
        let mut cur: Vec<(String, usize)> = Vec::new();
        let mut counts: Vec<(String, u32)> = Vec::new();
        let mut i: usize = 0;
        while i < self.nodes.len()
            invariant
                i <= self.nodes@.len(),
                keys_unique(cur@),
                keys_unique(counts@),
                forall|r: Seq<char>| #[trigger] lookup(cur@, r) == last_id_of(self.nodes@.take(i as int), r),
                forall|r: Seq<char>| #[trigger] lookup(counts@, r) == max_instance_of(self.nodes@.take(i as int), r),
            decreases self.nodes@.len() - i,
        {
            let node = &self.nodes[i];
            let ghost pre = self.nodes@.take(i as int);
            let ghost post = self.nodes@.take(i as int + 1);
            proof {
                assert(post.drop_last() =~= pre);
                assert(post.last() == self.nodes@[i as int]);
            }
            let prev = match index_of(&counts, &node.role) {
                Some(j) => counts[j].1,
                None => 0,
            };
            let m = if prev >= node.instance { prev } else { node.instance };
            set_key(&mut counts, &node.role, m);
            set_key(&mut cur, &node.role, node.id);
            i = i + 1;
            proof {
                assert forall|r: Seq<char>| #[trigger] lookup(cur@, r) == last_id_of(post, r) by {}
                assert forall|r: Seq<char>| #[trigger] lookup(counts@, r) == max_instance_of(post, r) by {}
            }
        }
        proof {
            assert(self.nodes@.take(i as int) =~= self.nodes@);
        }
        self.current_nodes = cur;
        self.instance_counts = counts;
        proof {
            lemma_last_id_valid(self.nodes@);
            if old(self).wf_core() {
                assert forall|j: int| 0 <= j < self.current_nodes@.len() implies {
                    &&& 1 <= #[trigger] self.current_nodes@[j].1 <= self.nodes@.len()
                    &&& self.nodes@[self.current_nodes@[j].1 - 1].role@ == self.current_nodes@[j].0@
                } by {
                    let r = self.current_nodes@[j].0@;
                    lemma_lookup_at(self.current_nodes@, j);
                    let k = last_index_of(self.nodes@, r);
                    assert(self.nodes@[k].id == k + 1);
                }
            }
        }
    }
}

} // verus!
