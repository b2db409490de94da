//! The order in which the nodes of a graph are processed.
//!
//! The scheduler orders the nodes that a set of connections mentions so that
//! every connection leads from an earlier node to a later one. It works as
//! Kahn's algorithm does: it counts for every node the connections that enter
//! it from nodes not yet placed, and places a node whose count is zero. Of
//! the nodes that are ready at the same time the one with the smallest id
//! goes first, which makes the order a function of the connection set.
use vstd::prelude::*;
use crate::graph::{AudioGraph, NodeId};

verus! {

/// Why no order could be computed.
#[derive(Debug, Clone, Copy, PartialEq, Eq, Structural)]
pub enum ScheduleError {
    /// The connections close a cycle.
    GraphCycle,
}

/// There is a connection from `a` to `b`.
pub open spec fn has_edge(edges: Seq<(NodeId, NodeId)>, a: NodeId, b: NodeId) -> bool {
    exists|k: int| 0 <= k < edges.len() && #[trigger] edges[k] == (a, b)
}

/// Some connection starts or ends at `v`.
pub open spec fn referenced(edges: Seq<(NodeId, NodeId)>, v: NodeId) -> bool {
    exists|k: int| 0 <= k < edges.len() && ((#[trigger] edges[k]).0 == v || edges[k].1 == v)
}

/// Each node of `walk` is connected to the next one.
pub open spec fn is_walk(edges: Seq<(NodeId, NodeId)>, walk: Seq<NodeId>) -> bool {
    forall|i: int| 0 <= i < walk.len() - 1 ==> has_edge(edges, #[trigger] walk[i], walk[i + 1])
}

/// `walk` follows at least one connection and ends where it began.
pub open spec fn is_cycle(edges: Seq<(NodeId, NodeId)>, walk: Seq<NodeId>) -> bool {
    walk.len() >= 2 && walk.first() == walk.last() && is_walk(edges, walk)
}

/// The connections close a cycle.
pub open spec fn has_cycle(edges: Seq<(NodeId, NodeId)>) -> bool {
    exists|walk: Seq<NodeId>| is_cycle(edges, walk)
}

/// `order` holds every referenced node exactly once, and the source of every
/// connection before its target.
pub open spec fn is_topological_order(edges: Seq<(NodeId, NodeId)>, order: Seq<NodeId>) -> bool {
    &&& order.no_duplicates()
    &&& forall|v: NodeId| order.contains(v) <==> referenced(edges, v)
    &&& forall|k: int, i: int, j: int|
        0 <= k < edges.len() && 0 <= i < order.len() && 0 <= j < order.len()
            && #[trigger] order[i] == (#[trigger] edges[k]).0 && #[trigger] order[j] == edges[k].1 ==> i < j
}

/// Every connection into `v` comes from a node of `done`.
pub open spec fn sources_done(edges: Seq<(NodeId, NodeId)>, done: Seq<NodeId>, v: NodeId) -> bool {
    forall|k: int| 0 <= k < edges.len() && (#[trigger] edges[k]).1 == v ==> done.contains(edges[k].0)
}

/// After the nodes of `done`, `v` can be placed: it is referenced, not yet
/// placed, and nothing that feeds it is missing.
pub open spec fn ready(edges: Seq<(NodeId, NodeId)>, done: Seq<NodeId>, v: NodeId) -> bool {
    referenced(edges, v) && !done.contains(v) && sources_done(edges, done, v)
}

/// At each place of `order` stands the node with the smallest id among those
/// that are ready after the nodes before it.
pub open spec fn is_schedule(edges: Seq<(NodeId, NodeId)>, order: Seq<NodeId>) -> bool {
    forall|j: int|
        0 <= j < order.len() ==> {
            &&& ready(edges, order.take(j), #[trigger] order[j])
            &&& forall|m: NodeId| ready(edges, order.take(j), m) ==> order[j].0 <= m.0
        }
}

/// Along a walk the places in a topological order rise.
proof fn lemma_walk_rises(edges: Seq<(NodeId, NodeId)>, order: Seq<NodeId>, walk: Seq<NodeId>, n: int)
    requires
        is_topological_order(edges, order),
        is_walk(edges, walk),
        1 <= n < walk.len(),
    ensures
        order.contains(walk[0]),
        order.contains(walk[n]),
        order.index_of(walk[0]) < order.index_of(walk[n]),
    decreases n,
{
    let a = walk[n - 1];
    let b = walk[n];
    assert(has_edge(edges, a, b));
    let k = choose|k: int| 0 <= k < edges.len() && #[trigger] edges[k] == (a, b);
    assert(edges[k].0 == a);
    assert(edges[k].1 == b);
    assert(referenced(edges, a));
    assert(referenced(edges, b));
    assert(order.contains(a));
    assert(order.contains(b));
    let i = order.index_of(a);
    let j = order.index_of(b);
    assert(order[i] == edges[k].0 && order[j] == edges[k].1);
    assert(i < j);
    if n > 1 {
        lemma_walk_rises(edges, order, walk, n - 1);
    }
}

/// A connection set with a cycle has no topological order.
pub proof fn lemma_cycle_excludes_order(edges: Seq<(NodeId, NodeId)>, order: Seq<NodeId>)
    requires
        has_cycle(edges),
    ensures
        !is_topological_order(edges, order),
{
    if is_topological_order(edges, order) {
        let walk = choose|walk: Seq<NodeId>| is_cycle(edges, walk);
        lemma_walk_rises(edges, order, walk, walk.len() - 1);
    }
}

/// Two schedules of one connection set agree as far as both reach.
pub proof fn lemma_schedule_prefix(edges: Seq<(NodeId, NodeId)>, a: Seq<NodeId>, b: Seq<NodeId>, n: int)
    requires
        is_schedule(edges, a),
        is_schedule(edges, b),
        0 <= n <= a.len(),
        n <= b.len(),
    ensures
        a.take(n) == b.take(n),
    decreases n,
{
    if n > 0 {
        lemma_schedule_prefix(edges, a, b, n - 1);
        let j = n - 1;
        assert(ready(edges, a.take(j), a[j]));
        assert(ready(edges, b.take(j), b[j]));
        assert(a[j].0 <= b[j].0);
        assert(b[j].0 <= a[j].0);
        assert(a.take(n) =~= a.take(j).push(a[j]));
        assert(b.take(n) =~= b.take(j).push(b[j]));
    } else {
        assert(a.take(0) =~= b.take(0));
    }
}

/// A connection set has one schedule of a given length at most: scheduling
/// the same connections again gives the same order.
pub proof fn lemma_schedule_unique(edges: Seq<(NodeId, NodeId)>, a: Seq<NodeId>, b: Seq<NodeId>)
    requires
        is_schedule(edges, a),
        is_schedule(edges, b),
        a.len() == b.len(),
    ensures
        a == b,
{
    lemma_schedule_prefix(edges, a, b, a.len() as int);
    assert(a.take(a.len() as int) =~= a);
    assert(b.take(b.len() as int) =~= b);
}

/// A schedule that holds every referenced node is a topological order.
pub proof fn lemma_schedule_is_topological(edges: Seq<(NodeId, NodeId)>, order: Seq<NodeId>)
    requires
        is_schedule(edges, order),
        forall|v: NodeId| referenced(edges, v) ==> order.contains(v),
    ensures
        is_topological_order(edges, order),
{
    assert forall|i: int, j: int| 0 <= i < j < order.len() implies order[i] != order[j] by {
        assert(ready(edges, order.take(j), order[j]));
        assert(order.take(j)[i] == order[i]);
    }
    assert forall|v: NodeId| order.contains(v) implies referenced(edges, v) by {
        let j = order.index_of(v);
        assert(ready(edges, order.take(j), order[j]));
    }
    assert forall|k: int, i: int, j: int|
        0 <= k < edges.len() && 0 <= i < order.len() && 0 <= j < order.len()
            && #[trigger] order[i] == (#[trigger] edges[k]).0 && #[trigger] order[j] == edges[k].1 implies i < j by {
        let done = order.take(j);
        assert(ready(edges, done, order[j]));
        assert(done.contains(edges[k].0));
        let at = done.index_of(edges[k].0);
        assert(order[at] == order[i]);
    }
}

/// A connection set has one order at most that is both topological and a
/// schedule.
pub proof fn lemma_order_determined(edges: Seq<(NodeId, NodeId)>, a: Seq<NodeId>, b: Seq<NodeId>)
    requires
        is_topological_order(edges, a),
        is_topological_order(edges, b),
        is_schedule(edges, a),
        is_schedule(edges, b),
    ensures
        a == b,
{
    a.unique_seq_to_set();
    b.unique_seq_to_set();
    assert(a.to_set() =~= b.to_set());
    lemma_schedule_unique(edges, a, b);
}

/// Every node of `blocked` is fed by a node of `blocked`.
spec fn fed_within(edges: Seq<(NodeId, NodeId)>, blocked: Set<NodeId>) -> bool {
    forall|v: NodeId| #[trigger]
        blocked.contains(v) ==> exists|s: NodeId| #[trigger] blocked.contains(s) && has_edge(edges, s, v)
}

/// A walk of `n` connections inside `blocked` that ends at `end`.
proof fn lemma_walk_back(edges: Seq<(NodeId, NodeId)>, blocked: Set<NodeId>, end: NodeId, n: nat) -> (walk:
    Seq<NodeId>)
    requires
        fed_within(edges, blocked),
        blocked.contains(end),
    ensures
        walk.len() == n + 1,
        is_walk(edges, walk),
        forall|i: int| 0 <= i < walk.len() ==> blocked.contains(#[trigger] walk[i]),
    decreases n,
{
    if n == 0 {
        seq![end]
    } else {
        let rest = lemma_walk_back(edges, blocked, end, (n - 1) as nat);
        let head = rest[0];
        assert(blocked.contains(head));
        let s = choose|s: NodeId| #[trigger] blocked.contains(s) && has_edge(edges, s, head);
        let walk = seq![s] + rest;
        assert forall|i: int| 0 <= i < walk.len() - 1 implies has_edge(edges, #[trigger] walk[i], walk[i + 1]) by {
            if i > 0 {
                assert(walk[i] == rest[i - 1]);
                assert(walk[i + 1] == rest[i]);
            }
        }
        assert forall|i: int| 0 <= i < walk.len() implies blocked.contains(#[trigger] walk[i]) by {
            if i > 0 {
                assert(walk[i] == rest[i - 1]);
            }
        }
        walk
    }
}

/// Where every node of a finite, non-empty set is fed from within the set,
/// the connections close a cycle.
proof fn lemma_blocked_has_cycle(edges: Seq<(NodeId, NodeId)>, blocked: Set<NodeId>)
    requires
        blocked.finite(),
        blocked.len() > 0,
        fed_within(edges, blocked),
    ensures
        has_cycle(edges),
{
    let end = blocked.choose();
    let walk = lemma_walk_back(edges, blocked, end, blocked.len());
    if walk.no_duplicates() {
        walk.unique_seq_to_set();
        assert(walk.to_set().subset_of(blocked)) by {
            assert forall|v: NodeId| walk.to_set().contains(v) implies blocked.contains(v) by {
                let i = walk.index_of(v);
                assert(blocked.contains(walk[i]));
            }
        }
        vstd::set_lib::lemma_len_subset(walk.to_set(), blocked);
        assert(false);
    }
    let (i, j) = choose|i: int, j: int|
        0 <= i < walk.len() && 0 <= j < walk.len() && i != j && walk[i] == walk[j];
    let lo = if i < j { i } else { j };
    let hi = if i < j { j } else { i };
    let cycle = walk.subrange(lo, hi + 1);
    assert forall|x: int| 0 <= x < cycle.len() - 1 implies has_edge(edges, #[trigger] cycle[x], cycle[x + 1]) by {
        assert(cycle[x] == walk[lo + x]);
        assert(cycle[x + 1] == walk[lo + x + 1]);
    }
    assert(cycle.first() == walk[lo]);
    assert(cycle.last() == walk[hi]);
    assert(is_cycle(edges, cycle));
}

/// Whether connection `k` enters `v` from a node that is not in `done`.
spec fn is_pending(edges: Seq<(NodeId, NodeId)>, done: Seq<NodeId>, v: NodeId, k: int) -> bool {
    edges[k].1 == v && !done.contains(edges[k].0)
}

/// The number of connections among `edges[lo..hi]` that enter `v` from a
/// node that is not in `done`.
spec fn pending(edges: Seq<(NodeId, NodeId)>, done: Seq<NodeId>, v: NodeId, lo: int, hi: int) -> nat
    decreases hi - lo,
{
    if hi <= lo {
        0
    } else {
        pending(edges, done, v, lo, hi - 1) + if is_pending(edges, done, v, hi - 1) {
            1nat
        } else {
            0nat
        }
    }
}

proof fn lemma_pending_bound(edges: Seq<(NodeId, NodeId)>, done: Seq<NodeId>, v: NodeId, lo: int, hi: int)
    requires
        lo <= hi,
    ensures
        pending(edges, done, v, lo, hi) <= hi - lo,
    decreases hi - lo,
{
    if lo < hi {
        lemma_pending_bound(edges, done, v, lo, hi - 1);
    }
}

proof fn lemma_pending_first(edges: Seq<(NodeId, NodeId)>, done: Seq<NodeId>, v: NodeId, lo: int, hi: int)
    requires
        lo < hi,
    ensures
        pending(edges, done, v, lo, hi) == pending(edges, done, v, lo + 1, hi) + if is_pending(
            edges,
            done,
            v,
            lo,
        ) {
            1nat
        } else {
            0nat
        },
    decreases hi - lo,
{
    if lo + 1 < hi {
        lemma_pending_first(edges, done, v, lo, hi - 1);
    } else {
        assert(pending(edges, done, v, lo, lo) == 0);
        assert(pending(edges, done, v, lo + 1, hi) == 0);
    }
}

proof fn lemma_pending_none(edges: Seq<(NodeId, NodeId)>, done: Seq<NodeId>, v: NodeId, hi: int)
    requires
        0 <= hi <= edges.len(),
    ensures
        pending(edges, done, v, 0, hi) == 0 <==> forall|k: int|
            0 <= k < hi ==> !#[trigger] is_pending(edges, done, v, k),
    decreases hi,
{
    if hi > 0 {
        lemma_pending_none(edges, done, v, hi - 1);
        if pending(edges, done, v, 0, hi) == 0 {
            assert forall|k: int| 0 <= k < hi implies !#[trigger] is_pending(edges, done, v, k) by {
                if k < hi - 1 {
                }
            }
        } else {
            if pending(edges, done, v, 0, hi - 1) == 0 {
                assert(is_pending(edges, done, v, hi - 1));
            } else {
                let k = choose|k: int| 0 <= k < hi - 1 && #[trigger] is_pending(edges, done, v, k);
                assert(is_pending(edges, done, v, k));
            }
        }
    }
}

/// A count of zero says that every source is done.
proof fn lemma_pending_ready(edges: Seq<(NodeId, NodeId)>, done: Seq<NodeId>, v: NodeId)
    ensures
        pending(edges, done, v, 0, edges.len() as int) == 0 <==> sources_done(edges, done, v),
{
    lemma_pending_none(edges, done, v, edges.len() as int);
    if sources_done(edges, done, v) {
        assert forall|k: int| 0 <= k < edges.len() implies !#[trigger] is_pending(edges, done, v, k) by {
            if edges[k].1 == v {
                assert(done.contains(edges[k].0));
            }
        }
    }
    if pending(edges, done, v, 0, edges.len() as int) == 0 {
        assert forall|k: int| 0 <= k < edges.len() && (#[trigger] edges[k]).1 == v implies done.contains(
            edges[k].0,
        ) by {
            assert(!is_pending(edges, done, v, k));
        }
    }
}

/// Placing `p` leaves the count unchanged over connections that do not
/// start at `p`.
proof fn lemma_pending_step(
    edges: Seq<(NodeId, NodeId)>,
    done: Seq<NodeId>,
    p: NodeId,
    v: NodeId,
    k: int,
)
    requires
        0 <= k < edges.len(),
        !done.contains(p),
    ensures
        pending(edges, done.push(p), v, 0, k + 1) + pending(edges, done, v, k + 1, edges.len() as int) + (if edges[k]
            == (p, v) {
            1nat
        } else {
            0nat
        }) == pending(edges, done.push(p), v, 0, k) + pending(edges, done, v, k, edges.len() as int),
{
    lemma_pending_first(edges, done, v, k, edges.len() as int);
    let after = done.push(p);
    let s = edges[k].0;
    assert(after.contains(s) <==> (done.contains(s) || s == p)) by {
        if done.contains(s) {
            let i = done.index_of(s);
            assert(after[i] == s);
        }
        if s == p {
            assert(after[done.len() as int] == p);
        }
        if after.contains(s) {
            let i = after.index_of(s);
            if i < done.len() {
                assert(done[i] == s);
            }
        }
    }
}

/// Where `id` stands in `nodes`.
fn position(nodes: &Vec<NodeId>, id: NodeId) -> (r: Option<usize>)
    ensures
        match r {
            Some(i) => i < nodes.len() && nodes@[i as int] == id,
            None => !nodes@.contains(id),
        },
{
    let mut i: usize = 0;
    while i < nodes.len()
        invariant
            i <= nodes.len(),
            forall|j: int| 0 <= j < i ==> nodes@[j] != id,
        decreases nodes.len() - i,
    {
        if nodes[i] == id {
            return Some(i);
        }
        i += 1;
    }
    None
}

/// Some connection among the first `k` starts or ends at `v`.
spec fn referenced_before(edges: Seq<(NodeId, NodeId)>, k: int, v: NodeId) -> bool {
    exists|j: int| 0 <= j < k && ((#[trigger] edges[j]).0 == v || edges[j].1 == v)
}

/// The nodes that the connections mention, each once.
fn referenced_nodes(connections: &[(NodeId, NodeId)]) -> (nodes: Vec<NodeId>)
    ensures
        nodes@.no_duplicates(),
        forall|v: NodeId| nodes@.contains(v) <==> referenced(connections@, v),
{
    let mut nodes: Vec<NodeId> = Vec::new();
    let mut k: usize = 0;
    while k < connections.len()
        invariant
            k <= connections.len(),
            nodes@.no_duplicates(),
            forall|v: NodeId| nodes@.contains(v) <==> referenced_before(connections@, k as int, v),
        decreases connections.len() - k,
    {
        let source = connections[k].0;
        let target = connections[k].1;
        let ghost before = nodes@;
        if position(&nodes, source).is_none() {
            nodes.push(source);
        }
        let ghost between = nodes@;
        if position(&nodes, target).is_none() {
            nodes.push(target);
        }
        proof {
            let edges = connections@;
            let after = nodes@;
            assert forall|v: NodeId| between.contains(v) <==> (before.contains(v) || v == source) by {
                if before.contains(v) {
                    let i = before.index_of(v);
                    assert(between[i] == v);
                }
                if between.contains(v) && !before.contains(v) {
                    let i = between.index_of(v);
                    assert(i == before.len());
                }
                if v == source && !before.contains(v) {
                    assert(between[before.len() as int] == v);
                }
            }
            assert forall|v: NodeId| after.contains(v) <==> (between.contains(v) || v == target) by {
                if between.contains(v) {
                    let i = between.index_of(v);
                    assert(after[i] == v);
                }
                if after.contains(v) && !between.contains(v) {
                    let i = after.index_of(v);
                    assert(i == between.len());
                }
                if v == target && !between.contains(v) {
                    assert(after[between.len() as int] == v);
                }
            }
            assert forall|v: NodeId| after.contains(v) <==> referenced_before(edges, k + 1, v) by {
                if referenced_before(edges, k + 1, v) {
                    let j = choose|j: int| 0 <= j < k + 1 && ((#[trigger] edges[j]).0 == v || edges[j].1 == v);
                    if j < k {
                        assert(referenced_before(edges, k as int, v));
                    }
                }
                if after.contains(v) {
                    if before.contains(v) {
                        let j = choose|j: int| 0 <= j < k && ((#[trigger] edges[j]).0 == v || edges[j].1 == v);
                        assert(edges[j].0 == v || edges[j].1 == v);
                    } else {
                        assert(edges[k as int].0 == v || edges[k as int].1 == v);
                    }
                }
            }
        }
        k += 1;
    }
    proof {
        let edges = connections@;
        assert forall|v: NodeId| referenced_before(edges, edges.len() as int, v) <==> referenced(edges, v) by {
            if referenced_before(edges, edges.len() as int, v) {
                let j = choose|j: int|
                    0 <= j < edges.len() && ((#[trigger] edges[j]).0 == v || edges[j].1 == v);
                assert(edges[j].0 == v || edges[j].1 == v);
            }
            if referenced(edges, v) {
                let j = choose|j: int|
                    0 <= j < edges.len() && ((#[trigger] edges[j]).0 == v || edges[j].1 == v);
                assert(edges[j].0 == v || edges[j].1 == v);
            }
        }
    }
    nodes
}

/// For each node the number of connections that enter it.
fn in_degrees(connections: &[(NodeId, NodeId)], nodes: &Vec<NodeId>) -> (waiting: Vec<usize>)
    requires
        nodes@.no_duplicates(),
        forall|v: NodeId| nodes@.contains(v) <==> referenced(connections@, v),
    ensures
        waiting.len() == nodes.len(),
        forall|i: int|
            0 <= i < nodes.len() ==> #[trigger] waiting@[i] == pending(
                connections@,
                Seq::empty(),
                nodes@[i],
                0,
                connections@.len() as int,
            ),
{
    let ghost edges = connections@;
    let ghost none = Seq::<NodeId>::empty();
    let mut waiting: Vec<usize> = Vec::new();
    let mut i: usize = 0;
    while i < nodes.len()
        invariant
            i <= nodes.len(),
            waiting.len() == i,
            forall|j: int| 0 <= j < i ==> #[trigger] waiting@[j] == 0,
        decreases nodes.len() - i,
    {
        waiting.push(0);
        i += 1;
    }
    let mut k: usize = 0;
    while k < connections.len()
        invariant
            k <= connections.len(),
            edges == connections@,
            none == Seq::<NodeId>::empty(),
            waiting.len() == nodes.len(),
            nodes@.no_duplicates(),
            forall|v: NodeId| nodes@.contains(v) <==> referenced(edges, v),
            forall|j: int|
                0 <= j < nodes.len() ==> #[trigger] waiting@[j] == pending(edges, none, nodes@[j], 0, k as int),
        decreases connections.len() - k,
    {
        let target = connections[k].1;
        proof {
            assert(edges[k as int].1 == target);
            assert(referenced(edges, target));
        }
        match position(nodes, target) {
            Some(t) => {
                proof {
                    lemma_pending_bound(edges, none, target, 0, k as int);
                }
                let count: usize = waiting[t];
                waiting.set(t, count + 1);
                proof {
                    assert forall|j: int| 0 <= j < nodes.len() implies #[trigger] waiting@[j] == pending(
                        edges,
                        none,
                        nodes@[j],
                        0,
                        k + 1,
                    ) by {
                        if j != t {
                            assert(nodes@[j] != nodes@[t as int]);
                        }
                    }
                }
            },
            None => {
                proof {
                    assert(false);
                }
            },
        }
        k += 1;
    }
    waiting
}

/// Whether the node at `i` is unplaced and waits for nothing.
spec fn ready_at(waiting: Seq<usize>, placed: Seq<bool>, i: int) -> bool {
    !placed[i] && waiting[i] == 0
}

/// The unplaced node with the smallest id among those that wait for nothing.
fn least_ready(nodes: &Vec<NodeId>, waiting: &Vec<usize>, placed: &Vec<bool>) -> (r: Option<usize>)
    requires
        waiting.len() == nodes.len(),
        placed.len() == nodes.len(),
    ensures
        match r {
            Some(b) => b < nodes.len() && ready_at(waiting@, placed@, b as int) && forall|i: int|
                0 <= i < nodes.len() && ready_at(waiting@, placed@, i) ==> nodes@[b as int].0 <= (
                #[trigger] nodes@[i]).0,
            None => forall|i: int| 0 <= i < nodes.len() ==> !#[trigger] ready_at(waiting@, placed@, i),
        },
{
    let mut best: Option<usize> = None;
    let mut i: usize = 0;
    while i < nodes.len()
        invariant
            i <= nodes.len(),
            waiting.len() == nodes.len(),
            placed.len() == nodes.len(),
            match best {
                Some(b) => b < i && ready_at(waiting@, placed@, b as int) && forall|j: int|
                    0 <= j < i && ready_at(waiting@, placed@, j) ==> nodes@[b as int].0 <= (#[trigger] nodes@[j]).0,
                None => forall|j: int| 0 <= j < i ==> !#[trigger] ready_at(waiting@, placed@, j),
            },
        decreases nodes.len() - i,
    {
        if !placed[i] && waiting[i] == 0 {
            match best {
                Some(b) => {
                    if nodes[i].0 < nodes[b].0 {
                        best = Some(i);
                    }
                },
                None => {
                    best = Some(i);
                },
            }
        }
        i += 1;
    }
    best
}

/// Take the connections that leave `p` off the counts of their targets.
fn release(
    connections: &[(NodeId, NodeId)],
    nodes: &Vec<NodeId>,
    waiting: &mut Vec<usize>,
    p: NodeId,
    Ghost(done): Ghost<Seq<NodeId>>,
)
    requires
        nodes@.no_duplicates(),
        forall|v: NodeId| nodes@.contains(v) <==> referenced(connections@, v),
        !done.contains(p),
        old(waiting).len() == nodes.len(),
        forall|i: int|
            0 <= i < nodes.len() ==> #[trigger] old(waiting)@[i] == pending(
                connections@,
                done,
                nodes@[i],
                0,
                connections@.len() as int,
            ),
    ensures
        final(waiting).len() == nodes.len(),
        forall|i: int|
            0 <= i < nodes.len() ==> #[trigger] final(waiting)@[i] == pending(
                connections@,
                done.push(p),
                nodes@[i],
                0,
                connections@.len() as int,
            ),
{
    let ghost edges = connections@;
    let ghost after = done.push(p);
    let ghost len = connections@.len() as int;
    let mut k: usize = 0;
    while k < connections.len()
        invariant
            k <= connections.len(),
            edges == connections@,
            after == done.push(p),
            len == edges.len(),
            !done.contains(p),
            waiting.len() == nodes.len(),
            nodes@.no_duplicates(),
            forall|v: NodeId| nodes@.contains(v) <==> referenced(edges, v),
            forall|i: int|
                0 <= i < nodes.len() ==> #[trigger] waiting@[i] == pending(edges, after, nodes@[i], 0, k as int)
                    + pending(edges, done, nodes@[i], k as int, len),
        decreases connections.len() - k,
    {
        let ghost before = waiting@;
        if connections[k].0 == p {
            let target = connections[k].1;
            proof {
                assert(edges[k as int].1 == target);
                assert(referenced(edges, target));
            }
            match position(nodes, target) {
                Some(t) => {
                    proof {
                        lemma_pending_step(edges, done, p, target, k as int);
                    }
                    let count: usize = waiting[t];
                    waiting.set(t, count - 1);
                },
                None => {
                    proof {
                        assert(false);
                    }
                },
            }
        }
        proof {
            assert forall|i: int| 0 <= i < nodes.len() implies #[trigger] waiting@[i] == pending(
                edges,
                after,
                nodes@[i],
                0,
                k + 1,
            ) + pending(edges, done, nodes@[i], k + 1, len) by {
                lemma_pending_step(edges, done, p, nodes@[i], k as int);
                if edges[k as int] == (p, nodes@[i]) {
                    let t = choose|t: int| 0 <= t < nodes.len() && nodes@[t] == edges[k as int].1;
                    assert(t == i);
                } else {
                    assert(waiting@[i] == before[i]);
                }
            }
        }
        k += 1;
    }
}

/// The nodes of `nodes` that are not in `order`.
spec fn unplaced(nodes: Seq<NodeId>, order: Seq<NodeId>) -> Set<NodeId> {
    Set::new(|v: NodeId| nodes.contains(v) && !order.contains(v))
}

/// Where nothing is ready and a node is still unplaced, the connections
/// close a cycle.
proof fn lemma_stuck_has_cycle(
    edges: Seq<(NodeId, NodeId)>,
    nodes: Seq<NodeId>,
    waiting: Seq<usize>,
    placed: Seq<bool>,
    order: Seq<NodeId>,
)
    requires
        nodes.no_duplicates(),
        order.no_duplicates(),
        forall|v: NodeId| nodes.contains(v) <==> referenced(edges, v),
        forall|j: int| 0 <= j < order.len() ==> nodes.contains(#[trigger] order[j]),
        waiting.len() == nodes.len(),
        placed.len() == nodes.len(),
        order.len() < nodes.len(),
        forall|i: int| 0 <= i < nodes.len() ==> (#[trigger] placed[i] <==> order.contains(nodes[i])),
        forall|i: int|
            0 <= i < nodes.len() ==> #[trigger] waiting[i] == pending(edges, order, nodes[i], 0, edges.len() as int),
        forall|i: int| 0 <= i < nodes.len() ==> !#[trigger] ready_at(waiting, placed, i),
    ensures
        has_cycle(edges),
{
    let blocked = unplaced(nodes, order);
    vstd::seq_lib::seq_to_set_is_finite(nodes);
    assert(blocked.subset_of(nodes.to_set()));
    vstd::set_lib::lemma_len_subset(blocked, nodes.to_set());
    if blocked.len() == 0 {
        vstd::set_lib::lemma_set_empty_equivalency_len(blocked);
        assert(nodes.to_set().subset_of(order.to_set())) by {
            assert forall|v: NodeId| nodes.to_set().contains(v) implies order.to_set().contains(v) by {
                if !order.contains(v) {
                    assert(blocked.contains(v));
                }
            }
        }
        vstd::seq_lib::seq_to_set_is_finite(order);
        vstd::set_lib::lemma_len_subset(nodes.to_set(), order.to_set());
        nodes.unique_seq_to_set();
        order.unique_seq_to_set();
        assert(false);
    }
    assert forall|v: NodeId| #[trigger] blocked.contains(v) implies exists|s: NodeId| #[trigger]
        blocked.contains(s) && has_edge(edges, s, v) by {
        let i = nodes.index_of(v);
        assert(!placed[i]);
        assert(!ready_at(waiting, placed, i));
        lemma_pending_none(edges, order, v, edges.len() as int);
        let k = choose|k: int| 0 <= k < edges.len() && #[trigger] is_pending(edges, order, v, k);
        let s = edges[k].0;
        assert(edges[k] == (s, v));
        assert(referenced(edges, s));
        assert(blocked.contains(s));
        assert(has_edge(edges, s, v));
    }
    lemma_blocked_has_cycle(edges, blocked);
}

/// Placing a least ready node keeps a schedule a schedule.
proof fn lemma_schedule_grows(
    edges: Seq<(NodeId, NodeId)>,
    nodes: Seq<NodeId>,
    waiting: Seq<usize>,
    placed: Seq<bool>,
    order: Seq<NodeId>,
    b: int,
)
    requires
        forall|v: NodeId| nodes.contains(v) <==> referenced(edges, v),
        waiting.len() == nodes.len(),
        placed.len() == nodes.len(),
        forall|i: int| 0 <= i < nodes.len() ==> (#[trigger] placed[i] <==> order.contains(nodes[i])),
        forall|i: int|
            0 <= i < nodes.len() ==> #[trigger] waiting[i] == pending(edges, order, nodes[i], 0, edges.len() as int),
        is_schedule(edges, order),
        0 <= b < nodes.len(),
        ready_at(waiting, placed, b),
        forall|i: int|
            0 <= i < nodes.len() && ready_at(waiting, placed, i) ==> nodes[b].0 <= (#[trigger] nodes[i]).0,
    ensures
        is_schedule(edges, order.push(nodes[b])),
        !order.contains(nodes[b]),
{
    let p = nodes[b];
    let grown = order.push(p);
    assert(!placed[b]);
    assert forall|j: int| 0 <= j < grown.len() implies {
        &&& ready(edges, grown.take(j), #[trigger] grown[j])
        &&& forall|m: NodeId| ready(edges, grown.take(j), m) ==> grown[j].0 <= m.0
    } by {
        if j < order.len() {
            assert(grown.take(j) =~= order.take(j));
            assert(grown[j] == order[j]);
            assert(ready(edges, order.take(j), order[j]));
        } else {
            assert(grown.take(j) =~= order);
            lemma_pending_ready(edges, order, p);
            assert forall|m: NodeId| ready(edges, order, m) implies p.0 <= m.0 by {
                let i = nodes.index_of(m);
                lemma_pending_ready(edges, order, m);
                assert(!placed[i]);
                assert(ready_at(waiting, placed, i));
            }
        }
    }
}

/// Computes the order in which the nodes of a graph are processed.
pub struct GraphScheduler;

impl GraphScheduler {
    /// The processing order for the nodes that `connections` mentions, each
    /// connection given as source and target.
    ///
    /// Without a cycle among the connections the result is the order in which
    /// every node stands once and after all nodes that feed it, the smallest
    /// id first wherever several nodes could come next. With a cycle there is
    /// no such order, and the result is `GraphCycle`.
    pub fn order_of(connections: &[(NodeId, NodeId)]) -> (r: Result<Vec<NodeId>, ScheduleError>)
        ensures
            r is Ok <==> !has_cycle(connections@),
            r matches Ok(order) ==> is_topological_order(connections@, order@) && is_schedule(
                connections@,
                order@,
            ),
            r matches Err(e) ==> e == ScheduleError::GraphCycle,
    {
        let ghost edges = connections@;
        let nodes = referenced_nodes(connections);
        let n = nodes.len();
        let mut waiting = in_degrees(connections, &nodes);
        let mut placed: Vec<bool> = Vec::new();
        while placed.len() < n
            invariant
                placed.len() <= n,
                forall|i: int| 0 <= i < placed.len() ==> !#[trigger] placed@[i],
            decreases n - placed.len(),
        {
            placed.push(false);
        }
        let mut order: Vec<NodeId> = Vec::new();
        proof {
            assert(is_schedule(edges, order@));
        }
        while order.len() < n
            invariant
                edges == connections@,
                n == nodes.len(),
                nodes@.no_duplicates(),
                forall|v: NodeId| nodes@.contains(v) <==> referenced(edges, v),
                waiting.len() == n,
                placed.len() == n,
                order.len() <= n,
                order@.no_duplicates(),
                forall|j: int| 0 <= j < order.len() ==> nodes@.contains(#[trigger] order@[j]),
                forall|i: int| 0 <= i < n ==> (#[trigger] placed@[i] <==> order@.contains(nodes@[i])),
                forall|i: int|
                    0 <= i < n ==> #[trigger] waiting@[i] == pending(
                        edges,
                        order@,
                        nodes@[i],
                        0,
                        edges.len() as int,
                    ),
                is_schedule(edges, order@),
            decreases n - order.len(),
        {
            match least_ready(&nodes, &waiting, &placed) {
                None => {
                    proof {
                        lemma_stuck_has_cycle(edges, nodes@, waiting@, placed@, order@);
                    }
                    return Err(ScheduleError::GraphCycle);
                },
                Some(b) => {
                    let p = nodes[b];
                    let ghost done = order@;
                    let ghost flags = placed@;
                    proof {
                        lemma_schedule_grows(edges, nodes@, waiting@, placed@, order@, b as int);
                    }
                    release(connections, &nodes, &mut waiting, p, Ghost(done));
                    placed.set(b, true);
                    order.push(p);
                    proof {
                        let grown = order@;
                        assert(grown == done.push(p));
                        assert forall|v: NodeId| grown.contains(v) <==> (done.contains(v) || v == p) by {
                            if done.contains(v) {
                                let i = done.index_of(v);
                                assert(grown[i] == v);
                            }
                            if v == p {
                                assert(grown[done.len() as int] == p);
                            }
                            if grown.contains(v) {
                                let i = grown.index_of(v);
                                if i < done.len() {
                                    assert(done[i] == v);
                                }
                            }
                        }
                        assert forall|i: int| 0 <= i < n implies (#[trigger] placed@[i] <==> grown.contains(
                            nodes@[i],
                        )) by {
                            if i != b {
                                assert(placed@[i] == flags[i]);
                                assert(nodes@[i] != nodes@[b as int]);
                            }
                        }
                        assert(grown.no_duplicates()) by {
                            assert forall|x: int, y: int| 0 <= x < y < grown.len() implies grown[x] != grown[y] by {
                                if y == done.len() {
                                    assert(done[x] == grown[x]);
                                }
                            }
                        }
                        assert(order.len() <= n) by {
                            vstd::seq_lib::seq_to_set_is_finite(nodes@);
                            assert(grown.to_set().subset_of(nodes@.to_set())) by {
                                assert forall|v: NodeId| grown.to_set().contains(v) implies nodes@.to_set().contains(
                                    v,
                                ) by {
                                    let i = grown.index_of(v);
                                    if i < done.len() {
                                        assert(done[i] == v);
                                    }
                                }
                            }
                            vstd::set_lib::lemma_len_subset(grown.to_set(), nodes@.to_set());
                            grown.unique_seq_to_set();
                            nodes@.unique_seq_to_set();
                        }
                    }
                },
            }
        }
        proof {
            let done = order@;
            vstd::seq_lib::seq_to_set_is_finite(nodes@);
            vstd::seq_lib::seq_to_set_is_finite(done);
            done.unique_seq_to_set();
            nodes@.unique_seq_to_set();
            assert(done.to_set().subset_of(nodes@.to_set())) by {
                assert forall|v: NodeId| done.to_set().contains(v) implies nodes@.to_set().contains(v) by {
                    let i = done.index_of(v);
                    assert(nodes@.contains(done[i]));
                }
            }
            vstd::set_lib::lemma_subset_equality(done.to_set(), nodes@.to_set());
            assert forall|v: NodeId| referenced(edges, v) implies done.contains(v) by {
                assert(nodes@.to_set().contains(v));
                assert(done.to_set().contains(v));
            }
            lemma_schedule_is_topological(edges, done);
            if has_cycle(edges) {
                lemma_cycle_excludes_order(edges, done);
            }
        }
        Ok(order)
    }

    /// The processing order for a graph with the given connections, as
    /// `order_of` computes it. The graph itself is not looked at: the order
    /// is that of the nodes that the connections mention.
    pub fn compute_order(_graph: &AudioGraph, connections: &[(NodeId, NodeId)]) -> (r: Result<
        Vec<NodeId>,
        ScheduleError,
    >)
        ensures
            r is Ok <==> !has_cycle(connections@),
            r matches Ok(order) ==> is_topological_order(connections@, order@) && is_schedule(
                connections@,
                order@,
            ),
            r matches Err(e) ==> e == ScheduleError::GraphCycle,
    {
        GraphScheduler::order_of(connections)
    }
}


} // verus!
