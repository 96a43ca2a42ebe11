//! The order in which the collaborative engine lays out characters (and
//! values): a breadth-first topological walk of the edges that thread them,
//! sources first in the order given, leaving out those that are gone.
use std::collections::{HashMap, HashSet, VecDeque};
use vstd::prelude::*;

verus! {

broadcast use vstd::std_specs::hash::group_hash_axioms;

/// The list a map holds for `k`, empty where it holds none.
pub open spec fn list(m: Map<u64, Seq<u64>>, k: u64) -> Seq<u64> {
    if m.contains_key(k) {
        m[k]
    } else {
        Seq::empty()
    }
}

/// For each target, the sources of its edges, in the order of the edges.
pub open spec fn incoming_of(edges: Seq<(u64, u64)>) -> Map<u64, Seq<u64>>
    decreases edges.len(),
{
    if edges.len() == 0 {
        Map::empty()
    } else {
        let m = incoming_of(edges.drop_last());
        let (from, to) = edges.last();
        m.insert(to, list(m, to).push(from))
    }
}

/// For each source, the targets of its edges, in the order of the edges.
pub open spec fn outgoing_of(edges: Seq<(u64, u64)>) -> Map<u64, Seq<u64>>
    decreases edges.len(),
{
    if edges.len() == 0 {
        Map::empty()
    } else {
        let m = outgoing_of(edges.drop_last());
        let (from, to) = edges.last();
        m.insert(from, list(m, from).push(to))
    }
}

/// The nodes that no edge leads to, in order.
pub open spec fn sources(nodes: Seq<u64>, incoming: Map<u64, Seq<u64>>) -> Seq<u64>
    decreases nodes.len(),
{
    if nodes.len() == 0 {
        Seq::empty()
    } else {
        let s = sources(nodes.drop_last(), incoming);
        if incoming.contains_key(nodes.last()) {
            s
        } else {
            s.push(nodes.last())
        }
    }
}

/// `s` without any `x`.
pub open spec fn without(s: Seq<u64>, x: u64) -> Seq<u64>
    decreases s.len(),
{
    if s.len() == 0 {
        Seq::empty()
    } else {
        let w = without(s.drop_last(), x);
        if s.last() == x {
            w
        } else {
            w.push(s.last())
        }
    }
}

/// The walk's state: the queue, what is left of each node's incoming
/// edges, the outgoing edges of the nodes not yet visited, and the nodes
/// laid out.
pub struct Walk {
    pub queue: Seq<u64>,
    pub incoming: Map<u64, Seq<u64>>,
    pub outgoing: Map<u64, Seq<u64>>,
    pub out: Seq<u64>,
}

/// Drops the edges from `id` to each of `nexts` in turn; a node left with
/// no incoming edge joins the queue.
pub open spec fn release(incoming: Map<u64, Seq<u64>>, queue: Seq<u64>, id: u64, nexts: Seq<u64>) -> (Map<u64, Seq<u64>>, Seq<u64>)
    decreases nexts.len(),
{
    if nexts.len() == 0 {
        (incoming, queue)
    } else {
        let (inc, q) = release(incoming, queue, id, nexts.drop_last());
        let next = nexts.last();
        let kept = without(list(inc, next), id);
        (inc.insert(next, kept), if kept.len() == 0 {
            q.push(next)
        } else {
            q
        })
    }
}

/// The walk at the start.
pub open spec fn start_walk(nodes: Seq<u64>, edges: Seq<(u64, u64)>) -> Walk {
    Walk {
        queue: sources(nodes, incoming_of(edges)),
        incoming: incoming_of(edges),
        outgoing: outgoing_of(edges),
        out: Seq::empty(),
    }
}

/// One step: the node at the front of the queue is laid out unless it is
/// gone, and its outgoing edges are released.
pub open spec fn walk_step(w: Walk, gone: Set<u64>) -> Walk {
    let id = w.queue[0];
    let (inc, q) = release(w.incoming, w.queue.drop_first(), id, list(w.outgoing, id));
    Walk {
        queue: q,
        incoming: inc,
        outgoing: w.outgoing.remove(id),
        out: if gone.contains(id) {
            w.out
        } else {
            w.out.push(id)
        },
    }
}

/// The walk after at most `fuel` steps, stopping when the queue is empty.
pub open spec fn walk(w: Walk, gone: Set<u64>, fuel: nat) -> Walk
    decreases fuel,
{
    if w.queue.len() == 0 || fuel == 0 {
        w
    } else {
        walk(walk_step(w, gone), gone, (fuel - 1) as nat)
    }
}

/// The nodes laid out, in order: the walk always ends within as many steps
/// as there are nodes and edges.
pub open spec fn linearized(nodes: Seq<u64>, edges: Seq<(u64, u64)>, gone: Set<u64>) -> Seq<u64> {
    walk(start_walk(nodes, edges), gone, nodes.len() + edges.len()).out
}

/// A walk lays out no gone node.
proof fn lemma_walk_not_gone(w: Walk, gone: Set<u64>, fuel: nat)
    requires
        forall|i: int| 0 <= i < w.out.len() ==> !gone.contains(#[trigger] w.out[i]),
    ensures
        forall|i: int| 0 <= i < walk(w, gone, fuel).out.len() ==> !gone.contains(#[trigger] walk(w, gone, fuel).out[i]),
    decreases fuel,
{
    if w.queue.len() > 0 && fuel > 0 {
        let n = walk_step(w, gone);
        assert forall|i: int| 0 <= i < n.out.len() implies !gone.contains(#[trigger] n.out[i]) by {
            if i < w.out.len() {
                assert(n.out[i] == w.out[i]);
            }
        }
        lemma_walk_not_gone(n, gone, (fuel - 1) as nat);
        assert(walk(w, gone, fuel) == walk(n, gone, (fuel - 1) as nat));
    }
}

/// The layout leaves out every gone node.
pub proof fn lemma_laid_out_not_gone(nodes: Seq<u64>, edges: Seq<(u64, u64)>, gone: Set<u64>)
    ensures
        forall|i: int|
            0 <= i < linearized(nodes, edges, gone).len() ==> !gone.contains(#[trigger] linearized(nodes, edges, gone)[i]),
{
    lemma_walk_not_gone(start_walk(nodes, edges), gone, nodes.len() + edges.len());
}

/// `without` keeps exactly the other entries.
proof fn lemma_without_contains(s: Seq<u64>, x: u64, a: u64)
    ensures
        without(s, x).contains(a) <==> s.contains(a) && a != x,
    decreases s.len(),
{
    if s.len() > 0 {
        lemma_without_contains(s.drop_last(), x, a);
        let w = without(s.drop_last(), x);
        if s.contains(a) && a != x {
            let i = choose|i: int| 0 <= i < s.len() && s[i] == a;
            if i < s.len() - 1 {
                assert(s.drop_last()[i] == a);
            }
        }
        if s.last() != x {
            if w.push(s.last()).contains(a) && a != s.last() {
                let i = choose|i: int| 0 <= i < w.push(s.last()).len() && w.push(s.last())[i] == a;
                assert(w[i] == a);
            }
        }
        if s.drop_last().contains(a) {
            let i = choose|i: int| 0 <= i < s.drop_last().len() && s.drop_last()[i] == a;
            assert(s[i] == a);
        }
        if w.contains(a) && s.last() != x {
            let i = choose|i: int| 0 <= i < w.len() && w[i] == a;
            assert(w.push(s.last())[i] == a);
        }
        if s.last() == a && a != x {
            assert(w.push(s.last())[w.len() as int] == a);
        }
    }
}

/// Every edge into a node stands in the list of its incoming edges.
proof fn lemma_incoming_has_edges(edges: Seq<(u64, u64)>, a: u64, x: u64)
    requires
        edges.contains((a, x)),
    ensures
        incoming_of(edges).contains_key(x),
        list(incoming_of(edges), x).contains(a),
    decreases edges.len(),
{
    let m = incoming_of(edges.drop_last());
    let (from, to) = edges.last();
    if edges.last() == (a, x) {
        assert(list(m, x).push(a)[list(m, x).len() as int] == a);
    } else {
        let i = choose|i: int| 0 <= i < edges.len() && edges[i] == (a, x);
        assert(edges.drop_last()[i] == (a, x));
        lemma_incoming_has_edges(edges.drop_last(), a, x);
        if to == x {
            let j = choose|j: int| 0 <= j < list(m, x).len() && list(m, x)[j] == a;
            assert(list(m, x).push(from)[j] == a);
        }
    }
}

/// The sources of the nodes have no incoming edges.
proof fn lemma_sources_unreached(nodes: Seq<u64>, incoming: Map<u64, Seq<u64>>, x: u64)
    requires
        sources(nodes, incoming).contains(x),
    ensures
        !incoming.contains_key(x),
    decreases nodes.len(),
{
    let s = sources(nodes.drop_last(), incoming);
    if !incoming.contains_key(nodes.last()) && x == nodes.last() {
    } else {
        let i = choose|i: int| 0 <= i < sources(nodes, incoming).len() && sources(nodes, incoming)[i] == x;
        if incoming.contains_key(nodes.last()) {
            assert(s[i] == x);
        } else {
            if i < s.len() {
                assert(s[i] == x);
            }
        }
        lemma_sources_unreached(nodes.drop_last(), incoming, x);
    }
}

/// Releasing the edges of `id` takes only `id` out of the lists, keeps the
/// queue in front, and queues only nodes whose list held nothing but `id`.
proof fn lemma_release(incoming: Map<u64, Seq<u64>>, queue: Seq<u64>, id: u64, nexts: Seq<u64>)
    ensures
        ({
            let (inc, q) = release(incoming, queue, id, nexts);
            &&& forall|x: u64, a: u64| list(incoming, x).contains(a) && a != id ==> #[trigger] list(inc, x).contains(a)
            &&& q.len() >= queue.len()
            &&& q.take(queue.len() as int) == queue
            &&& forall|k: int, a: u64|
                queue.len() <= k < q.len() && #[trigger] list(incoming, q[k]).contains(a) ==> a == id
        }),
    decreases nexts.len(),
{
    if nexts.len() > 0 {
        lemma_release(incoming, queue, id, nexts.drop_last());
        let (inc, q) = release(incoming, queue, id, nexts.drop_last());
        let next = nexts.last();
        let kept = without(list(inc, next), id);
        let inc2 = inc.insert(next, kept);
        let q2 = if kept.len() == 0 {
            q.push(next)
        } else {
            q
        };
        assert forall|x: u64, a: u64| list(incoming, x).contains(a) && a != id implies #[trigger] list(inc2, x).contains(a) by {
            assert(list(inc, x).contains(a));
            if x == next {
                lemma_without_contains(list(inc, next), id, a);
            }
        }
        assert(q2.take(queue.len() as int) =~= queue) by {
            assert(q.take(queue.len() as int) == queue);
        }
        assert forall|k: int, a: u64| queue.len() <= k < q2.len() && #[trigger] list(incoming, q2[k]).contains(a) implies a == id by {
            if k < q.len() {
                assert(q2[k] == q[k]);
            } else {
                assert(q2[k] == next);
                if a != id {
                    assert(list(inc, next).contains(a));
                    lemma_without_contains(list(inc, next), id, a);
                    assert(kept.contains(a));
                }
            }
        }
    }
}

/// What the walk keeps true: every visited node that is not gone is laid
/// out; every source of an edge into a queued node is visited; every edge
/// into a laid out node from a node that is not gone comes from a node laid
/// out before it; and every edge from a node not yet visited still stands
/// in its target's list.
pub open spec fn topo_inv(w: Walk, edges: Seq<(u64, u64)>, gone: Set<u64>, visited: Set<u64>) -> bool {
    &&& forall|a: u64| visited.contains(a) && !gone.contains(a) ==> #[trigger] w.out.contains(a)
    &&& forall|k: int, a: u64|
        0 <= k < w.queue.len() && #[trigger] edges.contains((a, w.queue[k])) ==> visited.contains(a)
    &&& forall|j: int, a: u64|
        0 <= j < w.out.len() && #[trigger] edges.contains((a, w.out[j])) && !gone.contains(a) ==> exists|i: int|
            0 <= i < j && w.out[i] == a
    &&& forall|x: u64, a: u64| #[trigger] edges.contains((a, x)) && !visited.contains(a) ==> list(w.incoming, x).contains(a)
}

proof fn lemma_walk_topo(w: Walk, edges: Seq<(u64, u64)>, gone: Set<u64>, visited: Set<u64>, fuel: nat)
    requires
        topo_inv(w, edges, gone, visited),
    ensures
        forall|j: int, a: u64|
            0 <= j < walk(w, gone, fuel).out.len() && #[trigger] edges.contains((a, walk(w, gone, fuel).out[j]))
                && !gone.contains(a) ==> exists|i: int| 0 <= i < j && walk(w, gone, fuel).out[i] == a,
    decreases fuel,
{
    if w.queue.len() > 0 && fuel > 0 {
        let id = w.queue[0];
        let n = walk_step(w, gone);
        let vis2 = visited.insert(id);
        lemma_release(w.incoming, w.queue.drop_first(), id, list(w.outgoing, id));
        let q0 = w.queue.drop_first();
        assert forall|a: u64| vis2.contains(a) && !gone.contains(a) implies #[trigger] n.out.contains(a) by {
            if a == id {
                assert(n.out == w.out.push(id));
                assert(n.out[w.out.len() as int] == id);
            } else {
                assert(visited.contains(a));
                assert(w.out.contains(a));
                let i = choose|i: int| 0 <= i < w.out.len() && w.out[i] == a;
                assert(n.out[i] == a);
            }
        }
        assert forall|k: int, a: u64| 0 <= k < n.queue.len() && #[trigger] edges.contains((a, n.queue[k])) implies vis2.contains(a) by {
            if k < q0.len() {
                assert(n.queue.take(q0.len() as int) == q0);
                assert(n.queue[k] == q0[k]);
                assert(w.queue[k + 1] == q0[k]);
            } else {
                if !vis2.contains(a) {
                    assert(list(w.incoming, n.queue[k]).contains(a));
                }
            }
        }
        assert forall|j: int, a: u64|
            0 <= j < n.out.len() && #[trigger] edges.contains((a, n.out[j])) && !gone.contains(a) implies exists|i: int|
            0 <= i < j && n.out[i] == a by {
            if j < w.out.len() {
                assert(n.out[j] == w.out[j]);
                let i = choose|i: int| 0 <= i < j && w.out[i] == a;
                assert(n.out[i] == a);
            } else {
                assert(n.out[j] == id);
                assert(edges.contains((a, w.queue[0])));
                assert(visited.contains(a));
                assert(w.out.contains(a));
                let i = choose|i: int| 0 <= i < w.out.len() && w.out[i] == a;
                assert(n.out[i] == a);
            }
        }
        assert forall|x: u64, a: u64| #[trigger] edges.contains((a, x)) && !vis2.contains(a) implies list(n.incoming, x).contains(a) by {
            assert(list(w.incoming, x).contains(a));
        }
        lemma_walk_topo(n, edges, gone, vis2, (fuel - 1) as nat);
        assert(walk(w, gone, fuel) == walk(n, gone, (fuel - 1) as nat));
    }
}

/// The layout keeps the order of the edges: where both ends of an edge
/// are laid out, and the node it comes from is not gone, that node comes
/// first. (A node that is gone is walked but not laid out, so the edges
/// through it still order the rest.)
pub proof fn lemma_laid_out_in_edge_order(nodes: Seq<u64>, edges: Seq<(u64, u64)>, gone: Set<u64>)
    ensures
        forall|j: int, a: u64|
            0 <= j < linearized(nodes, edges, gone).len() && #[trigger] edges.contains(
                (a, linearized(nodes, edges, gone)[j]),
            ) && !gone.contains(a) ==> exists|i: int| 0 <= i < j && linearized(nodes, edges, gone)[i] == a,
{
    let w = start_walk(nodes, edges);
    assert forall|k: int, a: u64| 0 <= k < w.queue.len() && #[trigger] edges.contains((a, w.queue[k])) implies Set::<
        u64,
    >::empty().contains(a) by {
        assert(w.queue.contains(w.queue[k]));
        lemma_sources_unreached(nodes, incoming_of(edges), w.queue[k]);
        lemma_incoming_has_edges(edges, a, w.queue[k]);
    }
    assert forall|x: u64, a: u64| #[trigger] edges.contains((a, x)) && !Set::<u64>::empty().contains(a) implies list(
        w.incoming,
        x,
    ).contains(a) by {
        lemma_incoming_has_edges(edges, a, x);
    }
    lemma_walk_topo(w, edges, gone, Set::empty(), nodes.len() + edges.len());
}

/// How many edges start at a node in `dom`.
pub open spec fn pending(edges: Seq<(u64, u64)>, dom: Set<u64>) -> nat
    decreases edges.len(),
{
    if edges.len() == 0 {
        0
    } else {
        pending(edges.drop_last(), dom) + if dom.contains(edges.last().0) {
            1nat
        } else {
            0
        }
    }
}

/// How many edges start at `id`.
pub open spec fn out_degree(edges: Seq<(u64, u64)>, id: u64) -> nat
    decreases edges.len(),
{
    if edges.len() == 0 {
        0
    } else {
        out_degree(edges.drop_last(), id) + if edges.last().0 == id {
            1nat
        } else {
            0
        }
    }
}

proof fn lemma_outgoing_of(edges: Seq<(u64, u64)>)
    ensures
        forall|id: u64| #[trigger] list(outgoing_of(edges), id).len() == out_degree(edges, id),
        forall|id: u64| outgoing_of(edges).contains_key(id) <==> out_degree(edges, id) > 0,
        pending(edges, outgoing_of(edges).dom()) == edges.len(),
    decreases edges.len(),
{
    if edges.len() > 0 {
        let d = edges.drop_last();
        let (from, to) = edges.last();
        lemma_outgoing_of(d);
        assert forall|id: u64| #[trigger] list(outgoing_of(edges), id).len() == out_degree(edges, id) by {
            assert(out_degree(edges, id) == out_degree(d, id) + if from == id { 1nat } else { 0 });
            assert(list(outgoing_of(d), id).len() == out_degree(d, id));
            if id == from {
                assert(list(outgoing_of(edges), id) == list(outgoing_of(d), id).push(to));
            } else {
                assert(list(outgoing_of(edges), id) == list(outgoing_of(d), id));
            }
        }
        assert forall|i: int| 0 <= i < d.len() && outgoing_of(edges).dom().contains(d[i].0) implies outgoing_of(d).dom().contains(d[i].0) by {
            lemma_out_degree_pos(d, i);
        }
        lemma_pending_grow(d, outgoing_of(d).dom(), outgoing_of(edges).dom());
    }
}

/// Each edge's source has an edge.
proof fn lemma_out_degree_pos(edges: Seq<(u64, u64)>, i: int)
    requires
        0 <= i < edges.len(),
    ensures
        out_degree(edges, edges[i].0) > 0,
    decreases edges.len(),
{
    if i < edges.len() - 1 {
        lemma_out_degree_pos(edges.drop_last(), i);
        assert(edges.drop_last()[i] == edges[i]);
    }
}

/// `pending` over a larger set that adds no source of the edges.
proof fn lemma_pending_grow(edges: Seq<(u64, u64)>, a: Set<u64>, b: Set<u64>)
    requires
        a.subset_of(b),
        forall|i: int| 0 <= i < edges.len() && b.contains(edges[i].0) ==> a.contains(edges[i].0),
    ensures
        pending(edges, a) == pending(edges, b),
    decreases edges.len(),
{
    if edges.len() > 0 {
        lemma_pending_grow(edges.drop_last(), a, b);
    }
}

/// Removing a source from the set drops its edges from the count.
proof fn lemma_pending_remove(edges: Seq<(u64, u64)>, dom: Set<u64>, id: u64)
    requires
        dom.contains(id),
    ensures
        pending(edges, dom) == pending(edges, dom.remove(id)) + out_degree(edges, id),
    decreases edges.len(),
{
    if edges.len() > 0 {
        lemma_pending_remove(edges.drop_last(), dom, id);
    }
}

proof fn lemma_release_len(incoming: Map<u64, Seq<u64>>, queue: Seq<u64>, id: u64, nexts: Seq<u64>)
    ensures
        release(incoming, queue, id, nexts).1.len() <= queue.len() + nexts.len(),
    decreases nexts.len(),
{
    if nexts.len() > 0 {
        lemma_release_len(incoming, queue, id, nexts.drop_last());
    }
}

/// The measure of a walk: its queue and the edges not yet released.
pub open spec fn measure(w: Walk, edges: Seq<(u64, u64)>) -> nat {
    w.queue.len() + pending(edges, w.outgoing.dom())
}

/// What stays true of a walk: each unvisited node keeps all its outgoing
/// edges.
pub open spec fn walk_inv(w: Walk, edges: Seq<(u64, u64)>) -> bool {
    &&& w.outgoing.dom().subset_of(outgoing_of(edges).dom())
    &&& forall|k: u64| #[trigger] w.outgoing.contains_key(k) ==> w.outgoing[k] == outgoing_of(edges)[k]
}

proof fn lemma_step_measure(w: Walk, edges: Seq<(u64, u64)>, gone: Set<u64>)
    requires
        w.queue.len() > 0,
        walk_inv(w, edges),
    ensures
        walk_inv(walk_step(w, gone), edges),
        measure(walk_step(w, gone), edges) < measure(w, edges),
{
    let id = w.queue[0];
    let nexts = list(w.outgoing, id);
    lemma_release_len(w.incoming, w.queue.drop_first(), id, nexts);
    lemma_outgoing_of(edges);
    let next = walk_step(w, gone);
    if w.outgoing.contains_key(id) {
        lemma_pending_remove(edges, w.outgoing.dom(), id);
        assert(w.outgoing.remove(id).dom() =~= w.outgoing.dom().remove(id));
        assert(list(outgoing_of(edges), id) == nexts);
    } else {
        assert(w.outgoing.remove(id) =~= w.outgoing);
    }
}

proof fn lemma_walk_ends(w: Walk, edges: Seq<(u64, u64)>, gone: Set<u64>, fuel: nat)
    requires
        walk_inv(w, edges),
        measure(w, edges) <= fuel,
    ensures
        walk(w, gone, fuel).queue.len() == 0,
        forall|more: nat| fuel <= more ==> #[trigger] walk(w, gone, more) == walk(w, gone, fuel),
    decreases fuel,
{
    if w.queue.len() > 0 {
        lemma_step_measure(w, edges, gone);
        lemma_walk_ends(walk_step(w, gone), edges, gone, (fuel - 1) as nat);
        assert forall|more: nat| fuel <= more implies #[trigger] walk(w, gone, more) == walk(w, gone, fuel) by {
            assert(walk(w, gone, more) == walk(walk_step(w, gone), gone, (more - 1) as nat));
        }
    }
}

proof fn lemma_sources_len(nodes: Seq<u64>, incoming: Map<u64, Seq<u64>>)
    ensures
        sources(nodes, incoming).len() <= nodes.len(),
    decreases nodes.len(),
{
    if nodes.len() > 0 {
        lemma_sources_len(nodes.drop_last(), incoming);
    }
}

/// The lists of a map of vectors.
pub open spec fn lists(m: Map<u64, Vec<u64>>) -> Map<u64, Seq<u64>> {
    m.map_values(|v: Vec<u64>| v@)
}

proof fn lemma_lists_insert(m: Map<u64, Vec<u64>>, k: u64, v: Vec<u64>)
    ensures
        lists(m.insert(k, v)) == lists(m).insert(k, v@),
{
    assert(lists(m.insert(k, v)) =~= lists(m).insert(k, v@));
}

proof fn lemma_lists_remove(m: Map<u64, Vec<u64>>, k: u64)
    ensures
        lists(m.remove(k)) == lists(m).remove(k),
{
    assert(lists(m.remove(k)) =~= lists(m).remove(k));
}

/// The list of `k`, taken out of the map (empty where there is none).
fn take_list(m: &mut HashMap<u64, Vec<u64>>, k: u64) -> (r: Vec<u64>)
    ensures
        r@ == list(lists(old(m)@), k),
        lists(final(m)@) == lists(old(m)@).remove(k),
{
    proof {
        lemma_lists_remove(m@, k);
    }
    match m.remove(&k) {
        Some(v) => v,
        None => Vec::new(),
    }
}

/// Appends `x` to the list of `k`.
fn push_list(m: &mut HashMap<u64, Vec<u64>>, k: u64, x: u64)
    ensures
        lists(final(m)@) == lists(old(m)@).insert(k, list(lists(old(m)@), k).push(x)),
{
    let mut v = take_list(m, k);
    v.push(x);
    proof {
        lemma_lists_insert(m@, k, v);
    }
    m.insert(k, v);
    assert(lists(m@) =~= lists(old(m)@).insert(k, list(lists(old(m)@), k).push(x)));
}

/// The order in which the nodes are laid out, given the edges that thread
/// them and the nodes that are gone: the nodes that no edge leads to, in
/// the order given, then breadth first along the edges, a node coming once
/// all the edges that lead to it were followed. Gone nodes are walked but
/// not laid out; nodes on a cycle never come.
pub fn linearize(nodes: &[u64], edges: &[(u64, u64)], gone: &HashSet<u64>) -> (r: Vec<u64>)
    requires
        nodes@.len() + edges@.len() <= usize::MAX,
    ensures
        r@ == linearized(nodes@, edges@, gone@),
{
    let mut incoming: HashMap<u64, Vec<u64>> = HashMap::new();
    let mut outgoing: HashMap<u64, Vec<u64>> = HashMap::new();
    let mut e: usize = 0;
    assert(lists(incoming@) =~= incoming_of(edges@.take(0)));
    assert(lists(outgoing@) =~= outgoing_of(edges@.take(0)));
    while e < edges.len()
        invariant
            e <= edges@.len(),
            lists(incoming@) == incoming_of(edges@.take(e as int)),
            lists(outgoing@) == outgoing_of(edges@.take(e as int)),
        decreases edges@.len() - e,
    {
        let (from, to) = edges[e];
        assert(edges@.take(e + 1).drop_last() =~= edges@.take(e as int));
        push_list(&mut incoming, to, from);
        push_list(&mut outgoing, from, to);
        e = e + 1;
    }
    assert(edges@.take(e as int) =~= edges@);
    let mut queue: VecDeque<u64> = VecDeque::new();
    let mut n: usize = 0;
    while n < nodes.len()
        invariant
            n <= nodes@.len(),
            lists(incoming@) == incoming_of(edges@),
            queue@ == sources(nodes@.take(n as int), incoming_of(edges@)),
        decreases nodes@.len() - n,
    {
        let id = nodes[n];
        assert(nodes@.take(n + 1).drop_last() =~= nodes@.take(n as int));
        if !incoming.contains_key(&id) {
            queue.push_back(id);
        }
        n = n + 1;
    }
    assert(nodes@.take(n as int) =~= nodes@);
    let ghost fuel = nodes@.len() + edges@.len();
    let ghost start = start_walk(nodes@, edges@);
    let mut out: Vec<u64> = Vec::new();
    proof {
        lemma_outgoing_of(edges@);
        lemma_sources_len(nodes@, incoming_of(edges@));
        assert(walk_inv(start, edges@));
        lemma_walk_ends(start, edges@, gone@, fuel as nat);
    }
    let ghost mut left: nat = fuel as nat;
    loop
        invariant
            start == start_walk(nodes@, edges@),
            fuel == nodes@.len() + edges@.len(),
            ({
                let w = Walk { queue: queue@, incoming: lists(incoming@), outgoing: lists(outgoing@), out: out@ };
                &&& walk_inv(w, edges@)
                &&& measure(w, edges@) <= left
                &&& walk(start, gone@, fuel as nat) == walk(w, gone@, left)
            }),
        decreases left,
    {
        let ghost w = Walk { queue: queue@, incoming: lists(incoming@), outgoing: lists(outgoing@), out: out@ };
        let id = match queue.pop_front() {
            Some(id) => id,
            None => {
                proof {
                    assert(walk(w, gone@, left) == w);
                    assert(out@ == walk(start, gone@, fuel as nat).out);
                }
                return out;
            },
        };
        proof {
            lemma_step_measure(w, edges@, gone@);
        }
        if !gone.contains(&id) {
            out.push(id);
        }
        let nexts = take_list(&mut outgoing, id);
        let mut k: usize = 0;
        assert(nexts@.take(0) =~= Seq::<u64>::empty());
        while k < nexts.len()
            invariant
                k <= nexts@.len(),
                nexts@ == list(w.outgoing, id),
                (lists(incoming@), queue@) == release(w.incoming, w.queue.drop_first(), id, nexts@.take(k as int)),
            decreases nexts@.len() - k,
        {
            let next = nexts[k];
            assert(nexts@.take(k + 1).drop_last() =~= nexts@.take(k as int));
            let current = take_list(&mut incoming, next);
            let mut kept: Vec<u64> = Vec::new();
            let mut j: usize = 0;
            assert(current@.take(0) =~= Seq::<u64>::empty());
            while j < current.len()
                invariant
                    j <= current@.len(),
                    kept@ == without(current@.take(j as int), id),
                decreases current@.len() - j,
            {
                assert(current@.take(j + 1).drop_last() =~= current@.take(j as int));
                if current[j] != id {
                    kept.push(current[j]);
                }
                j = j + 1;
            }
            assert(current@.take(j as int) =~= current@);
            let empty = kept.len() == 0;
            proof {
                lemma_lists_insert(incoming@, next, kept);
                assert(lists(incoming@).insert(next, kept@) =~= release(w.incoming, w.queue.drop_first(), id, nexts@.take(k as int)).0.insert(next, kept@));
            }
            incoming.insert(next, kept);
            if empty {
                queue.push_back(next);
            }
            k = k + 1;
        }
        assert(nexts@.take(k as int) =~= nexts@);
        proof {
            let w2 = Walk { queue: queue@, incoming: lists(incoming@), outgoing: lists(outgoing@), out: out@ };
            assert(w2 == walk_step(w, gone@));
            assert(walk(w, gone@, left) == walk(w2, gone@, (left - 1) as nat));
            left = (left - 1) as nat;
        }
    }
}

} // verus!
