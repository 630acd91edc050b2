//! The graph validator: walks over the directed edges and the cycle check
//! that guards the admission of a new edge.
//!
//! The three directed edge types are read as one graph: a `DependsOn`
//! followed by a `ParentChild` is a walk like any other.

use vstd::prelude::*;
use crate::index::{entry_arcs, EdgeIndex};
use crate::text::{contains_str, owned, str_eq, views};
use crate::types::{cycle_forming, edge_views, Edge, EdgeType, EdgeView, SCHEMA_VERSION};

verus! {

/// An identifier as the graph sees it.
pub type Node = Seq<char>;

/// True when the edge at index `k` is a directed edge from `a` to `b`.
pub open spec fn arc_at(g: Seq<EdgeView>, k: int, a: Node, b: Node) -> bool {
    &&& 0 <= k < g.len()
    &&& cycle_forming(g[k].edge_type)
    &&& g[k].source == a
    &&& g[k].target == b
}

/// True when some directed edge leads from `a` to `b`.
pub open spec fn has_arc(g: Seq<EdgeView>, a: Node, b: Node) -> bool {
    exists|k: int| arc_at(g, k, a, b)
}

/// True when a directed edge leads from the node at position `t` of `p` to
/// the next one.
pub open spec fn step(g: Seq<EdgeView>, p: Seq<Node>, t: int) -> bool {
    has_arc(g, p[t], p[t + 1])
}

/// True when `p` is a walk: a sequence of at least one node in which a
/// directed edge leads from each node to the next.
pub open spec fn is_walk(g: Seq<EdgeView>, p: Seq<Node>) -> bool {
    &&& p.len() >= 1
    &&& forall|t: int| 0 <= t < p.len() - 1 ==> #[trigger] step(g, p, t)
}

/// True when `p` is a walk of one edge or more from `a` to `b`.
pub open spec fn walk_from_to(g: Seq<EdgeView>, p: Seq<Node>, a: Node, b: Node) -> bool {
    &&& is_walk(g, p)
    &&& p.len() >= 2
    &&& p[0] == a
    &&& p[p.len() - 1] == b
}

/// True when `b` can be reached from `a` over one directed edge or more.
pub open spec fn reaches(g: Seq<EdgeView>, a: Node, b: Node) -> bool {
    exists|p: Seq<Node>| walk_from_to(g, p, a, b)
}

/// True when no node can reach itself over directed edges.
pub open spec fn acyclic(g: Seq<EdgeView>) -> bool {
    forall|n: Node| !reaches(g, n, n)
}

/// The edge that is asked about, as the cycle check sees it. Only source,
/// target and type matter to the graph.
pub open spec fn proposed(source: Node, target: Node, edge_type: EdgeType) -> EdgeView {
    EdgeView { schema_version: SCHEMA_VERSION, source, target, edge_type, created_at: 0 }
}

/// True when the candidate is a directed edge and, once it is added to `g`,
/// its source can reach itself.
pub open spec fn closes_cycle(g: Seq<EdgeView>, candidate: EdgeView) -> bool {
    cycle_forming(candidate.edge_type) && reaches(
        g.push(candidate),
        candidate.source,
        candidate.source,
    )
}

/// Every directed edge of `g1` is one of `g2`.
pub open spec fn arcs_within(g1: Seq<EdgeView>, g2: Seq<EdgeView>) -> bool {
    forall|a: Node, b: Node| has_arc(g1, a, b) ==> has_arc(g2, a, b)
}

/// One directed edge is a walk.
pub proof fn lemma_arc_reaches(g: Seq<EdgeView>, a: Node, b: Node)
    requires
        has_arc(g, a, b),
    ensures
        reaches(g, a, b),
{
    let p = seq![a, b];
    assert forall|t: int| 0 <= t < p.len() - 1 implies #[trigger] step(g, p, t) by {
        assert(p[t] == a && p[t + 1] == b);
    }
    assert(walk_from_to(g, p, a, b));
}

/// A walk followed by one more directed edge is a walk.
pub proof fn lemma_reaches_then_arc(g: Seq<EdgeView>, a: Node, b: Node, c: Node)
    requires
        reaches(g, a, b),
        has_arc(g, b, c),
    ensures
        reaches(g, a, c),
{
    let p = choose|p: Seq<Node>| walk_from_to(g, p, a, b);
    let q = p.push(c);
    assert forall|t: int| 0 <= t < q.len() - 1 implies #[trigger] step(g, q, t) by {
        if t < p.len() - 1 {
            assert(step(g, p, t));
            assert(q[t] == p[t] && q[t + 1] == p[t + 1]);
        } else {
            assert(q[t] == b && q[t + 1] == c);
        }
    }
    assert(walk_from_to(g, q, a, c));
}

/// A walk stays a walk in a graph that has every directed edge of the first.
pub proof fn lemma_reaches_monotone(g1: Seq<EdgeView>, g2: Seq<EdgeView>, a: Node, b: Node)
    requires
        arcs_within(g1, g2),
        reaches(g1, a, b),
    ensures
        reaches(g2, a, b),
{
    let p = choose|p: Seq<Node>| walk_from_to(g1, p, a, b);
    assert forall|t: int| 0 <= t < p.len() - 1 implies #[trigger] step(g2, p, t) by {
        assert(step(g1, p, t));
    }
    assert(walk_from_to(g2, p, a, b));
}

/// A graph whose directed edges all lie in an acyclic graph is acyclic.
pub proof fn lemma_subgraph_acyclic(g1: Seq<EdgeView>, g2: Seq<EdgeView>)
    requires
        arcs_within(g1, g2),
        acyclic(g2),
    ensures
        acyclic(g1),
{
    assert forall|n: Node| !reaches(g1, n, n) by {
        if reaches(g1, n, n) {
            lemma_reaches_monotone(g1, g2, n, n);
        }
    }
}

/// The directed edges of `g.push(e)` are those of `g` and, where `e` is a
/// directed edge, the one from its source to its target.
pub proof fn lemma_arcs_of_push(g: Seq<EdgeView>, e: EdgeView)
    ensures
        forall|a: Node, b: Node|
            #![trigger has_arc(g.push(e), a, b)]
            has_arc(g.push(e), a, b) <==> (has_arc(g, a, b) || (cycle_forming(e.edge_type)
                && e.source == a && e.target == b)),
{
    let h = g.push(e);
    assert forall|a: Node, b: Node|
        #![trigger has_arc(h, a, b)]
        has_arc(h, a, b) <==> (has_arc(g, a, b) || (cycle_forming(e.edge_type) && e.source == a
            && e.target == b)) by {
        if has_arc(h, a, b) {
            let k = choose|k: int| arc_at(h, k, a, b);
            if k < g.len() {
                assert(h[k] == g[k]);
                assert(arc_at(g, k, a, b));
            } else {
                assert(h[k] == e);
            }
        }
        if has_arc(g, a, b) {
            let k = choose|k: int| arc_at(g, k, a, b);
            assert(h[k] == g[k]);
            assert(arc_at(h, k, a, b));
        }
        if cycle_forming(e.edge_type) && e.source == a && e.target == b {
            assert(h[g.len() as int] == e);
            assert(arc_at(h, g.len() as int, a, b));
        }
    }
}

/// Whether a candidate closes a cycle depends on its source, target and type
/// alone.
pub proof fn lemma_closes_cycle_by_triple(g: Seq<EdgeView>, e1: EdgeView, e2: EdgeView)
    requires
        e1.same_triple(e2),
    ensures
        closes_cycle(g, e1) == closes_cycle(g, e2),
{
    lemma_arcs_of_push(g, e1);
    lemma_arcs_of_push(g, e2);
    let g1 = g.push(e1);
    let g2 = g.push(e2);
    assert(arcs_within(g1, g2));
    assert(arcs_within(g2, g1));
    if reaches(g1, e1.source, e1.source) {
        lemma_reaches_monotone(g1, g2, e1.source, e1.source);
    }
    if reaches(g2, e1.source, e1.source) {
        lemma_reaches_monotone(g2, g1, e1.source, e1.source);
    }
}

/// A closed walk can be started at any of its nodes.
proof fn lemma_rotate(g: Seq<EdgeView>, p: Seq<Node>, n: Node, t: int)
    requires
        walk_from_to(g, p, n, n),
        0 <= t < p.len() - 1,
    ensures
        reaches(g, p[t], p[t]),
{
    let len = p.len() as int;
    let q = p.subrange(t, len) + p.subrange(1, t + 1);
    assert(q.len() == len);
    assert forall|u: int| 0 <= u < q.len() - 1 implies #[trigger] step(g, q, u) by {
        if u < len - t - 1 {
            assert(q[u] == p[t + u] && q[u + 1] == p[t + u + 1]);
            assert(step(g, p, t + u));
        } else if u == len - t - 1 {
            assert(q[u] == p[len - 1] && q[u + 1] == p[1]);
            assert(step(g, p, 0));
        } else {
            let w = 1 + u - (len - t);
            assert(q[u] == p[w] && q[u + 1] == p[w + 1]);
            assert(step(g, p, w));
        }
    }
    assert(q[0] == p[t]);
    assert(q[q.len() - 1] == p[t]);
    assert(walk_from_to(g, q, p[t], p[t]));
}

/// The admission rule keeps the graph acyclic: an edge that the cycle check
/// lets through can be added to an acyclic graph without closing a cycle.
pub proof fn lemma_admitted_edge_keeps_acyclic(g: Seq<EdgeView>, e: EdgeView)
    requires
        acyclic(g),
        !closes_cycle(g, e),
    ensures
        acyclic(g.push(e)),
{
    let h = g.push(e);
    lemma_arcs_of_push(g, e);
    assert forall|n: Node| !reaches(h, n, n) by {
        if reaches(h, n, n) {
            if !cycle_forming(e.edge_type) {
                assert(arcs_within(h, g));
                lemma_reaches_monotone(h, g, n, n);
            } else {
                let p = choose|p: Seq<Node>| walk_from_to(h, p, n, n);
                if forall|t: int| 0 <= t < p.len() - 1 ==> #[trigger] step(g, p, t) {
                    assert(walk_from_to(g, p, n, n));
                    assert(reaches(g, n, n));
                } else {
                    let t = choose|t: int| 0 <= t < p.len() - 1 && !#[trigger] step(g, p, t);
                    assert(step(h, p, t));
                    assert(has_arc(h, p[t], p[t + 1]));
                    assert(p[t] == e.source);
                    lemma_rotate(h, p, n, t);
                }
            }
        }
    }
}

/// Taking an edge away keeps the graph acyclic.
pub proof fn lemma_removal_keeps_acyclic(g: Seq<EdgeView>, k: int)
    requires
        acyclic(g),
        0 <= k < g.len(),
    ensures
        acyclic(g.remove(k)),
{
    let h = g.remove(k);
    assert forall|a: Node, b: Node| has_arc(h, a, b) implies has_arc(g, a, b) by {
        let j = choose|j: int| arc_at(h, j, a, b);
        if j < k {
            assert(h[j] == g[j]);
            assert(arc_at(g, j, a, b));
        } else {
            assert(h[j] == g[j + 1]);
            assert(arc_at(g, j + 1, a, b));
        }
    }
    lemma_subgraph_acyclic(h, g);
}

/// A graph without edges is acyclic.
pub proof fn lemma_empty_acyclic()
    ensures
        acyclic(Seq::<EdgeView>::empty()),
{
    let g = Seq::<EdgeView>::empty();
    assert forall|n: Node| !reaches(g, n, n) by {
        if reaches(g, n, n) {
            let p = choose|p: Seq<Node>| walk_from_to(g, p, n, n);
            assert(step(g, p, 0));
            let a = p[0];
            let b = p[1];
            assert(has_arc(g, a, b));
            let k = choose|k: int| arc_at(g, k, a, b);
        }
    }
}

/// Every directed edge among the first `upto` of `g` that leaves `node`
/// leads to a node of `s` other than `source`.
spec fn expanded(g: Seq<EdgeView>, s: Seq<Node>, node: Node, upto: int, source: Node) -> bool {
    forall|k: int|
        #![trigger g[k]]
        0 <= k < upto && k < g.len() && cycle_forming(g[k].edge_type) && g[k].source == node
            ==> g[k].target != source && s.contains(g[k].target)
}

/// Each of the first `i` nodes of `s` has all its directed edges followed.
spec fn closed(g: Seq<EdgeView>, s: Seq<Node>, i: int, source: Node) -> bool {
    forall|j: int| 0 <= j < i && j < s.len() ==> expanded(g, s, #[trigger] s[j], g.len() as int, source)
}

/// Each node of `s` but the first is the target of an edge of `g`.
spec fn witnessed(g: Seq<EdgeView>, s: Seq<Node>) -> bool {
    forall|j: int|
        1 <= j < s.len() ==> exists|k: int| 0 <= k < g.len() && g[k].target == #[trigger] s[j]
}

/// Each node of `s` but the first can be reached from `source`.
spec fn all_reached(g: Seq<EdgeView>, s: Seq<Node>, source: Node) -> bool {
    forall|j: int| 1 <= j < s.len() ==> reaches(g, source, #[trigger] s[j])
}

/// A walk from `source` through a set of nodes that is closed under the
/// directed edges never leaves the set and never comes back to `source`.
proof fn lemma_walk_stays(g: Seq<EdgeView>, s: Seq<Node>, source: Node, p: Seq<Node>, t: int)
    requires
        is_walk(g, p),
        p[0] == source,
        s.len() >= 1,
        s[0] == source,
        closed(g, s, s.len() as int, source),
        0 <= t < p.len(),
    ensures
        s.contains(p[t]),
        t >= 1 ==> p[t] != source,
    decreases t,
{
    if t == 0 {
        assert(s[0] == p[0]);
    } else {
        lemma_walk_stays(g, s, source, p, t - 1);
        let j = choose|j: int| 0 <= j < s.len() && s[j] == p[t - 1];
        assert(step(g, p, t - 1));
        let a = p[t - 1];
        let b = p[t];
        assert(has_arc(g, a, b));
        let k = choose|k: int| arc_at(g, k, a, b);
        assert(expanded(g, s, s[j], g.len() as int, source));
        assert(g[k].target == p[t]);
    }
}

/// Where the nodes found from `source` are closed under the directed edges
/// and none of these edges leads back to `source`, `source` is on no cycle.
proof fn lemma_closed_means_no_cycle(g: Seq<EdgeView>, s: Seq<Node>, source: Node)
    requires
        s.len() >= 1,
        s[0] == source,
        closed(g, s, s.len() as int, source),
    ensures
        !reaches(g, source, source),
{
    if reaches(g, source, source) {
        let p = choose|p: Seq<Node>| walk_from_to(g, p, source, source);
        lemma_walk_stays(g, s, source, p, p.len() - 1);
    }
}

/// Distinct nodes that are all, but the first, targets of edges of `g` are
/// at most one more than the edges.
proof fn lemma_seen_bounded(g: Seq<EdgeView>, s: Seq<Node>)
    requires
        s.no_duplicates(),
        witnessed(g, s),
    ensures
        s.len() <= g.len() + 1,
{
    if s.len() >= 2 {
        let via = Seq::new(
            (s.len() - 1) as nat,
            |j: int| choose|k: int| 0 <= k < g.len() && g[k].target == s[j + 1],
        );
        assert forall|j: int| 0 <= j < via.len() implies 0 <= #[trigger] via[j] < g.len()
            && g[via[j]].target == s[j + 1] by {
            let x = s[j + 1];
            assert(exists|k: int| 0 <= k < g.len() && g[k].target == x);
        }
        assert forall|a: int, b: int|
            0 <= a < via.len() && 0 <= b < via.len() && a != b implies via[a] != via[b] by {
            assert(g[via[a]].target == s[a + 1]);
            assert(g[via[b]].target == s[b + 1]);
            assert(s[a + 1] != s[b + 1]);
        }
        assert(via.no_duplicates());
        via.unique_seq_to_set();
        let range = vstd::set_lib::set_int_range(0, g.len() as int);
        vstd::set_lib::lemma_int_range(0, g.len() as int);
        assert forall|x: int| via.to_set().contains(x) implies range.contains(x) by {
            let j = choose|j: int| 0 <= j < via.len() && via[j] == x;
            assert(0 <= via[j] < g.len());
        }
        assert(via.to_set().subset_of(range));
        vstd::set_lib::lemma_len_subset(via.to_set(), range);
    }
}

/// Follows one directed edge out of the node being expanded: reports a way
/// back to `source`, or notes the edge's target as found.
fn follow(seen: &mut Vec<String>, to: &str, source: &str) -> (back: bool)
    ensures
        back == (to@ == source@),
        back ==> final(seen)@ == old(seen)@,
        !back ==> views(final(seen)@).contains(to@),
        !back && views(old(seen)@).contains(to@) ==> final(seen)@ == old(seen)@,
        !back && !views(old(seen)@).contains(to@) ==> final(seen)@.len() == old(seen)@.len() + 1
            && final(seen)@.drop_last() == old(seen)@ && final(seen)@.last()@ == to@,
{
    if str_eq(to, source) {
        return true;
    }
    if !contains_str(seen, to) {
        seen.push(owned(to));
        proof {
            let s = views(seen@);
            assert(s[s.len() - 1] == to@);
            assert(seen@.drop_last() =~= old(seen)@);
        }
    }
    false
}

/// What the search knows of the nodes it has found so far: they are
/// distinct, start with `source`, can each be reached from it, and are each
/// the target of some edge.
spec fn search_state(g: Seq<EdgeView>, s: Seq<Node>, source: Node) -> bool {
    &&& s.len() >= 1
    &&& s[0] == source
    &&& s.no_duplicates()
    &&& witnessed(g, s)
    &&& all_reached(g, s, source)
}

/// Noting the target of a directed edge that leaves a found node keeps the
/// search state, and what was expanded stays expanded.
proof fn lemma_note_target(
    g: Seq<EdgeView>,
    s: Seq<Node>,
    s2: Seq<Node>,
    source: Node,
    i: int,
    k: int,
)
    requires
        search_state(g, s, source),
        0 <= i < s.len(),
        arc_at(g, k, s[i], g[k].target),
        g[k].target != source,
        s2 == s || (!s.contains(g[k].target) && s2 == s.push(g[k].target)),
    ensures
        search_state(g, s2, source),
        forall|node: Node, upto: int|
            expanded(g, s, node, upto, source) ==> expanded(g, s2, node, upto, source),
        closed(g, s, i, source) ==> closed(g, s2, i, source),
{
    let to = g[k].target;
    if s2 != s {
        assert(has_arc(g, s[i], to));
        if i == 0 {
            lemma_arc_reaches(g, source, to);
        } else {
            lemma_reaches_then_arc(g, source, s[i], to);
        }
        assert forall|j: int| 1 <= j < s2.len() implies reaches(g, source, #[trigger] s2[j]) by {
            if j < s.len() {
                assert(s2[j] == s[j]);
            }
        }
        assert forall|j: int| 1 <= j < s2.len() implies exists|k2: int|
            0 <= k2 < g.len() && g[k2].target == #[trigger] s2[j] by {
            if j < s.len() {
                assert(s2[j] == s[j]);
            } else {
                assert(g[k].target == s2[j]);
            }
        }
        assert forall|a: int, b: int| 0 <= a < s2.len() && 0 <= b < s2.len() && a != b implies s2[a]
            != s2[b] by {
            if a < s.len() && b < s.len() {
                assert(s2[a] == s[a] && s2[b] == s[b]);
            } else if a < s.len() {
                assert(s.contains(s[a]));
            } else {
                assert(s.contains(s[b]));
            }
        }
    }
    assert forall|node: Node, upto: int| expanded(g, s, node, upto, source) implies expanded(
        g,
        s2,
        node,
        upto,
        source,
    ) by {
        assert forall|k2: int|
            #![trigger g[k2]]
            0 <= k2 < upto && k2 < g.len() && cycle_forming(g[k2].edge_type) && g[k2].source
                == node implies g[k2].target != source && s2.contains(g[k2].target) by {
            let x = g[k2].target;
            assert(s.contains(x));
            let j = choose|j: int| 0 <= j < s.len() && s[j] == x;
            assert(s2[j] == x);
        }
    }
    if closed(g, s, i, source) {
        assert forall|j: int| 0 <= j < i && j < s2.len() implies expanded(
            g,
            s2,
            #[trigger] s2[j],
            g.len() as int,
            source,
        ) by {
            assert(s2[j] == s[j]);
            assert(expanded(g, s, s[j], g.len() as int, source));
        }
    }
}

/// The cycle check on a list of edges: true when the proposed edge is of a
/// directed type and, with it added, `source` can reach itself. The edges of
/// the other two types are never looked at, and a proposed edge of one of
/// them is never refused.
///
/// The search goes through the nodes that can be reached from `source`,
/// each once, and ends at the first edge that leads back to `source`. A
/// cycle that is there already and does not pass through `source` does not
/// stop it.
pub fn closes_cycle_in(
    edges: &Vec<Edge>,
    source: &str,
    target: &str,
    edge_type: EdgeType,
) -> (r: bool)
    ensures
        r == closes_cycle(edge_views(edges@), proposed(source@, target@, edge_type)),
        !cycle_forming(edge_type) ==> !r,
{
    if !edge_type.is_cycle_forming() {
        return false;
    }
    let ghost base = edge_views(edges@);
    let ghost cand = proposed(source@, target@, edge_type);
    let ghost g = base.push(cand);
    let m = edges.len();
    let mut seen: Vec<String> = Vec::new();
    seen.push(owned(source));
    proof {
        assert(views(seen@)[0] == source@);
    }
    let mut i: usize = 0;
    while i < seen.len()
        invariant
            m == edges.len(),
            base == edge_views(edges@),
            cand == proposed(source@, target@, edge_type),
            cycle_forming(edge_type),
            g == base.push(cand),
            search_state(g, views(seen@), source@),
            closed(g, views(seen@), i as int, source@),
            i <= seen.len(),
            seen.len() <= m + 2,
        decreases m + 2 - i,
    {
        let node = seen[i].clone();
        let ghost s_in = views(seen@);
        assert(s_in[i as int] == node@);
        let mut k: usize = 0;
        while k < m
            invariant
                m == edges.len(),
                base == edge_views(edges@),
                cand == proposed(source@, target@, edge_type),
                cycle_forming(edge_type),
                g == base.push(cand),
                g.len() == m + 1,
                search_state(g, views(seen@), source@),
                closed(g, views(seen@), i as int, source@),
                expanded(g, views(seen@), node@, k as int, source@),
                i < seen.len(),
                views(seen@)[i as int] == node@,
                k <= m,
            decreases m - k,
        {
            let e = &edges[k];
            assert(g[k as int] == base[k as int] && base[k as int] == e@);
            if e.edge_type.is_cycle_forming() && str_eq(e.source.as_str(), node.as_str()) {
                let ghost s0 = views(seen@);
                assert(arc_at(g, k as int, node@, e.target@));
                let back = follow(&mut seen, e.target.as_str(), source);
                if back {
                    proof {
                        assert(has_arc(g, node@, source@));
                        if i == 0 {
                            lemma_arc_reaches(g, source@, source@);
                        } else {
                            assert(reaches(g, source@, s0[i as int]));
                            lemma_reaches_then_arc(g, source@, node@, source@);
                        }
                    }
                    return true;
                }
                proof {
                    let s2 = views(seen@);
                    if s2 != s0 {
                        assert(s2 =~= s0.push(e.target@));
                    }
                    lemma_note_target(g, s0, s2, source@, i as int, k as int);
                    assert(s2[i as int] == node@);
                }
            }
            proof {
                let s2 = views(seen@);
                assert forall|k2: int|
                    #![trigger g[k2]]
                    0 <= k2 < k + 1 && k2 < g.len() && cycle_forming(g[k2].edge_type)
                        && g[k2].source == node@ implies g[k2].target != source@ && s2.contains(
                    g[k2].target,
                ) by {
                    if k2 < k {
                        assert(expanded(g, s2, node@, k as int, source@));
                    }
                }
            }
            k += 1;
        }
        assert(g[m as int] == cand);
        if str_eq(node.as_str(), source) {
            let ghost s0 = views(seen@);
            assert(arc_at(g, m as int, node@, target@));
            let back = follow(&mut seen, target, source);
            if back {
                proof {
                    assert(has_arc(g, source@, source@));
                    lemma_arc_reaches(g, source@, source@);
                }
                return true;
            }
            proof {
                let s2 = views(seen@);
                if s2 != s0 {
                    assert(s2 =~= s0.push(target@));
                }
                lemma_note_target(g, s0, s2, source@, i as int, m as int);
                assert(s2[i as int] == node@);
            }
        }
        proof {
            let s2 = views(seen@);
            assert forall|k2: int|
                #![trigger g[k2]]
                0 <= k2 < g.len() && k2 < g.len() && cycle_forming(g[k2].edge_type) && g[k2].source
                    == node@ implies g[k2].target != source@ && s2.contains(g[k2].target) by {
                if k2 < m {
                    assert(expanded(g, s2, node@, m as int, source@));
                }
            }
            assert(expanded(g, s2, node@, g.len() as int, source@));
            assert forall|j: int| 0 <= j < i + 1 && j < s2.len() implies expanded(
                g,
                s2,
                #[trigger] s2[j],
                g.len() as int,
                source@,
            ) by {
                if j < i {
                    assert(closed(g, s2, i as int, source@));
                }
            }
            lemma_seen_bounded(g, s2);
        }
        i += 1;
    }
    proof {
        lemma_closed_means_no_cycle(g, views(seen@), source@);
    }
    false
}

/// The cycle check on an index: true when the proposed edge is of a directed
/// type and, with it added to the edges of the index, `source` can reach
/// itself over directed edges.
pub fn would_create_cycle(
    edges: &EdgeIndex,
    source: &str,
    target: &str,
    edge_type: EdgeType,
) -> (r: bool)
    ensures
        r == closes_cycle(entry_arcs(edges.entries@), proposed(source@, target@, edge_type)),
        !cycle_forming(edge_type) ==> !r,
{
    if !edge_type.is_cycle_forming() {
        return false;
    }
    let list = edges.to_edges();
    closes_cycle_in(&list, source, target, edge_type)
}

} // verus!
