//! What holds of every merge: which record of an identifier is kept, that
//! merging is idempotent and commutes away from ties, and that it keeps the
//! logical clocks rising and the directed edges acyclic.

use vstd::prelude::*;
use crate::dag::{
    acyclic,
    arcs_within,
    lemma_admitted_edge_keeps_acyclic,
    lemma_arcs_of_push,
    lemma_reaches_monotone,
    Node,
};
use crate::merge::{
    dominates,
    grown,
    lemma_grown_extends,
    merged,
    refused,
    selected_edges,
    selected_issues,
    wins,
    with_edges,
    with_issues,
};
use crate::snapshot::{
    has_issue,
    has_triple,
    ids_unique,
    issue_pos,
    lemma_edge_pos,
    lemma_issue_pos,
    lookup,
    triples_unique,
    with_issue,
    SnapshotView,
};
use crate::types::{EdgeView, IssueView};

verus! {

/// The position that `issue_pos` gives is the only one with its properties.
pub proof fn lemma_issue_pos_is(s: Seq<IssueView>, id: Node, k: int)
    requires
        0 <= k <= s.len(),
        forall|j: int| 0 <= j < k ==> (#[trigger] s[j]).id != id,
        k < s.len() ==> s[k].id == id,
    ensures
        issue_pos(s, id) == k,
{
    lemma_issue_pos(s, id);
    let p = issue_pos(s, id);
    if p < k {
        assert(s[p].id == id);
    } else if k < p {
        assert(s[k].id == id);
    }
}

/// After an issue is written, its identifier finds it, and every other
/// identifier finds what it found before.
pub proof fn lemma_lookup_with_issue(s: Seq<IssueView>, x: IssueView, id: Node)
    ensures
        lookup(with_issue(s, x), id) == if id == x.id {
            Some(x)
        } else {
            lookup(s, id)
        },
{
    lemma_issue_pos(s, x.id);
    lemma_issue_pos(s, id);
    let k = issue_pos(s, x.id);
    let t = with_issue(s, x);
    let p = issue_pos(s, id);
    if id == x.id {
        assert forall|j: int| 0 <= j < k implies (#[trigger] t[j]).id != id by {
            assert(t[j] == s[j]);
        }
        lemma_issue_pos_is(t, id, k);
    } else {
        if p < s.len() {
            assert forall|j: int| 0 <= j < p implies (#[trigger] t[j]).id != id by {
                if k < s.len() && j == k {
                } else {
                    assert(t[j] == s[j]);
                }
            }
            assert(t[p] == s[p]);
            lemma_issue_pos_is(t, id, p);
        } else {
            assert forall|j: int| 0 <= j < t.len() implies (#[trigger] t[j]).id != id by {
                if j < s.len() && !(k < s.len() && j == k) {
                    assert(t[j] == s[j]);
                }
            }
            lemma_issue_pos_is(t, id, t.len() as int);
        }
    }
}

/// The last record of `batch` with identifier `id`, if there is one.
pub open spec fn last_with_id(batch: Seq<IssueView>, id: Node) -> Option<IssueView>
    decreases batch.len(),
{
    if batch.len() == 0 {
        None
    } else if batch.last().id == id {
        Some(batch.last())
    } else {
        last_with_id(batch.drop_last(), id)
    }
}

/// After a batch is written, an identifier finds the last record of the
/// batch that carries it, or else what it found before.
pub proof fn lemma_lookup_with_issues(s: Seq<IssueView>, batch: Seq<IssueView>, id: Node)
    ensures
        lookup(with_issues(s, batch), id) == match last_with_id(batch, id) {
            Some(x) => Some(x),
            None => lookup(s, id),
        },
    decreases batch.len(),
{
    if batch.len() > 0 {
        lemma_lookup_with_issues(s, batch.drop_last(), id);
        lemma_lookup_with_issue(with_issues(s, batch.drop_last()), batch.last(), id);
    }
}

/// Among records with distinct identifiers, the last chosen record of an
/// identifier is the record of that identifier, where it is chosen.
pub proof fn lemma_last_of_filter(inc: Seq<IssueView>, pred: spec_fn(IssueView) -> bool, id: Node)
    requires
        ids_unique(inc),
    ensures
        last_with_id(inc.filter(pred), id) == if has_issue(inc, id) && pred(
            inc[issue_pos(inc, id)],
        ) {
            Some(inc[issue_pos(inc, id)])
        } else {
            None
        },
    decreases inc.len(),
{
    reveal(Seq::filter);
    lemma_issue_pos(inc, id);
    if inc.len() > 0 {
        let rest = inc.drop_last();
        let x = inc.last();
        assert forall|a: int, b: int|
            0 <= a < rest.len() && 0 <= b < rest.len() && a != b implies rest[a].id
            != rest[b].id by {
            assert(rest[a] == inc[a] && rest[b] == inc[b]);
        }
        lemma_last_of_filter(rest, pred, id);
        lemma_issue_pos(rest, id);
        let f = rest.filter(pred);
        if x.id == id {
            assert forall|j: int| 0 <= j < rest.len() implies (#[trigger] rest[j]).id != id by {
                assert(rest[j] == inc[j]);
                assert(inc[inc.len() - 1].id == id);
            }
            assert forall|j: int| 0 <= j < inc.len() - 1 implies (#[trigger] inc[j]).id != id by {
                assert(inc[inc.len() - 1].id == id);
            }
            lemma_issue_pos_is(inc, id, inc.len() - 1);
            assert(!has_issue(rest, id));
            if pred(x) {
                assert(f.push(x).last() == x);
            }
        } else {
            if pred(x) {
                assert(f.push(x).drop_last() =~= f);
                assert(f.push(x).last() == x);
            }
            let pr = issue_pos(rest, id);
            if pr < rest.len() {
                assert(rest[pr] == inc[pr]);
                assert forall|j: int| 0 <= j < pr implies (#[trigger] inc[j]).id != id by {
                    assert(rest[j] == inc[j]);
                }
                lemma_issue_pos_is(inc, id, pr);
                assert(has_issue(inc, id));
            } else {
                assert forall|j: int| 0 <= j < inc.len() implies (#[trigger] inc[j]).id != id by {
                    if j < rest.len() {
                        assert(rest[j] == inc[j]);
                    }
                }
                lemma_issue_pos_is(inc, id, inc.len() as int);
            }
        }
    }
}

/// Which record of an identifier a merge keeps: the incoming one where the
/// local side has none or a dominated one, and the local one otherwise.
/// Issues that only the local side has stay as they are.
pub proof fn lemma_merged_issue(local: Seq<IssueView>, incoming: Seq<IssueView>, id: Node)
    requires
        ids_unique(incoming),
    ensures
        lookup(with_issues(local, selected_issues(local, incoming)), id) == match lookup(
            incoming,
            id,
        ) {
            Some(r) => match lookup(local, id) {
                Some(l) => if dominates(r, l) {
                    Some(r)
                } else {
                    Some(l)
                },
                None => Some(r),
            },
            None => lookup(local, id),
        },
{
    let pred = |r: IssueView| wins(local, r);
    lemma_lookup_with_issues(local, selected_issues(local, incoming), id);
    lemma_last_of_filter(incoming, pred, id);
    lemma_issue_pos(incoming, id);
    lemma_issue_pos(local, id);
}

/// Gathering edges keeps the directed graph acyclic: each edge that is added
/// has passed the cycle check against what was gathered before it.
pub proof fn lemma_grown_acyclic(cur: Seq<EdgeView>, inc: Seq<EdgeView>)
    requires
        acyclic(cur),
    ensures
        acyclic(grown(cur, inc)),
    decreases inc.len(),
{
    if inc.len() > 0 {
        lemma_grown_acyclic(cur, inc.drop_last());
        let prev = grown(cur, inc.drop_last());
        if !refused(prev, inc.last()) {
            lemma_admitted_edge_keeps_acyclic(prev, inc.last());
        }
    }
}

/// Gathering edges keeps the triples distinct.
pub proof fn lemma_grown_unique(cur: Seq<EdgeView>, inc: Seq<EdgeView>)
    requires
        triples_unique(cur),
    ensures
        triples_unique(grown(cur, inc)),
    decreases inc.len(),
{
    if inc.len() > 0 {
        lemma_grown_unique(cur, inc.drop_last());
        let prev = grown(cur, inc.drop_last());
        let e = inc.last();
        if !refused(prev, e) {
            let g = prev.push(e);
            assert forall|a: int, b: int|
                0 <= a < g.len() && 0 <= b < g.len() && a != b implies !g[a].same_triple(
                g[b],
            ) by {
                if a < prev.len() && b < prev.len() {
                    assert(g[a] == prev[a] && g[b] == prev[b]);
                } else if a < prev.len() {
                    assert(g[a] == prev[a]);
                    assert(!prev[a].is_triple(e.source, e.target, e.edge_type));
                } else {
                    assert(g[b] == prev[b]);
                    assert(!prev[b].is_triple(e.source, e.target, e.edge_type));
                }
            }
        }
    }
}

/// An edge that is refused stays refused when another edge is added.
pub proof fn lemma_refused_stays(cur: Seq<EdgeView>, x: EdgeView, e: EdgeView)
    requires
        refused(cur, e),
    ensures
        refused(cur.push(x), e),
{
    let bigger = cur.push(x);
    if has_triple(cur, e.source, e.target, e.edge_type) {
        let k = choose|k: int|
            0 <= k < cur.len() && (#[trigger] cur[k]).is_triple(e.source, e.target, e.edge_type);
        assert(bigger[k] == cur[k]);
    } else {
        lemma_arcs_of_push(cur, e);
        lemma_arcs_of_push(cur, x);
        lemma_arcs_of_push(bigger, e);
        assert(arcs_within(cur.push(e), bigger.push(e)));
        lemma_reaches_monotone(cur.push(e), bigger.push(e), e.source, e.source);
    }
}

/// Every incoming edge is refused by the edges that the gathering ends
/// with: it is among them, or it would close a cycle in them.
pub proof fn lemma_grown_settles(cur: Seq<EdgeView>, inc: Seq<EdgeView>, i: int)
    requires
        0 <= i < inc.len(),
    ensures
        refused(grown(cur, inc), inc[i]),
    decreases inc.len(),
{
    let prev = grown(cur, inc.drop_last());
    let e = inc.last();
    let g = grown(cur, inc);
    if i == inc.len() - 1 {
        if !refused(prev, e) {
            assert(g[prev.len() as int].is_triple(e.source, e.target, e.edge_type));
        }
    } else {
        lemma_grown_settles(cur, inc.drop_last(), i);
        assert(inc.drop_last()[i] == inc[i]);
        if !refused(prev, e) {
            lemma_refused_stays(prev, e, inc[i]);
        }
    }
}

/// Where every incoming edge is refused from the start, nothing is added.
pub proof fn lemma_grown_nothing(cur: Seq<EdgeView>, inc: Seq<EdgeView>)
    requires
        forall|i: int| 0 <= i < inc.len() ==> refused(cur, #[trigger] inc[i]),
    ensures
        grown(cur, inc) == cur,
    decreases inc.len(),
{
    if inc.len() > 0 {
        assert forall|i: int| 0 <= i < inc.drop_last().len() implies refused(
            cur,
            #[trigger] inc.drop_last()[i],
        ) by {
            assert(inc.drop_last()[i] == inc[i]);
        }
        lemma_grown_nothing(cur, inc.drop_last());
        assert(refused(cur, inc[inc.len() - 1]));
    }
}

/// Writing the added edges one by one gives the gathered edges: an added
/// edge is never present before, so each write appends.
pub proof fn lemma_with_selected_edges(local: Seq<EdgeView>, inc: Seq<EdgeView>)
    ensures
        with_edges(local, selected_edges(local, inc)) == grown(local, inc),
    decreases inc.len(),
{
    lemma_grown_extends(local, inc);
    let g = grown(local, inc);
    let sel = selected_edges(local, inc);
    if inc.len() == 0 {
        assert(sel =~= Seq::<EdgeView>::empty());
    } else {
        let rest = inc.drop_last();
        let prev = grown(local, rest);
        let e = inc.last();
        lemma_with_selected_edges(local, rest);
        lemma_grown_extends(local, rest);
        if refused(prev, e) {
            assert(sel =~= selected_edges(local, rest));
        } else {
            assert(sel.drop_last() =~= selected_edges(local, rest));
            assert(sel.last() == e);
            lemma_edge_pos(prev, e.source, e.target, e.edge_type);
        }
    }
}

/// Merging keeps a snapshot well formed.
pub proof fn lemma_merge_keeps_wf(local: SnapshotView, issues: Seq<IssueView>, edges: Seq<EdgeView>)
    requires
        local.wf(),
    ensures
        merged(local, issues, edges).wf(),
{
    lemma_with_issues_unique(local.issues, selected_issues(local.issues, issues));
    lemma_with_selected_edges(local.edges, edges);
    lemma_grown_unique(local.edges, edges);
}

/// Writing a batch of issues keeps the identifiers distinct.
pub proof fn lemma_with_issues_unique(s: Seq<IssueView>, batch: Seq<IssueView>)
    requires
        ids_unique(s),
    ensures
        ids_unique(with_issues(s, batch)),
    decreases batch.len(),
{
    if batch.len() > 0 {
        lemma_with_issues_unique(s, batch.drop_last());
        crate::snapshot::lemma_with_issue_unique(with_issues(s, batch.drop_last()), batch.last());
    }
}

/// In a snapshot, the record that an identifier finds is the record at any
/// position that carries the identifier.
pub proof fn lemma_lookup_unique(s: Seq<IssueView>, k: int)
    requires
        ids_unique(s),
        0 <= k < s.len(),
    ensures
        lookup(s, s[k].id) == Some(s[k]),
{
    lemma_issue_pos(s, s[k].id);
    let p = issue_pos(s, s[k].id);
    if p != k {
        assert(s[p].id == s[k].id);
    }
}

/// Merging keeps the directed edges acyclic: a merge never writes an edge
/// that closes a cycle.
pub proof fn lemma_merge_keeps_acyclic(
    local: SnapshotView,
    issues: Seq<IssueView>,
    edges: Seq<EdgeView>,
)
    requires
        acyclic(local.edges),
    ensures
        acyclic(merged(local, issues, edges).edges),
{
    lemma_with_selected_edges(local.edges, edges);
    lemma_grown_acyclic(local.edges, edges);
}

/// The logical clock of an identifier never falls in a merge: whatever the
/// incoming records are, an issue that the local side has is still there,
/// with a `lamport` that is no smaller.
pub proof fn lemma_merge_lamport_rises(
    local: SnapshotView,
    issues: Seq<IssueView>,
    edges: Seq<EdgeView>,
    id: Node,
)
    requires
        local.issue(id) is Some,
    ensures
        merged(local, issues, edges).issue(id) is Some,
        merged(local, issues, edges).issue(id)->Some_0.lamport >= local.issue(id)->Some_0.lamport,
{
    let sel = selected_issues(local.issues, issues);
    lemma_lookup_with_issues(local.issues, sel, id);
    lemma_last_chosen_wins(local.issues, issues, id);
}

/// A record that the selection ends with for an identifier has beaten the
/// local record of that identifier, where there is one.
pub proof fn lemma_last_chosen_wins(local: Seq<IssueView>, inc: Seq<IssueView>, id: Node)
    ensures
        match last_with_id(selected_issues(local, inc), id) {
            Some(x) => x.id == id && wins(local, x),
            None => true,
        },
    decreases inc.len(),
{
    reveal(Seq::filter);
    let pred = |r: IssueView| wins(local, r);
    if inc.len() > 0 {
        lemma_last_chosen_wins(local, inc.drop_last(), id);
        let f = inc.drop_last().filter(pred);
        let x = inc.last();
        if pred(x) {
            assert(f.push(x).drop_last() =~= f);
            assert(f.push(x).last() == x);
        }
    }
}

/// Of two records of one identifier, the one with the strictly greater
/// `lamport` is the one that a merge retains.
pub proof fn lemma_greater_lamport_retained(
    local: SnapshotView,
    remote: SnapshotView,
    id: Node,
)
    requires
        remote.wf(),
        local.issue(id) is Some,
        remote.issue(id) is Some,
    ensures
        remote.issue(id)->Some_0.lamport > local.issue(id)->Some_0.lamport ==> merged(
            local,
            remote.issues,
            remote.edges,
        ).issue(id) == remote.issue(id),
        local.issue(id)->Some_0.lamport > remote.issue(id)->Some_0.lamport ==> merged(
            local,
            remote.issues,
            remote.edges,
        ).issue(id) == local.issue(id),
{
    lemma_merged_issue(local.issues, remote.issues, id);
}

/// Merging commutes away from ties: for an identifier whose two records
/// differ in `lamport` or in `updated_at`, and for one that only one side
/// has, both orders of merging keep the same record.
pub proof fn lemma_merge_commutes(a: SnapshotView, b: SnapshotView, id: Node)
    requires
        a.wf(),
        b.wf(),
        a.issue(id) is Some && b.issue(id) is Some ==> a.issue(id)->Some_0.lamport != b.issue(
            id,
        )->Some_0.lamport || a.issue(id)->Some_0.updated_at != b.issue(id)->Some_0.updated_at,
    ensures
        merged(a, b.issues, b.edges).issue(id) == merged(b, a.issues, a.edges).issue(id),
{
    lemma_merged_issue(a.issues, b.issues, id);
    lemma_merged_issue(b.issues, a.issues, id);
}

/// Merging a snapshot into itself selects nothing: no record beats itself,
/// and every edge is present.
pub proof fn lemma_self_selects_nothing(a: SnapshotView)
    requires
        a.wf(),
    ensures
        selected_issues(a.issues, a.issues).len() == 0,
        selected_edges(a.edges, a.edges).len() == 0,
{
    let pred = |r: IssueView| wins(a.issues, r);
    assert forall|i: int| 0 <= i < a.issues.len() implies !pred(#[trigger] a.issues[i]) by {
        lemma_lookup_unique(a.issues, i);
    }
    a.issues.lemma_all_neg_filter_empty(pred);
    assert forall|i: int| 0 <= i < a.edges.len() implies refused(a.edges, #[trigger] a.edges[i]) by {
        assert(a.edges[i].is_triple(a.edges[i].source, a.edges[i].target, a.edges[i].edge_type));
    }
    lemma_grown_nothing(a.edges, a.edges);
}

/// Merging a snapshot into itself changes nothing.
pub proof fn lemma_merge_self(a: SnapshotView)
    requires
        a.wf(),
    ensures
        merged(a, a.issues, a.edges) == a,
{
    let pred = |r: IssueView| wins(a.issues, r);
    assert forall|i: int| 0 <= i < a.issues.len() implies !pred(#[trigger] a.issues[i]) by {
        lemma_lookup_unique(a.issues, i);
    }
    a.issues.lemma_all_neg_filter_empty(pred);
    assert(selected_issues(a.issues, a.issues) =~= Seq::<IssueView>::empty());
    assert forall|i: int| 0 <= i < a.edges.len() implies refused(a.edges, #[trigger] a.edges[i]) by {
        assert(a.edges[i].is_triple(a.edges[i].source, a.edges[i].target, a.edges[i].edge_type));
    }
    lemma_grown_nothing(a.edges, a.edges);
    assert(selected_edges(a.edges, a.edges) =~= Seq::<EdgeView>::empty());
}

/// Merging the same snapshot in a second time changes nothing.
pub proof fn lemma_merge_absorbs(a: SnapshotView, b: SnapshotView)
    requires
        a.wf(),
        b.wf(),
    ensures
        merged(merged(a, b.issues, b.edges), b.issues, b.edges) == merged(
            a,
            b.issues,
            b.edges,
        ),
{
    let m = merged(a, b.issues, b.edges);
    let pred = |r: IssueView| wins(m.issues, r);
    assert forall|i: int| 0 <= i < b.issues.len() implies !pred(#[trigger] b.issues[i]) by {
        let r = b.issues[i];
        lemma_lookup_unique(b.issues, i);
        lemma_merged_issue(a.issues, b.issues, r.id);
        lemma_issue_pos(m.issues, r.id);
    }
    b.issues.lemma_all_neg_filter_empty(pred);
    assert(selected_issues(m.issues, b.issues) =~= Seq::<IssueView>::empty());
    lemma_with_selected_edges(a.edges, b.edges);
    assert forall|i: int| 0 <= i < b.edges.len() implies refused(m.edges, #[trigger] b.edges[i]) by {
        lemma_grown_settles(a.edges, b.edges, i);
    }
    lemma_grown_nothing(m.edges, b.edges);
    assert(selected_edges(m.edges, b.edges) =~= Seq::<EdgeView>::empty());
}

/// True when every issue of `s` has the property `p`.
pub open spec fn all_issues(s: Seq<IssueView>, p: spec_fn(IssueView) -> bool) -> bool {
    forall|k: int| 0 <= k < s.len() ==> p(#[trigger] s[k])
}

/// True when every edge of `s` has the property `p`.
pub open spec fn all_edges(s: Seq<EdgeView>, p: spec_fn(EdgeView) -> bool) -> bool {
    forall|k: int| 0 <= k < s.len() ==> p(#[trigger] s[k])
}

/// Writing an issue with a property among issues that all have it leaves
/// issues that all have it.
pub proof fn lemma_with_issue_keeps(s: Seq<IssueView>, x: IssueView, p: spec_fn(IssueView) -> bool)
    requires
        all_issues(s, p),
        p(x),
    ensures
        all_issues(with_issue(s, x), p),
{
    lemma_issue_pos(s, x.id);
    let t = with_issue(s, x);
    let pos = issue_pos(s, x.id);
    assert forall|k: int| 0 <= k < t.len() implies p(#[trigger] t[k]) by {
        if pos < s.len() {
            if k != pos {
                assert(t[k] == s[k]);
            }
        } else if k < s.len() {
            assert(t[k] == s[k]);
        }
    }
}

/// Writing a batch of issues that all have a property among issues that
/// all have it leaves issues that all have it.
pub proof fn lemma_with_issues_keeps(
    s: Seq<IssueView>,
    batch: Seq<IssueView>,
    p: spec_fn(IssueView) -> bool,
)
    requires
        all_issues(s, p),
        all_issues(batch, p),
    ensures
        all_issues(with_issues(s, batch), p),
    decreases batch.len(),
{
    if batch.len() > 0 {
        assert forall|k: int| 0 <= k < batch.drop_last().len() implies p(
            #[trigger] batch.drop_last()[k],
        ) by {
            assert(batch.drop_last()[k] == batch[k]);
        }
        lemma_with_issues_keeps(s, batch.drop_last(), p);
        assert(p(batch[batch.len() - 1]));
        lemma_with_issue_keeps(with_issues(s, batch.drop_last()), batch.last(), p);
    }
}

/// The incoming issues that are selected are among the incoming issues:
/// what all of these have, all of those have.
pub proof fn lemma_selected_issues_keep(
    local: Seq<IssueView>,
    incoming: Seq<IssueView>,
    p: spec_fn(IssueView) -> bool,
)
    requires
        all_issues(incoming, p),
    ensures
        all_issues(selected_issues(local, incoming), p),
{
    let pred = |r: IssueView| wins(local, r);
    let sel = incoming.filter(pred);
    assert forall|k: int| 0 <= k < sel.len() implies p(#[trigger] sel[k]) by {
        assert(sel.contains(sel[k]));
        incoming.lemma_filter_contains_rev(pred, sel[k]);
        let j = choose|j: int| 0 <= j < incoming.len() && incoming[j] == sel[k];
        assert(p(incoming[j]));
    }
}

/// Gathering edges that all have a property among edges that all have it
/// leaves edges that all have it.
pub proof fn lemma_grown_keeps(
    cur: Seq<EdgeView>,
    incoming: Seq<EdgeView>,
    p: spec_fn(EdgeView) -> bool,
)
    requires
        all_edges(cur, p),
        all_edges(incoming, p),
    ensures
        all_edges(grown(cur, incoming), p),
    decreases incoming.len(),
{
    if incoming.len() > 0 {
        assert forall|k: int| 0 <= k < incoming.drop_last().len() implies p(
            #[trigger] incoming.drop_last()[k],
        ) by {
            assert(incoming.drop_last()[k] == incoming[k]);
        }
        lemma_grown_keeps(cur, incoming.drop_last(), p);
        let prev = grown(cur, incoming.drop_last());
        let g = grown(cur, incoming);
        assert(p(incoming[incoming.len() - 1]));
        assert forall|k: int| 0 <= k < g.len() implies p(#[trigger] g[k]) by {
            if k < prev.len() {
                assert(g[k] == prev[k]);
            }
        }
    }
}

/// A merge of records that all have a property into a snapshot whose
/// records all have it gives a snapshot whose records all have it.
pub proof fn lemma_merge_keeps(
    local: SnapshotView,
    issues: Seq<IssueView>,
    edges: Seq<EdgeView>,
    p: spec_fn(IssueView) -> bool,
    q: spec_fn(EdgeView) -> bool,
)
    requires
        all_issues(local.issues, p),
        all_issues(issues, p),
        all_edges(local.edges, q),
        all_edges(edges, q),
    ensures
        all_issues(merged(local, issues, edges).issues, p),
        all_edges(merged(local, issues, edges).edges, q),
{
    lemma_selected_issues_keep(local.issues, issues, p);
    lemma_with_issues_keeps(local.issues, selected_issues(local.issues, issues), p);
    lemma_with_selected_edges(local.edges, edges);
    lemma_grown_keeps(local.edges, edges, q);
}

} // verus!
