//! The merge engine: reconciles a snapshot with the issues and edges of
//! another, last writer wins.
//!
//! An incoming issue replaces the local one with its identifier when its
//! `lamport` is greater, or equal with a greater `updated_at`; on a tie the
//! local issue stays. Incoming edges are added unless they are present or
//! would close a cycle among the edges gathered so far.

use vstd::prelude::*;
use crate::dag::{closes_cycle, closes_cycle_in, lemma_closes_cycle_by_triple, proposed};
use crate::seqs::{
    lemma_filter_next,
    lemma_filter_none,
    lemma_prefix_drop_last,
    lemma_subrange_all,
};
use crate::error::{Error, ErrorView};
use crate::snapshot::{
    copy_edges,
    find_issue,
    has_issue,
    has_triple,
    holds_triple,
    issue_pos,
    lemma_issue_pos,
    with_edge,
    with_issue,
    Snapshot,
    SnapshotView,
    Store,
};
use crate::snapshot::{
    edges_versioned, issues_versioned, lemma_with_edge_versioned, lemma_with_issue_versioned,
};
use crate::types::{
    edge_views, issue_views, Edge, EdgeView, Issue, IssueView, SCHEMA_VERSION,
};

verus! {

/// True when the record `r` beats the record `l` of the same identifier:
/// a greater `lamport`, or the same `lamport` and a greater `updated_at`.
pub open spec fn dominates(r: IssueView, l: IssueView) -> bool {
    r.lamport > l.lamport || (r.lamport == l.lamport && r.updated_at > l.updated_at)
}

/// True when the incoming record `r` is to be written: the local side has
/// no issue with its identifier, or has one that `r` dominates.
pub open spec fn wins(local: Seq<IssueView>, r: IssueView) -> bool {
    let k = issue_pos(local, r.id);
    k >= local.len() || dominates(r, local[k])
}

/// The incoming records that are to be written, in their order.
pub open spec fn selected_issues(
    local: Seq<IssueView>,
    incoming: Seq<IssueView>,
) -> Seq<IssueView> {
    incoming.filter(|r: IssueView| wins(local, r))
}

/// True when the incoming edge `e` is left out: it is present already, or
/// it would close a cycle.
pub open spec fn refused(cur: Seq<EdgeView>, e: EdgeView) -> bool {
    has_triple(cur, e.source, e.target, e.edge_type) || closes_cycle(cur, e)
}

/// The edges after one incoming edge is looked at.
pub open spec fn looked_at(cur: Seq<EdgeView>, e: EdgeView) -> Seq<EdgeView> {
    if refused(cur, e) {
        cur
    } else {
        cur.push(e)
    }
}

/// The edges after the incoming edges are looked at one after the other,
/// each against what has been gathered before it.
pub open spec fn grown(cur: Seq<EdgeView>, incoming: Seq<EdgeView>) -> Seq<EdgeView>
    decreases incoming.len(),
{
    if incoming.len() == 0 {
        cur
    } else {
        looked_at(grown(cur, incoming.drop_last()), incoming.last())
    }
}

/// How many incoming edges are left out because they would close a cycle.
pub open spec fn cycle_skips(cur: Seq<EdgeView>, incoming: Seq<EdgeView>) -> nat
    decreases incoming.len(),
{
    if incoming.len() == 0 {
        0
    } else {
        let before = grown(cur, incoming.drop_last());
        let e = incoming.last();
        let here: nat = if !has_triple(before, e.source, e.target, e.edge_type) && closes_cycle(
            before,
            e,
        ) {
            1
        } else {
            0
        };
        cycle_skips(cur, incoming.drop_last()) + here
    }
}

/// The incoming edges that are added, in their order.
pub open spec fn selected_edges(local: Seq<EdgeView>, incoming: Seq<EdgeView>) -> Seq<EdgeView> {
    grown(local, incoming).subrange(local.len() as int, grown(local, incoming).len() as int)
}

/// The issues after a batch is written, record by record.
pub open spec fn with_issues(s: Seq<IssueView>, batch: Seq<IssueView>) -> Seq<IssueView>
    decreases batch.len(),
{
    if batch.len() == 0 {
        s
    } else {
        with_issue(with_issues(s, batch.drop_last()), batch.last())
    }
}

/// The edges after a batch is written, record by record.
pub open spec fn with_edges(s: Seq<EdgeView>, batch: Seq<EdgeView>) -> Seq<EdgeView>
    decreases batch.len(),
{
    if batch.len() == 0 {
        s
    } else {
        with_edge(with_edges(s, batch.drop_last()), batch.last())
    }
}

/// The snapshot after a batch of issues and edges is written in one commit.
pub open spec fn batch_applied(
    s: SnapshotView,
    issues: Seq<IssueView>,
    edges: Seq<EdgeView>,
) -> SnapshotView {
    SnapshotView { issues: with_issues(s.issues, issues), edges: with_edges(s.edges, edges) }
}

/// The snapshot that merging the incoming issues and edges into `local`
/// gives.
pub open spec fn merged(
    local: SnapshotView,
    issues: Seq<IssueView>,
    edges: Seq<EdgeView>,
) -> SnapshotView {
    batch_applied(
        local,
        selected_issues(local.issues, issues),
        selected_edges(local.edges, edges),
    )
}

/// The edges only ever grow at the end.
pub proof fn lemma_grown_extends(cur: Seq<EdgeView>, incoming: Seq<EdgeView>)
    ensures
        cur.len() <= grown(cur, incoming).len(),
        grown(cur, incoming).subrange(0, cur.len() as int) == cur,
    decreases incoming.len(),
{
    if incoming.len() == 0 {
        assert(cur.subrange(0, cur.len() as int) =~= cur);
    } else {
        lemma_grown_extends(cur, incoming.drop_last());
        let before = grown(cur, incoming.drop_last());
        assert(grown(cur, incoming).subrange(0, cur.len() as int) =~= before.subrange(
            0,
            cur.len() as int,
        ));
    }
}

/// True when the record `remote` beats the record `local`.
pub fn beats(remote: &Issue, local: &Issue) -> (r: bool)
    ensures
        r == dominates(remote@, local@),
{
    remote.lamport > local.lamport || (remote.lamport == local.lamport && remote.updated_at
        > local.updated_at)
}

/// Picks the incoming issues that are to be written: those that are new to
/// the local side and those that beat the local issue of their identifier.
pub fn select_issues(local: &Vec<Issue>, incoming: &Vec<Issue>) -> (r: Vec<Issue>)
    ensures
        issue_views(r@) == selected_issues(issue_views(local@), issue_views(incoming@)),
{
    let ghost l = issue_views(local@);
    let ghost inc = issue_views(incoming@);
    let ghost pred = |r: IssueView| wins(l, r);
    let mut out: Vec<Issue> = Vec::new();
    let mut i: usize = 0;
    proof {
        lemma_filter_none(inc, pred);
        assert(issue_views(out@) =~= Seq::<IssueView>::empty());
    }
    while i < incoming.len()
        invariant
            i <= incoming.len(),
            l == issue_views(local@),
            inc == issue_views(incoming@),
            pred == |r: IssueView| wins(l, r),
            issue_views(out@) == inc.subrange(0, i as int).filter(pred),
        decreases incoming.len() - i,
    {
        let r = &incoming[i];
        let ghost before = issue_views(out@);
        proof {
            lemma_filter_next(inc, i as int, pred);
            assert(inc[i as int] == r@);
        }
        let k = find_issue(local, r.id.as_str());
        let take = if k < local.len() {
            assert(l[k as int] == local@[k as int]@);
            beats(r, &local[k])
        } else {
            true
        };
        if take {
            out.push(r.duplicate());
            assert(issue_views(out@) =~= before.push(r@));
        }
        i += 1;
    }
    proof {
        lemma_subrange_all(inc);
    }
    out
}

/// Picks the incoming edges that are to be added and counts those that are
/// left out because they would close a cycle. Each edge is judged against
/// the local edges and the incoming edges added before it.
pub fn select_edges(local: &Vec<Edge>, incoming: &Vec<Edge>) -> (r: (Vec<Edge>, usize))
    ensures
        edge_views(r.0@) == selected_edges(edge_views(local@), edge_views(incoming@)),
        r.1 == cycle_skips(edge_views(local@), edge_views(incoming@)),
{
    let ghost l = edge_views(local@);
    let ghost inc = edge_views(incoming@);
    let mut current = copy_edges(local);
    let mut added: Vec<Edge> = Vec::new();
    let mut skipped: usize = 0;
    let mut i: usize = 0;
    proof {
        assert(inc.subrange(0, 0) =~= Seq::<EdgeView>::empty());
        assert(edge_views(added@) =~= l.subrange(l.len() as int, l.len() as int));
    }
    while i < incoming.len()
        invariant
            i <= incoming.len(),
            l == edge_views(local@),
            inc == edge_views(incoming@),
            edge_views(current@) == grown(l, inc.subrange(0, i as int)),
            edge_views(added@) == edge_views(current@).subrange(
                l.len() as int,
                current@.len() as int,
            ),
            l.len() <= current@.len(),
            skipped == cycle_skips(l, inc.subrange(0, i as int)),
            skipped <= i,
        decreases incoming.len() - i,
    {
        let e = &incoming[i];
        let ghost cur = edge_views(current@);
        let ghost add0 = edge_views(added@);
        proof {
            lemma_prefix_drop_last(inc, i as int);
            assert(inc[i as int] == e@);
        }
        let present = holds_triple(&current, e.source.as_str(), e.target.as_str(), e.edge_type);
        if !present {
            let cyclic = closes_cycle_in(
                &current,
                e.source.as_str(),
                e.target.as_str(),
                e.edge_type,
            );
            proof {
                lemma_closes_cycle_by_triple(
                    cur,
                    proposed(e.source@, e.target@, e.edge_type),
                    e@,
                );
            }
            if cyclic {
                skipped += 1;
            } else {
                current.push(e.duplicate());
                added.push(e.duplicate());
                proof {
                    assert(edge_views(current@) =~= cur.push(e@));
                    assert(edge_views(added@) =~= add0.push(e@));
                    assert(edge_views(added@) =~= edge_views(current@).subrange(
                        l.len() as int,
                        current@.len() as int,
                    ));
                }
            }
        }
        i += 1;
    }
    proof {
        lemma_subrange_all(inc);
    }
    (added, skipped)
}

/// How many of the records that are to be written are new to the local
/// side.
pub open spec fn new_count(local: Seq<IssueView>, chosen: Seq<IssueView>) -> nat {
    chosen.filter(|r: IssueView| !has_issue(local, r.id)).len()
}

/// What a merge did, in numbers.
#[derive(Debug, Clone, Copy, PartialEq, Eq, Structural)]
pub struct MergeReport {
    /// Incoming issues that the local side did not have.
    pub issues_added: usize,
    /// Incoming issues that replaced a local one.
    pub issues_updated: usize,
    /// Incoming edges that were added.
    pub edges_added: usize,
    /// Incoming edges that were left out because they would close a cycle.
    pub edges_skipped: usize,
}

/// Counts the records of `chosen` whose identifier the local side lacks.
pub fn count_new(local: &Vec<Issue>, chosen: &Vec<Issue>) -> (n: usize)
    ensures
        n == new_count(issue_views(local@), issue_views(chosen@)),
        n <= chosen@.len(),
{
    let ghost l = issue_views(local@);
    let ghost c = issue_views(chosen@);
    let ghost pred = |r: IssueView| !has_issue(l, r.id);
    let mut n: usize = 0;
    let mut i: usize = 0;
    proof {
        lemma_filter_none(c, pred);
    }
    while i < chosen.len()
        invariant
            i <= chosen.len(),
            l == issue_views(local@),
            c == issue_views(chosen@),
            pred == |r: IssueView| !has_issue(l, r.id),
            n == c.subrange(0, i as int).filter(pred).len(),
            n <= i,
        decreases chosen.len() - i,
    {
        proof {
            lemma_filter_next(c, i as int, pred);
            lemma_issue_pos(l, c[i as int].id);
            assert(c[i as int] == chosen@[i as int]@);
        }
        let k = find_issue(local, chosen[i].id.as_str());
        if k >= local.len() {
            n += 1;
        }
        i += 1;
    }
    proof {
        lemma_subrange_all(c);
    }
    n
}

impl Snapshot {
    /// The batch path: writes all the given issues and then all the given
    /// edges, as one commit does. Each record goes where a single write
    /// would put it. A batch with a record of another schema version than
    /// the engine's is refused as a whole, and the snapshot stays as it is.
    pub fn merge_snapshot(
        &mut self,
        issues: &Vec<Issue>,
        edges: &Vec<Edge>,
    ) -> (r: Result<(), Error>)
        ensures
            match batch_mismatch(issue_views(issues@), edge_views(edges@)) {
                Some(found) => r is Err && r->Err_0@ == (ErrorView::SchemaMismatch {
                    expected: SCHEMA_VERSION,
                    found,
                }) && final(self)@ == old(self)@,
                None => r is Ok && final(self)@ == batch_applied(
                    old(self)@,
                    issue_views(issues@),
                    edge_views(edges@),
                ),
            },
    {
        match find_issue_mismatch(issues) {
            Some(found) => {
                return Err(Error::SchemaMismatch { expected: SCHEMA_VERSION, found });
            },
            None => {},
        }
        match find_edge_mismatch(edges) {
            Some(found) => {
                return Err(Error::SchemaMismatch { expected: SCHEMA_VERSION, found });
            },
            None => {},
        }
        let ghost start = self@;
        let ghost iv = issue_views(issues@);
        let ghost ev = edge_views(edges@);
        let mut i: usize = 0;
        proof {
            lemma_issue_mismatch(iv);
            lemma_edge_mismatch(ev);
            assert(iv.subrange(0, 0) =~= Seq::<IssueView>::empty());
        }
        while i < issues.len()
            invariant
                i <= issues.len(),
                iv == issue_views(issues@),
                issues_versioned(iv),
                self@.issues == with_issues(start.issues, iv.subrange(0, i as int)),
                self@.edges == start.edges,
            decreases issues.len() - i,
        {
            proof {
                lemma_prefix_drop_last(iv, i as int);
                assert(iv[i as int] == issues@[i as int]@);
            }
            match self.put_issue(issues[i].duplicate()) {
                Err(e) => { return Err(e); },
                Ok(()) => {},
            }
            i += 1;
        }
        let mut k: usize = 0;
        proof {
            lemma_subrange_all(iv);
            assert(ev.subrange(0, 0) =~= Seq::<EdgeView>::empty());
        }
        while k < edges.len()
            invariant
                k <= edges.len(),
                ev == edge_views(edges@),
                edges_versioned(ev),
                self@.issues == with_issues(start.issues, iv),
                self@.edges == with_edges(start.edges, ev.subrange(0, k as int)),
            decreases edges.len() - k,
        {
            proof {
                lemma_prefix_drop_last(ev, k as int);
                assert(ev[k as int] == edges@[k as int]@);
            }
            match self.put_edge(edges[k].duplicate()) {
                Err(e) => { return Err(e); },
                Ok(()) => {},
            }
            k += 1;
        }
        proof {
            lemma_subrange_all(ev);
        }
        Ok(())
    }
}

/// What a merge reports.
pub open spec fn merge_report(
    local: SnapshotView,
    issues: Seq<IssueView>,
    edges: Seq<EdgeView>,
) -> MergeReport {
    let chosen = selected_issues(local.issues, issues);
    let added = new_count(local.issues, chosen);
    MergeReport {
        issues_added: added as usize,
        issues_updated: (chosen.len() - added) as usize,
        edges_added: selected_edges(local.edges, edges).len() as usize,
        edges_skipped: cycle_skips(local.edges, edges) as usize,
    }
}

/// Merges incoming issues and edges into a snapshot. The issues are taken
/// last writer wins, the edges are united; an edge that would close a cycle
/// is left out and counted, and never stops the merge. A record of another
/// schema version than the engine's among what is taken stops the merge
/// before anything is written.
pub fn merge_into(
    local: &mut Snapshot,
    issues: &Vec<Issue>,
    edges: &Vec<Edge>,
) -> (r: Result<MergeReport, Error>)
    ensures
        match batch_mismatch(
            selected_issues(old(local)@.issues, issue_views(issues@)),
            selected_edges(old(local)@.edges, edge_views(edges@)),
        ) {
            Some(found) => r is Err && r->Err_0@ == (ErrorView::SchemaMismatch {
                expected: SCHEMA_VERSION,
                found,
            }) && final(local)@ == old(local)@,
            None => r is Ok && r->Ok_0 == merge_report(
                old(local)@,
                issue_views(issues@),
                edge_views(edges@),
            ) && final(local)@ == merged(old(local)@, issue_views(issues@), edge_views(edges@)),
        },
{
    let chosen = select_issues(local.issues(), issues);
    let issues_added = count_new(local.issues(), &chosen);
    let picked = select_edges(local.edges(), edges);
    let to_add = picked.0;
    let report = MergeReport {
        issues_added,
        issues_updated: chosen.len() - issues_added,
        edges_added: to_add.len(),
        edges_skipped: picked.1,
    };
    match local.merge_snapshot(&chosen, &to_add) {
        Err(e) => Err(e),
        Ok(()) => Ok(report),
    }
}

/// The schema version of the first issue that is not of the engine's
/// version, where there is one.
pub open spec fn issue_mismatch(s: Seq<IssueView>) -> Option<u32>
    decreases s.len(),
{
    if s.len() == 0 {
        None
    } else if s[0].schema_version != SCHEMA_VERSION {
        Some(s[0].schema_version)
    } else {
        issue_mismatch(s.drop_first())
    }
}

/// The schema version of the first edge that is not of the engine's
/// version, where there is one.
pub open spec fn edge_mismatch(s: Seq<EdgeView>) -> Option<u32>
    decreases s.len(),
{
    if s.len() == 0 {
        None
    } else if s[0].schema_version != SCHEMA_VERSION {
        Some(s[0].schema_version)
    } else {
        edge_mismatch(s.drop_first())
    }
}

/// The schema version of the first record of a batch that is not of the
/// engine's version, where there is one: the issues come first, then the
/// edges.
pub open spec fn batch_mismatch(issues: Seq<IssueView>, edges: Seq<EdgeView>) -> Option<u32> {
    match issue_mismatch(issues) {
        Some(v) => Some(v),
        None => edge_mismatch(edges),
    }
}

/// No issue is mismatched exactly where all have the engine's version.
pub proof fn lemma_issue_mismatch(s: Seq<IssueView>)
    ensures
        issue_mismatch(s) is None <==> issues_versioned(s),
        issue_mismatch(s) is Some ==> issue_mismatch(s)->Some_0 != SCHEMA_VERSION,
    decreases s.len(),
{
    if s.len() > 0 {
        let rest = s.drop_first();
        lemma_issue_mismatch(rest);
        if s[0].schema_version == SCHEMA_VERSION {
            if issues_versioned(rest) {
                assert forall|k: int| 0 <= k < s.len() implies (#[trigger] s[k]).schema_version
                    == SCHEMA_VERSION by {
                    if k > 0 {
                        assert(rest[k - 1] == s[k]);
                    }
                }
            }
            if issues_versioned(s) {
                assert forall|k: int| 0 <= k < rest.len() implies (
                #[trigger] rest[k]).schema_version == SCHEMA_VERSION by {
                    assert(rest[k] == s[k + 1]);
                }
            }
        }
    }
}

/// No edge is mismatched exactly where all have the engine's version.
pub proof fn lemma_edge_mismatch(s: Seq<EdgeView>)
    ensures
        edge_mismatch(s) is None <==> edges_versioned(s),
        edge_mismatch(s) is Some ==> edge_mismatch(s)->Some_0 != SCHEMA_VERSION,
    decreases s.len(),
{
    if s.len() > 0 {
        let rest = s.drop_first();
        lemma_edge_mismatch(rest);
        if s[0].schema_version == SCHEMA_VERSION {
            if edges_versioned(rest) {
                assert forall|k: int| 0 <= k < s.len() implies (#[trigger] s[k]).schema_version
                    == SCHEMA_VERSION by {
                    if k > 0 {
                        assert(rest[k - 1] == s[k]);
                    }
                }
            }
            if edges_versioned(s) {
                assert forall|k: int| 0 <= k < rest.len() implies (
                #[trigger] rest[k]).schema_version == SCHEMA_VERSION by {
                    assert(rest[k] == s[k + 1]);
                }
            }
        }
    }
}

/// Writing a batch of issues of the engine's version among such issues
/// leaves such issues.
pub proof fn lemma_with_issues_versioned(s: Seq<IssueView>, batch: Seq<IssueView>)
    requires
        issues_versioned(s),
        issues_versioned(batch),
    ensures
        issues_versioned(with_issues(s, batch)),
    decreases batch.len(),
{
    if batch.len() > 0 {
        assert forall|k: int| 0 <= k < batch.drop_last().len() implies (
        #[trigger] batch.drop_last()[k]).schema_version == SCHEMA_VERSION by {
            assert(batch.drop_last()[k] == batch[k]);
        }
        lemma_with_issues_versioned(s, batch.drop_last());
        assert(batch[batch.len() - 1].schema_version == SCHEMA_VERSION);
        lemma_with_issue_versioned(with_issues(s, batch.drop_last()), batch.last());
    }
}

/// Writing a batch of edges of the engine's version among such edges leaves
/// such edges.
pub proof fn lemma_with_edges_versioned(s: Seq<EdgeView>, batch: Seq<EdgeView>)
    requires
        edges_versioned(s),
        edges_versioned(batch),
    ensures
        edges_versioned(with_edges(s, batch)),
    decreases batch.len(),
{
    if batch.len() > 0 {
        assert forall|k: int| 0 <= k < batch.drop_last().len() implies (
        #[trigger] batch.drop_last()[k]).schema_version == SCHEMA_VERSION by {
            assert(batch.drop_last()[k] == batch[k]);
        }
        lemma_with_edges_versioned(s, batch.drop_last());
        assert(batch[batch.len() - 1].schema_version == SCHEMA_VERSION);
        lemma_with_edge_versioned(with_edges(s, batch.drop_last()), batch.last());
    }
}

/// What is selected of incoming issues of the engine's version is of the
/// engine's version.
pub proof fn lemma_selected_issues_versioned(local: Seq<IssueView>, incoming: Seq<IssueView>)
    requires
        issues_versioned(incoming),
    ensures
        issues_versioned(selected_issues(local, incoming)),
{
    let pred = |r: IssueView| wins(local, r);
    let sel = incoming.filter(pred);
    assert forall|k: int| 0 <= k < sel.len() implies (#[trigger] sel[k]).schema_version
        == SCHEMA_VERSION by {
        assert(sel.contains(sel[k]));
        incoming.lemma_filter_contains_rev(pred, sel[k]);
        let j = choose|j: int| 0 <= j < incoming.len() && incoming[j] == sel[k];
        assert(incoming[j].schema_version == SCHEMA_VERSION);
    }
}

/// What is gathered beyond the edges at hand comes from the incoming edges:
/// where these are of the engine's version, so is what is added.
pub proof fn lemma_selected_edges_versioned(local: Seq<EdgeView>, incoming: Seq<EdgeView>)
    requires
        edges_versioned(incoming),
    ensures
        edges_versioned(selected_edges(local, incoming)),
    decreases incoming.len(),
{
    lemma_grown_extends(local, incoming);
    let g = grown(local, incoming);
    let sel = selected_edges(local, incoming);
    if incoming.len() > 0 {
        let rest = incoming.drop_last();
        assert forall|k: int| 0 <= k < rest.len() implies (#[trigger] rest[k]).schema_version
            == SCHEMA_VERSION by {
            assert(rest[k] == incoming[k]);
        }
        lemma_selected_edges_versioned(local, rest);
        lemma_grown_extends(local, rest);
        let prev = grown(local, rest);
        let before = selected_edges(local, rest);
        assert(incoming[incoming.len() - 1].schema_version == SCHEMA_VERSION);
        assert forall|k: int| 0 <= k < sel.len() implies (#[trigger] sel[k]).schema_version
            == SCHEMA_VERSION by {
            if local.len() + k < prev.len() {
                assert(sel[k] == before[k]);
            } else {
                assert(sel[k] == incoming.last());
            }
        }
    }
}

/// The schema version of the first issue that is not of the engine's
/// version, where there is one.
pub fn find_issue_mismatch(issues: &Vec<Issue>) -> (r: Option<u32>)
    ensures
        r == issue_mismatch(issue_views(issues@)),
{
    let ghost s = issue_views(issues@);
    let mut i: usize = 0;
    proof {
        assert(s.subrange(0, s.len() as int) =~= s);
    }
    while i < issues.len()
        invariant
            i <= issues.len(),
            s == issue_views(issues@),
            issue_mismatch(s) == issue_mismatch(s.subrange(i as int, s.len() as int)),
        decreases issues.len() - i,
    {
        let ghost tail = s.subrange(i as int, s.len() as int);
        proof {
            assert(tail[0] == issues@[i as int]@);
            assert(tail.drop_first() =~= s.subrange(i + 1, s.len() as int));
        }
        if issues[i].schema_version != SCHEMA_VERSION {
            return Some(issues[i].schema_version);
        }
        i += 1;
    }
    None
}

/// The schema version of the first edge that is not of the engine's
/// version, where there is one.
pub fn find_edge_mismatch(edges: &Vec<Edge>) -> (r: Option<u32>)
    ensures
        r == edge_mismatch(edge_views(edges@)),
{
    let ghost s = edge_views(edges@);
    let mut i: usize = 0;
    proof {
        assert(s.subrange(0, s.len() as int) =~= s);
    }
    while i < edges.len()
        invariant
            i <= edges.len(),
            s == edge_views(edges@),
            edge_mismatch(s) == edge_mismatch(s.subrange(i as int, s.len() as int)),
        decreases edges.len() - i,
    {
        let ghost tail = s.subrange(i as int, s.len() as int);
        proof {
            assert(tail[0] == edges@[i as int]@);
            assert(tail.drop_first() =~= s.subrange(i + 1, s.len() as int));
        }
        if edges[i].schema_version != SCHEMA_VERSION {
            return Some(edges[i].schema_version);
        }
        i += 1;
    }
    None
}

/// The batch path of the engine: one commit whose snapshot has all the
/// given issues and then all the given edges written. The inputs are taken
/// as they are: reconciling them is the caller's part. A batch with a
/// record of another schema version than the engine's is refused as a
/// whole and nothing is written.
pub fn merge_snapshot(
    store: &mut Store,
    issues: &Vec<Issue>,
    edges: &Vec<Edge>,
    message: &str,
) -> (r: Result<(), Error>)
    ensures
        !old(store)@.initialized() ==> r is Err && r->Err_0@ == ErrorView::NotInitialized
            && final(store)@ == old(store)@,
        old(store)@.initialized() ==> match batch_mismatch(
            issue_views(issues@),
            edge_views(edges@),
        ) {
            Some(found) => r is Err && r->Err_0@ == (ErrorView::SchemaMismatch {
                expected: SCHEMA_VERSION,
                found,
            }) && final(store)@ == old(store)@,
            None => r is Ok && final(store)@ == old(store)@.committed(
                message@,
                batch_applied(old(store)@.tip(), issue_views(issues@), edge_views(edges@)),
            ),
        },
{
    let mut next = match store.tip() {
        None => { return Err(Error::NotInitialized); },
        Some(snapshot) => snapshot.duplicate(),
    };
    match next.merge_snapshot(issues, edges) {
        Err(e) => { return Err(e); },
        Ok(()) => {},
    }
    store.push_commit(message, next);
    Ok(())
}

} // verus!
