//! The query layer: read-only views of a snapshot.
//!
//! An issue is ready when it is open, unclaimed and not blocked. Listings
//! come out by priority rank and then by creation time, issues that agree
//! in both in the order in which they were given.

use vstd::prelude::*;
use crate::dag::Node;
use crate::seqs::{lemma_filter_next, lemma_filter_none, lemma_subrange_all};
use crate::snapshot::{find_issue, lookup};
use crate::text::str_eq;
use crate::types::{
    edge_views,
    issue_views,
    priority_rank,
    Edge,
    EdgeType,
    EdgeView,
    Issue,
    IssueType,
    IssueView,
    Status,
};

verus! {

/// True when `issues` has an issue with identifier `id` that is not closed.
pub open spec fn unclosed(issues: Seq<IssueView>, id: Node) -> bool {
    match lookup(issues, id) {
        Some(x) => x.status != Status::Closed,
        None => false,
    }
}

/// True when the edge `e` holds the issue `id` back: a dependency or a
/// parent of `id` that is not closed, or an unclosed issue that blocks `id`.
/// An edge whose other end is not among the issues holds nothing back.
pub open spec fn holds_back(e: EdgeView, id: Node, issues: Seq<IssueView>) -> bool {
    match e.edge_type {
        EdgeType::DependsOn => e.source == id && unclosed(issues, e.target),
        EdgeType::Blocks => e.target == id && unclosed(issues, e.source),
        EdgeType::ParentChild => e.source == id && unclosed(issues, e.target),
        EdgeType::RelatesTo => false,
        EdgeType::Duplicates => false,
    }
}

/// True when some edge holds the issue `id` back.
pub open spec fn blocked(id: Node, edges: Seq<EdgeView>, issues: Seq<IssueView>) -> bool {
    exists|k: int| 0 <= k < edges.len() && holds_back(#[trigger] edges[k], id, issues)
}

/// True when the issue is open, unclaimed and not blocked.
pub open spec fn is_ready(x: IssueView, edges: Seq<EdgeView>, issues: Seq<IssueView>) -> bool {
    x.status == Status::Open && !x.claimed && !blocked(x.id, edges, issues)
}

/// True when the issue passes the filters of a listing.
pub open spec fn listed(
    x: IssueView,
    status: Option<Status>,
    issue_type: Option<IssueType>,
) -> bool {
    &&& (status matches Some(s) ==> x.status == s)
    &&& (issue_type matches Some(t) ==> x.issue_type == t)
}

/// True when `a` may stand before `b` in a listing: a smaller priority rank,
/// or the same rank and a creation time that is not later.
pub open spec fn before_or_level(a: IssueView, b: IssueView) -> bool {
    priority_rank(a.priority) < priority_rank(b.priority) || (priority_rank(a.priority)
        == priority_rank(b.priority) && a.created_at <= b.created_at)
}

/// Where the issue `x` goes in the ordered sequence `s`: before the first
/// issue that `x` may stand before.
pub open spec fn place(s: Seq<IssueView>, x: IssueView) -> int
    decreases s.len(),
{
    if s.len() == 0 {
        0
    } else if before_or_level(x, s[0]) {
        0
    } else {
        1 + place(s.drop_first(), x)
    }
}

/// The issues of `s` in listing order. Issues that agree in rank and
/// creation time keep the order that they have in `s`.
pub open spec fn ordered(s: Seq<IssueView>) -> Seq<IssueView>
    decreases s.len(),
{
    if s.len() == 0 {
        s
    } else {
        let rest = ordered(s.drop_first());
        rest.insert(place(rest, s[0]), s[0])
    }
}

/// True when each issue of `s` may stand before all that follow it.
pub open spec fn in_order(s: Seq<IssueView>) -> bool {
    forall|a: int, b: int| 0 <= a < b < s.len() ==> before_or_level(s[a], s[b])
}

/// The ready set: the issues that are ready, in listing order.
pub open spec fn ready_set(issues: Seq<IssueView>, edges: Seq<EdgeView>) -> Seq<IssueView> {
    ordered(issues.filter(|x: IssueView| is_ready(x, edges, issues)))
}

/// A listing: the issues that pass the filters, in listing order.
pub open spec fn listing(
    issues: Seq<IssueView>,
    status: Option<Status>,
    issue_type: Option<IssueType>,
) -> Seq<IssueView> {
    ordered(issues.filter(|x: IssueView| listed(x, status, issue_type)))
}

/// `place` points into the sequence, past the issues that must stay before
/// `x` and at an issue that `x` may stand before.
pub proof fn lemma_place(s: Seq<IssueView>, x: IssueView)
    ensures
        0 <= place(s, x) <= s.len(),
        forall|j: int| 0 <= j < place(s, x) ==> !before_or_level(x, #[trigger] s[j]),
        place(s, x) < s.len() ==> before_or_level(x, s[place(s, x)]),
    decreases s.len(),
{
    if s.len() > 0 && !before_or_level(x, s[0]) {
        let rest = s.drop_first();
        lemma_place(rest, x);
        assert forall|j: int| 0 <= j < place(s, x) implies !before_or_level(x, #[trigger] s[j]) by {
            if j > 0 {
                assert(rest[j - 1] == s[j]);
            }
        }
        if place(rest, x) < rest.len() {
            assert(rest[place(rest, x)] == s[place(s, x)]);
        }
    }
}

/// The listing order is an order: every issue stands before those that
/// follow it.
pub proof fn lemma_ordered_in_order(s: Seq<IssueView>)
    ensures
        in_order(ordered(s)),
        ordered(s).len() == s.len(),
    decreases s.len(),
{
    if s.len() > 0 {
        let rest = ordered(s.drop_first());
        lemma_ordered_in_order(s.drop_first());
        let x = s[0];
        lemma_place(rest, x);
        let k = place(rest, x);
        let out = rest.insert(k, x);
        assert forall|a: int, b: int| 0 <= a < b < out.len() implies before_or_level(
            out[a],
            out[b],
        ) by {
            if b < k {
                assert(out[a] == rest[a] && out[b] == rest[b]);
            } else if b == k {
                assert(out[a] == rest[a]);
                assert(!before_or_level(x, rest[a]));
            } else if a < k {
                assert(out[a] == rest[a] && out[b] == rest[b - 1]);
            } else if a == k {
                assert(out[b] == rest[b - 1]);
                assert(before_or_level(x, rest[k]));
                if b - 1 > k {
                    assert(before_or_level(rest[k], rest[b - 1]));
                }
            } else {
                assert(out[a] == rest[a - 1] && out[b] == rest[b - 1]);
            }
        }
    }
}

/// The listing order leaves no issue out and brings none in: it holds the
/// same issues, each as often as before.
pub proof fn lemma_ordered_permutes(s: Seq<IssueView>)
    ensures
        ordered(s).to_multiset() == s.to_multiset(),
    decreases s.len(),
{
    broadcast use vstd::seq_lib::group_to_multiset_ensures;

    if s.len() > 0 {
        let rest = ordered(s.drop_first());
        lemma_ordered_permutes(s.drop_first());
        lemma_ordered_in_order(s.drop_first());
        let x = s[0];
        lemma_place(rest, x);
        let k = place(rest, x);
        let out = rest.insert(k, x);
        assert(out.remove(k) =~= rest);
        assert(out.remove(k).to_multiset() =~= out.to_multiset().remove(out[k]));
        assert(s.remove(0) =~= s.drop_first());
        assert(s.remove(0).to_multiset() =~= s.to_multiset().remove(s[0]));
        assert(out.to_multiset().count(x) > 0) by {
            assert(out[k] == x);
            assert(out.contains(x));
        }
        assert(s.to_multiset().count(x) > 0) by {
            assert(s.contains(x));
        }
        assert(out.to_multiset() =~= s.to_multiset()) by {
            assert forall|v: IssueView| out.to_multiset().count(v) == s.to_multiset().count(v) by {
                assert(out.to_multiset().remove(x).count(v) == s.to_multiset().remove(x).count(v));
            }
        }
    }
}

/// What is in the ready set: the issues that are ready, all of them and no
/// other.
pub proof fn lemma_ready_set_membership(issues: Seq<IssueView>, edges: Seq<EdgeView>, x: IssueView)
    ensures
        ready_set(issues, edges).contains(x) <==> issues.contains(x) && is_ready(x, edges, issues),
{
    broadcast use vstd::seq_lib::group_to_multiset_ensures;

    let pred = |i: IssueView| is_ready(i, edges, issues);
    let picked = issues.filter(pred);
    lemma_ordered_permutes(picked);
    assert(ordered(picked).contains(x) <==> picked.contains(x)) by {
        assert(ordered(picked).to_multiset().count(x) == picked.to_multiset().count(x));
    }
    if picked.contains(x) {
        issues.lemma_filter_contains_rev(pred, x);
        let k = choose|k: int| 0 <= k < picked.len() && picked[k] == x;
        issues.lemma_filter_pred(pred, k);
    }
    if issues.contains(x) && is_ready(x, edges, issues) {
        let k = choose|k: int| 0 <= k < issues.len() && issues[k] == x;
        issues.lemma_filter_contains(pred, k);
    }
}

/// Dependency readiness: of two open, unclaimed issues of which the first
/// needs the second, and with no other edge, the second is ready and the
/// first is not; once the second is closed, the first is ready.
pub proof fn lemma_dependency_readiness(a: IssueView, b: IssueView, e: EdgeView, b_closed: IssueView)
    requires
        a.id != b.id,
        a.status == Status::Open && !a.claimed,
        b.status == Status::Open && !b.claimed,
        e.edge_type == EdgeType::DependsOn && e.source == a.id && e.target == b.id,
        b_closed.id == b.id && b_closed.status == Status::Closed,
    ensures
        ready_set(seq![a, b], seq![e]).contains(b),
        !ready_set(seq![a, b], seq![e]).contains(a),
        ready_set(seq![a, b_closed], seq![e]).contains(a),
        !ready_set(seq![a, b_closed], seq![e]).contains(b_closed),
{
    let edges = seq![e];
    let open = seq![a, b];
    let done = seq![a, b_closed];
    crate::snapshot::lemma_issue_pos(open, b.id);
    crate::snapshot::lemma_issue_pos(done, b.id);
    assert(open[1] == b && done[1] == b_closed);
    assert(open[0] == a && done[0] == a);
    assert(crate::snapshot::issue_pos(open, b.id) == 1) by {
        if crate::snapshot::issue_pos(open, b.id) != 1 {
            assert(open[0].id != b.id);
        }
    }
    assert(crate::snapshot::issue_pos(done, b.id) == 1) by {
        if crate::snapshot::issue_pos(done, b.id) != 1 {
            assert(done[0].id != b.id);
        }
    }
    assert(unclosed(open, b.id));
    assert(!unclosed(done, b.id));
    assert(holds_back(edges[0], a.id, open));
    assert(blocked(a.id, edges, open));
    assert(!blocked(b.id, edges, open)) by {
        if blocked(b.id, edges, open) {
            let k = choose|k: int| 0 <= k < edges.len() && holds_back(#[trigger] edges[k], b.id, open);
            assert(edges[k] == e);
        }
    }
    assert(!blocked(a.id, edges, done)) by {
        if blocked(a.id, edges, done) {
            let k = choose|k: int| 0 <= k < edges.len() && holds_back(#[trigger] edges[k], a.id, done);
            assert(edges[k] == e);
        }
    }
    assert(open.contains(open[1]) && open.contains(open[0]));
    assert(done.contains(done[0]) && done.contains(done[1]));
    lemma_ready_set_membership(open, edges, a);
    lemma_ready_set_membership(open, edges, b);
    lemma_ready_set_membership(done, edges, a);
    lemma_ready_set_membership(done, edges, b_closed);
}

/// True when `issues` has an unclosed issue with identifier `id`.
fn is_unclosed(issues: &Vec<Issue>, id: &str) -> (r: bool)
    ensures
        r == unclosed(issue_views(issues@), id@),
{
    let k = find_issue(issues, id);
    if k < issues.len() {
        assert(issue_views(issues@)[k as int] == issues@[k as int]@);
        issues[k].status != Status::Closed
    } else {
        false
    }
}

/// True when some edge holds the issue `issue_id` back: an outgoing
/// `DependsOn` or `ParentChild` to an issue that is not closed, or an
/// incoming `Blocks` from one. Edges of the other two types never block.
pub fn is_blocked(issue_id: &str, edges: &Vec<Edge>, issues: &Vec<Issue>) -> (r: bool)
    ensures
        r == blocked(issue_id@, edge_views(edges@), issue_views(issues@)),
{
    let ghost ev = edge_views(edges@);
    let ghost iv = issue_views(issues@);
    let mut i: usize = 0;
    while i < edges.len()
        invariant
            i <= edges.len(),
            ev == edge_views(edges@),
            iv == issue_views(issues@),
            forall|k: int| 0 <= k < i ==> !holds_back(#[trigger] ev[k], issue_id@, iv),
        decreases edges.len() - i,
    {
        let e = &edges[i];
        assert(ev[i as int] == e@);
        let hit = match e.edge_type {
            EdgeType::DependsOn => str_eq(e.source.as_str(), issue_id) && is_unclosed(
                issues,
                e.target.as_str(),
            ),
            EdgeType::Blocks => str_eq(e.target.as_str(), issue_id) && is_unclosed(
                issues,
                e.source.as_str(),
            ),
            EdgeType::ParentChild => str_eq(e.source.as_str(), issue_id) && is_unclosed(
                issues,
                e.target.as_str(),
            ),
            EdgeType::RelatesTo => false,
            EdgeType::Duplicates => false,
        };
        if hit {
            return true;
        }
        i += 1;
    }
    false
}

/// True when `a` may stand before `b` in a listing.
fn may_precede(a: &Issue, b: &Issue) -> (r: bool)
    ensures
        r == before_or_level(a@, b@),
{
    let ra = a.priority.rank();
    let rb = b.priority.rank();
    ra < rb || (ra == rb && a.created_at <= b.created_at)
}

/// Puts issues in listing order: by priority rank, then by creation time.
/// Issues that agree in both keep the order in which they were given.
pub fn sort_issues(issues: &Vec<Issue>) -> (r: Vec<Issue>)
    ensures
        issue_views(r@) == ordered(issue_views(issues@)),
        in_order(issue_views(r@)),
        issue_views(r@).to_multiset() == issue_views(issues@).to_multiset(),
{
    let ghost s = issue_views(issues@);
    let n = issues.len();
    let mut out: Vec<Issue> = Vec::new();
    let mut i: usize = n;
    proof {
        assert(s.subrange(n as int, n as int) =~= Seq::<IssueView>::empty());
        assert(issue_views(out@) =~= Seq::<IssueView>::empty());
    }
    while i > 0
        invariant
            i <= n,
            n == issues.len(),
            s == issue_views(issues@),
            issue_views(out@) == ordered(s.subrange(i as int, n as int)),
        decreases i,
    {
        i -= 1;
        let x = &issues[i];
        let ghost rest = issue_views(out@);
        proof {
            assert(s.subrange(i as int, n as int).drop_first() =~= s.subrange(i + 1, n as int));
            assert(s.subrange(i as int, n as int)[0] == x@);
        }
        let mut k: usize = 0;
        while k < out.len() && !may_precede(x, &out[k])
            invariant
                k <= out.len(),
                rest == issue_views(out@),
                forall|j: int| 0 <= j < k ==> !before_or_level(x@, #[trigger] rest[j]),
            decreases out.len() - k,
        {
            assert(rest[k as int] == out@[k as int]@);
            k += 1;
        }
        proof {
            lemma_place(rest, x@);
            if k < out.len() {
                assert(rest[k as int] == out@[k as int]@);
            }
            let p = place(rest, x@);
            if p < k {
                assert(before_or_level(x@, rest[p]));
            } else if k < p {
                assert(!before_or_level(x@, rest[k as int]));
            }
        }
        out.insert(k, x.duplicate());
        assert(issue_views(out@) =~= rest.insert(k as int, x@));
    }
    proof {
        lemma_subrange_all(s);
        lemma_ordered_in_order(s);
        lemma_ordered_permutes(s);
    }
    out
}

/// The ready set: the issues that are open, unclaimed and not blocked, in
/// listing order.
pub fn ready(issues: &Vec<Issue>, edges: &Vec<Edge>) -> (r: Vec<Issue>)
    ensures
        issue_views(r@) == ready_set(issue_views(issues@), edge_views(edges@)),
{
    let ghost iv = issue_views(issues@);
    let ghost ev = edge_views(edges@);
    let ghost pred = |x: IssueView| is_ready(x, ev, iv);
    let mut picked: Vec<Issue> = Vec::new();
    let mut i: usize = 0;
    proof {
        lemma_filter_none(iv, pred);
        assert(issue_views(picked@) =~= Seq::<IssueView>::empty());
    }
    while i < issues.len()
        invariant
            i <= issues.len(),
            iv == issue_views(issues@),
            ev == edge_views(edges@),
            pred == |x: IssueView| is_ready(x, ev, iv),
            issue_views(picked@) == iv.subrange(0, i as int).filter(pred),
        decreases issues.len() - i,
    {
        let x = &issues[i];
        let ghost before = issue_views(picked@);
        proof {
            lemma_filter_next(iv, i as int, pred);
            assert(iv[i as int] == x@);
        }
        if x.status == Status::Open && !x.claimed && !is_blocked(x.id.as_str(), edges, issues) {
            picked.push(x.duplicate());
            assert(issue_views(picked@) =~= before.push(x@));
        }
        i += 1;
    }
    proof {
        lemma_subrange_all(iv);
    }
    sort_issues(&picked)
}

/// A listing: the issues with the given status and type, where one is
/// given, in listing order.
pub fn list(
    issues: &Vec<Issue>,
    status: Option<Status>,
    issue_type: Option<IssueType>,
) -> (r: Vec<Issue>)
    ensures
        issue_views(r@) == listing(issue_views(issues@), status, issue_type),
{
    let ghost iv = issue_views(issues@);
    let ghost pred = |x: IssueView| listed(x, status, issue_type);
    let mut picked: Vec<Issue> = Vec::new();
    let mut i: usize = 0;
    proof {
        lemma_filter_none(iv, pred);
        assert(issue_views(picked@) =~= Seq::<IssueView>::empty());
    }
    while i < issues.len()
        invariant
            i <= issues.len(),
            iv == issue_views(issues@),
            pred == |x: IssueView| listed(x, status, issue_type),
            issue_views(picked@) == iv.subrange(0, i as int).filter(pred),
        decreases issues.len() - i,
    {
        let x = &issues[i];
        let ghost before = issue_views(picked@);
        proof {
            lemma_filter_next(iv, i as int, pred);
            assert(iv[i as int] == x@);
        }
        let status_ok = match status {
            Some(s) => x.status == s,
            None => true,
        };
        let type_ok = match issue_type {
            Some(t) => x.issue_type == t,
            None => true,
        };
        if status_ok && type_ok {
            picked.push(x.duplicate());
            assert(issue_views(picked@) =~= before.push(x@));
        }
        i += 1;
    }
    proof {
        lemma_subrange_all(iv);
    }
    sort_issues(&picked)
}

} // verus!
