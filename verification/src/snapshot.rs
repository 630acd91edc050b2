//! The snapshot: the whole world of issues and edges at one point in
//! history, as the tree of one commit holds it.
//!
//! The `issues/` subtree has one entry per issue, named by the issue's
//! identifier; the `edges/` subtree has one entry per edge, named
//! `<source>_<target>_<type>`. An issue is identified by its identifier and
//! an edge by its source, target and type: a record that is written again
//! replaces what was there. A record of another schema version than the
//! engine's is never written.

use vstd::prelude::*;
use vstd::string::StringExecFns;
use crate::error::{Error, ErrorView};
use crate::resolve::{lemma_match_is_present, resolution, resolve_prefix, resolves_as};
use crate::text::{owned, str_eq, views};
use crate::types::{
    edge_type_token, edge_views, issue_views, Edge, EdgeType, EdgeView, Issue, IssueView,
    SCHEMA_VERSION,
};
use crate::dag::Node;

verus! {

/// The name of the reference whose tip is the current snapshot.
pub const SNAPSHOT_REF: &'static str = "refs/sterna/snapshot";

/// The name of the reference that holds a fetched snapshot while it is merged.
pub const REMOTE_REF: &'static str = "refs/sterna/remote";

/// The ref-spec that pushes the snapshot to a peer.
pub const PUSH_REFSPEC: &'static str = "refs/sterna/snapshot:refs/sterna/snapshot";

/// The ref-spec that fetches a peer's snapshot.
pub const FETCH_REFSPEC: &'static str = "refs/sterna/snapshot:refs/sterna/remote";

/// The name of the subtree of issues.
pub const ISSUES_DIR: &'static str = "issues";

/// The name of the subtree of edges.
pub const EDGES_DIR: &'static str = "edges";

/// The file mode of a record: a regular file.
pub const BLOB_MODE: i32 = 0o100644;

/// The file mode of a subtree: a directory.
pub const TREE_MODE: i32 = 0o040000;

/// The name of the lock file in the host repository's metadata directory.
pub const LOCK_FILE: &'static str = "sterna.lock";

/// The name of an edge's entry: `<source>_<target>_<type>`.
pub open spec fn entry_name(e: EdgeView) -> Seq<char> {
    triple_name(e.source, e.target, e.edge_type)
}

/// The entry name of the edge from `source` to `target` of type `edge_type`.
pub open spec fn triple_name(source: Node, target: Node, edge_type: EdgeType) -> Seq<char> {
    source + "_"@ + target + "_"@ + edge_type_token(edge_type)
}

/// The first position in `s` of the issue with identifier `id`, or the
/// length of `s` where there is none.
pub open spec fn issue_pos(s: Seq<IssueView>, id: Node) -> int
    decreases s.len(),
{
    if s.len() == 0 {
        0
    } else if s[0].id == id {
        0
    } else {
        1 + issue_pos(s.drop_first(), id)
    }
}

/// The first position in `s` of the edge from `source` to `target` of type
/// `edge_type`, or the length of `s` where there is none.
pub open spec fn edge_pos(s: Seq<EdgeView>, source: Node, target: Node, edge_type: EdgeType) -> int
    decreases s.len(),
{
    if s.len() == 0 {
        0
    } else if s[0].is_triple(source, target, edge_type) {
        0
    } else {
        1 + edge_pos(s.drop_first(), source, target, edge_type)
    }
}

/// No two issues of `s` share an identifier.
pub open spec fn ids_unique(s: Seq<IssueView>) -> bool {
    forall|a: int, b: int| 0 <= a < s.len() && 0 <= b < s.len() && a != b ==> s[a].id != s[b].id
}

/// No two edges of `s` share source, target and type.
pub open spec fn triples_unique(s: Seq<EdgeView>) -> bool {
    forall|a: int, b: int| 0 <= a < s.len() && 0 <= b < s.len() && a != b ==> !s[a].same_triple(s[b])
}

/// True when some issue of `s` has the identifier `id`.
pub open spec fn has_issue(s: Seq<IssueView>, id: Node) -> bool {
    exists|k: int| 0 <= k < s.len() && (#[trigger] s[k]).id == id
}

/// True when `s` holds the edge from `source` to `target` of type `edge_type`.
pub open spec fn has_triple(
    s: Seq<EdgeView>,
    source: Node,
    target: Node,
    edge_type: EdgeType,
) -> bool {
    exists|k: int| 0 <= k < s.len() && (#[trigger] s[k]).is_triple(source, target, edge_type)
}

/// The issues after `x` is written under its identifier: in the place of
/// the issue that had the identifier, or at the end.
pub open spec fn with_issue(s: Seq<IssueView>, x: IssueView) -> Seq<IssueView> {
    let k = issue_pos(s, x.id);
    if k < s.len() {
        s.update(k, x)
    } else {
        s.push(x)
    }
}

/// The edges after `e` is written: in the place of the edge with the same
/// source, target and type, or at the end.
pub open spec fn with_edge(s: Seq<EdgeView>, e: EdgeView) -> Seq<EdgeView> {
    let k = edge_pos(s, e.source, e.target, e.edge_type);
    if k < s.len() {
        s.update(k, e)
    } else {
        s.push(e)
    }
}

/// The edges after the edge from `source` to `target` of type `edge_type`
/// is taken away, if there is one.
pub open spec fn without_edge(
    s: Seq<EdgeView>,
    source: Node,
    target: Node,
    edge_type: EdgeType,
) -> Seq<
    EdgeView,
> {
    let k = edge_pos(s, source, target, edge_type);
    if k < s.len() {
        s.remove(k)
    } else {
        s
    }
}

/// Where `issue_pos` points, the identifier is found, and nowhere before.
pub proof fn lemma_issue_pos(s: Seq<IssueView>, id: Node)
    ensures
        0 <= issue_pos(s, id) <= s.len(),
        issue_pos(s, id) < s.len() ==> s[issue_pos(s, id)].id == id,
        forall|k: int| 0 <= k < issue_pos(s, id) ==> (#[trigger] s[k]).id != id,
        has_issue(s, id) <==> issue_pos(s, id) < s.len(),
    decreases s.len(),
{
    if s.len() > 0 && s[0].id != id {
        let rest = s.drop_first();
        lemma_issue_pos(rest, id);
        assert forall|k: int| 0 <= k < issue_pos(s, id) implies (#[trigger] s[k]).id != id by {
            if k > 0 {
                assert(rest[k - 1] == s[k]);
            }
        }
        if issue_pos(rest, id) < rest.len() {
            assert(rest[issue_pos(rest, id)] == s[issue_pos(s, id)]);
        }
    }
    if has_issue(s, id) {
        let k = choose|k: int| 0 <= k < s.len() && (#[trigger] s[k]).id == id;
        assert(issue_pos(s, id) <= k);
    }
}

/// Where `edge_pos` points, the edge is found, and nowhere before.
pub proof fn lemma_edge_pos(s: Seq<EdgeView>, source: Node, target: Node, edge_type: EdgeType)
    ensures
        0 <= edge_pos(s, source, target, edge_type) <= s.len(),
        edge_pos(s, source, target, edge_type) < s.len() ==> s[edge_pos(
            s,
            source,
            target,
            edge_type,
        )].is_triple(source, target, edge_type),
        forall|k: int|
            0 <= k < edge_pos(s, source, target, edge_type) ==> !(#[trigger] s[k]).is_triple(
                source,
                target,
                edge_type,
            ),
        has_triple(s, source, target, edge_type) <==> edge_pos(s, source, target, edge_type)
            < s.len(),
    decreases s.len(),
{
    let pos = edge_pos(s, source, target, edge_type);
    if s.len() > 0 && !s[0].is_triple(source, target, edge_type) {
        let rest = s.drop_first();
        lemma_edge_pos(rest, source, target, edge_type);
        let pr = edge_pos(rest, source, target, edge_type);
        assert forall|k: int| 0 <= k < pos implies !(#[trigger] s[k]).is_triple(
            source,
            target,
            edge_type,
        ) by {
            if k > 0 {
                assert(rest[k - 1] == s[k]);
            }
        }
        if pr < rest.len() {
            assert(rest[pr] == s[pos]);
        }
    }
    if has_triple(s, source, target, edge_type) {
        let k = choose|k: int|
            0 <= k < s.len() && (#[trigger] s[k]).is_triple(source, target, edge_type);
        assert(pos <= k);
    }
}

/// Writing an issue keeps the identifiers distinct.
pub proof fn lemma_with_issue_unique(s: Seq<IssueView>, x: IssueView)
    requires
        ids_unique(s),
    ensures
        ids_unique(with_issue(s, x)),
{
    lemma_issue_pos(s, x.id);
    let k = issue_pos(s, x.id);
    let t = with_issue(s, x);
    assert forall|a: int, b: int| 0 <= a < t.len() && 0 <= b < t.len() && a != b implies t[a].id
        != t[b].id by {
        if k < s.len() {
            if a == k {
                assert(s[k].id == x.id);
                assert(t[b] == s[b]);
            } else if b == k {
                assert(s[k].id == x.id);
                assert(t[a] == s[a]);
            }
        } else {
            if a == s.len() {
                assert(t[b] == s[b]);
            } else if b == s.len() {
                assert(t[a] == s[a]);
            }
        }
    }
}

/// Writing an edge keeps the triples distinct.
pub proof fn lemma_with_edge_unique(s: Seq<EdgeView>, e: EdgeView)
    requires
        triples_unique(s),
    ensures
        triples_unique(with_edge(s, e)),
{
    lemma_edge_pos(s, e.source, e.target, e.edge_type);
    let k = edge_pos(s, e.source, e.target, e.edge_type);
    let t = with_edge(s, e);
    assert forall|a: int, b: int| 0 <= a < t.len() && 0 <= b < t.len() && a != b implies !t[a].same_triple(
        t[b],
    ) by {
        if k < s.len() {
            if a == k {
                assert(t[b] == s[b]);
                assert(!s[k].same_triple(s[b]));
            } else if b == k {
                assert(t[a] == s[a]);
                assert(!s[a].same_triple(s[k]));
            } else {
                assert(t[a] == s[a] && t[b] == s[b]);
            }
        } else {
            if a == s.len() {
                assert(t[b] == s[b]);
            } else if b == s.len() {
                assert(t[a] == s[a]);
            } else {
                assert(t[a] == s[a] && t[b] == s[b]);
            }
        }
    }
}

/// Taking an edge away keeps the triples distinct.
pub proof fn lemma_without_edge_unique(
    s: Seq<EdgeView>,
    source: Node,
    target: Node,
    edge_type: EdgeType,
)
    requires
        triples_unique(s),
    ensures
        triples_unique(without_edge(s, source, target, edge_type)),
{
    lemma_edge_pos(s, source, target, edge_type);
    let k = edge_pos(s, source, target, edge_type);
    let t = without_edge(s, source, target, edge_type);
    assert forall|a: int, b: int| 0 <= a < t.len() && 0 <= b < t.len() && a != b implies !t[a].same_triple(
        t[b],
    ) by {
        if k < s.len() {
            let a2 = if a < k { a } else { a + 1 };
            let b2 = if b < k { b } else { b + 1 };
            assert(t[a] == s[a2] && t[b] == s[b2]);
        }
    }
}

/// True when every issue of `s` has the engine's schema version.
pub open spec fn issues_versioned(s: Seq<IssueView>) -> bool {
    forall|k: int| 0 <= k < s.len() ==> (#[trigger] s[k]).schema_version == SCHEMA_VERSION
}

/// True when every edge of `s` has the engine's schema version.
pub open spec fn edges_versioned(s: Seq<EdgeView>) -> bool {
    forall|k: int| 0 <= k < s.len() ==> (#[trigger] s[k]).schema_version == SCHEMA_VERSION
}

/// True when every record of the snapshot has the engine's schema version.
pub open spec fn versioned(s: SnapshotView) -> bool {
    issues_versioned(s.issues) && edges_versioned(s.edges)
}

/// Writing an issue of the engine's schema version among such issues
/// leaves such issues.
pub proof fn lemma_with_issue_versioned(s: Seq<IssueView>, x: IssueView)
    requires
        issues_versioned(s),
        x.schema_version == SCHEMA_VERSION,
    ensures
        issues_versioned(with_issue(s, x)),
{
    lemma_issue_pos(s, x.id);
    let t = with_issue(s, x);
    let pos = issue_pos(s, x.id);
    assert forall|k: int| 0 <= k < t.len() implies (#[trigger] t[k]).schema_version
        == SCHEMA_VERSION by {
        if pos < s.len() {
            if k != pos {
                assert(t[k] == s[k]);
            }
        } else if k < s.len() {
            assert(t[k] == s[k]);
        }
    }
}

/// Writing an edge of the engine's schema version among such edges leaves
/// such edges.
pub proof fn lemma_with_edge_versioned(s: Seq<EdgeView>, e: EdgeView)
    requires
        edges_versioned(s),
        e.schema_version == SCHEMA_VERSION,
    ensures
        edges_versioned(with_edge(s, e)),
{
    lemma_edge_pos(s, e.source, e.target, e.edge_type);
    let t = with_edge(s, e);
    let pos = edge_pos(s, e.source, e.target, e.edge_type);
    assert forall|k: int| 0 <= k < t.len() implies (#[trigger] t[k]).schema_version
        == SCHEMA_VERSION by {
        if pos < s.len() {
            if k != pos {
                assert(t[k] == s[k]);
            }
        } else if k < s.len() {
            assert(t[k] == s[k]);
        }
    }
}

/// Taking an edge away from edges of the engine's schema version leaves
/// such edges.
pub proof fn lemma_without_edge_versioned(
    s: Seq<EdgeView>,
    source: Node,
    target: Node,
    edge_type: EdgeType,
)
    requires
        edges_versioned(s),
    ensures
        edges_versioned(without_edge(s, source, target, edge_type)),
{
    lemma_edge_pos(s, source, target, edge_type);
    let pos = edge_pos(s, source, target, edge_type);
    let t = without_edge(s, source, target, edge_type);
    assert forall|k: int| 0 <= k < t.len() implies (#[trigger] t[k]).schema_version
        == SCHEMA_VERSION by {
        if pos < s.len() {
            if k < pos {
                assert(t[k] == s[k]);
            } else {
                assert(t[k] == s[k + 1]);
            }
        }
    }
}

/// A snapshot as a mathematical value: its issues and its edges, each in
/// the order in which they were first written.
pub struct SnapshotView {
    pub issues: Seq<IssueView>,
    pub edges: Seq<EdgeView>,
}

impl SnapshotView {
    /// The invariant of a snapshot: no two issues share an identifier, and
    /// no two edges share source, target and type.
    pub open spec fn wf(self) -> bool {
        ids_unique(self.issues) && triples_unique(self.edges)
    }

    /// The issue with identifier `id`, if the snapshot has one.
    pub open spec fn issue(self, id: Node) -> Option<IssueView> {
        lookup(self.issues, id)
    }
}

/// The first issue of `s` with identifier `id`, if there is one.
pub open spec fn lookup(s: Seq<IssueView>, id: Node) -> Option<IssueView> {
    let k = issue_pos(s, id);
    if k < s.len() {
        Some(s[k])
    } else {
        None
    }
}

/// The set of all issues and edges at one point in history. No two issues
/// of a snapshot share an identifier, no two edges share source, target and
/// type, and every record has the engine's schema version.
pub struct Snapshot {
    issues: Vec<Issue>,
    edges: Vec<Edge>,
}

impl View for Snapshot {
    type V = SnapshotView;

    closed spec fn view(&self) -> SnapshotView {
        SnapshotView { issues: issue_views(self.issues@), edges: edge_views(self.edges@) }
    }
}

impl Snapshot {
    #[verifier::type_invariant]
    pub open spec fn inv(self) -> bool {
        self@.wf() && versioned(self@)
    }

    /// The snapshot that initialization writes: no issue and no edge.
    pub fn new() -> (r: Snapshot)
        ensures
            r@.issues == Seq::<IssueView>::empty(),
            r@.edges == Seq::<EdgeView>::empty(),
    {
        let issues: Vec<Issue> = Vec::new();
        let edges: Vec<Edge> = Vec::new();
        proof {
            assert(issue_views(issues@) =~= Seq::<IssueView>::empty());
            assert(edge_views(edges@) =~= Seq::<EdgeView>::empty());
        }
        Snapshot { issues, edges }
    }

    /// The issues of the snapshot.
    pub fn issues(&self) -> (r: &Vec<Issue>)
        ensures
            issue_views(r@) == self@.issues,
            self@.wf(),
            versioned(self@),
    {
        proof {
            use_type_invariant(self);
        }
        &self.issues
    }

    /// The edges of the snapshot.
    pub fn edges(&self) -> (r: &Vec<Edge>)
        ensures
            edge_views(r@) == self@.edges,
            self@.wf(),
            versioned(self@),
    {
        proof {
            use_type_invariant(self);
        }
        &self.edges
    }

    /// Writes an issue under its identifier: in the place of the issue that
    /// had the identifier, or as a new one. The edges stay as they are. A
    /// record of another schema version than the engine's is refused, and
    /// the snapshot stays as it is.
    pub fn put_issue(&mut self, issue: Issue) -> (r: Result<(), Error>)
        ensures
            issue.schema_version != SCHEMA_VERSION ==> r is Err && r->Err_0@
                == (ErrorView::SchemaMismatch {
                expected: SCHEMA_VERSION,
                found: issue.schema_version,
            }) && final(self)@ == old(self)@,
            issue.schema_version == SCHEMA_VERSION ==> r is Ok && final(self)@.issues
                == with_issue(old(self)@.issues, issue@) && final(self)@.edges == old(self)@.edges,
    {
        proof {
            use_type_invariant(&*self);
        }
        if issue.schema_version != SCHEMA_VERSION {
            return Err(
                Error::SchemaMismatch { expected: SCHEMA_VERSION, found: issue.schema_version },
            );
        }
        let ghost before = issue_views(self.issues@);
        let k = find_issue(&self.issues, issue.id.as_str());
        proof {
            lemma_with_issue_unique(before, issue@);
            lemma_with_issue_versioned(before, issue@);
        }
        let mut list: Vec<Issue> = Vec::new();
        assert(issue_views(list@) =~= Seq::<IssueView>::empty());
        std::mem::swap(&mut self.issues, &mut list);
        if k < list.len() {
            list.set(k, issue);
            assert(issue_views(list@) =~= before.update(k as int, issue@));
        } else {
            list.push(issue);
            assert(issue_views(list@) =~= before.push(issue@));
        }
        self.issues = list;
        Ok(())
    }
}

impl Snapshot {
    /// Writes an edge: in the place of the edge with the same source, target
    /// and type, or as a new one. The issues stay as they are. A record of
    /// another schema version than the engine's is refused, and the snapshot
    /// stays as it is.
    pub fn put_edge(&mut self, edge: Edge) -> (r: Result<(), Error>)
        ensures
            edge.schema_version != SCHEMA_VERSION ==> r is Err && r->Err_0@
                == (ErrorView::SchemaMismatch {
                expected: SCHEMA_VERSION,
                found: edge.schema_version,
            }) && final(self)@ == old(self)@,
            edge.schema_version == SCHEMA_VERSION ==> r is Ok && final(self)@.edges == with_edge(
                old(self)@.edges,
                edge@,
            ) && final(self)@.issues == old(self)@.issues,
    {
        proof {
            use_type_invariant(&*self);
        }
        if edge.schema_version != SCHEMA_VERSION {
            return Err(
                Error::SchemaMismatch { expected: SCHEMA_VERSION, found: edge.schema_version },
            );
        }
        let ghost before = edge_views(self.edges@);
        let k = find_edge(&self.edges, edge.source.as_str(), edge.target.as_str(), edge.edge_type);
        proof {
            lemma_with_edge_unique(before, edge@);
            lemma_with_edge_versioned(before, edge@);
        }
        let mut list: Vec<Edge> = Vec::new();
        assert(edge_views(list@) =~= Seq::<EdgeView>::empty());
        std::mem::swap(&mut self.edges, &mut list);
        if k < list.len() {
            list.set(k, edge);
            assert(edge_views(list@) =~= before.update(k as int, edge@));
        } else {
            list.push(edge);
            assert(edge_views(list@) =~= before.push(edge@));
        }
        self.edges = list;
        Ok(())
    }

    /// Takes away the edge from `source` to `target` of type `edge_type`,
    /// and says whether there was one. Nothing changes where there was none.
    pub fn remove_edge(&mut self, source: &str, target: &str, edge_type: EdgeType) -> (found: bool)
        ensures
            found == has_triple(old(self)@.edges, source@, target@, edge_type),
            final(self)@.edges == without_edge(old(self)@.edges, source@, target@, edge_type),
            final(self)@.issues == old(self)@.issues,
    {
        proof {
            use_type_invariant(&*self);
        }
        let ghost before = edge_views(self.edges@);
        let k = find_edge(&self.edges, source, target, edge_type);
        proof {
            lemma_edge_pos(before, source@, target@, edge_type);
        }
        if k >= self.edges.len() {
            return false;
        }
        proof {
            lemma_without_edge_unique(before, source@, target@, edge_type);
            lemma_without_edge_versioned(before, source@, target@, edge_type);
        }
        let mut list: Vec<Edge> = Vec::new();
        assert(edge_views(list@) =~= Seq::<EdgeView>::empty());
        std::mem::swap(&mut self.edges, &mut list);
        list.remove(k);
        assert(edge_views(list@) =~= before.remove(k as int));
        self.edges = list;
        true
    }

    /// True when the snapshot holds the edge from `source` to `target` of
    /// type `edge_type`.
    pub fn has_edge(&self, source: &str, target: &str, edge_type: EdgeType) -> (r: bool)
        ensures
            r == has_triple(self@.edges, source@, target@, edge_type),
    {
        let k = find_edge(&self.edges, source, target, edge_type);
        proof {
            lemma_edge_pos(edge_views(self.edges@), source@, target@, edge_type);
        }
        k < self.edges.len()
    }

    /// The issue with identifier `id`, if the snapshot has one.
    pub fn get(&self, id: &str) -> (r: Option<&Issue>)
        ensures
            match r {
                Some(issue) => self@.issue(id@) == Some(issue@),
                None => self@.issue(id@) is None,
            },
    {
        let k = find_issue(&self.issues, id);
        if k < self.issues.len() {
            Some(&self.issues[k])
        } else {
            None
        }
    }

    /// The identifiers of the issues, in the order of the snapshot.
    pub fn ids(&self) -> (r: Vec<String>)
        ensures
            views(r@) == self@.issues.map_values(|i: IssueView| i.id),
    {
        issue_ids(&self.issues)
    }

    /// A copy of the snapshot.
    pub fn duplicate(&self) -> (r: Snapshot)
        ensures
            r@ == self@,
    {
        proof {
            use_type_invariant(self);
        }
        let issues = copy_issues(&self.issues);
        let edges = copy_edges(&self.edges);
        Snapshot { issues, edges }
    }
}

/// The identifiers of a list of issues, in order.
pub fn issue_ids(issues: &Vec<Issue>) -> (r: Vec<String>)
    ensures
        views(r@) == issue_views(issues@).map_values(|i: IssueView| i.id),
{
    let mut out: Vec<String> = Vec::new();
    let mut i: usize = 0;
    while i < issues.len()
        invariant
            i <= issues.len(),
            out@.len() == i,
            forall|k: int| 0 <= k < i ==> (#[trigger] out@[k])@ == issues@[k].id@,
        decreases issues.len() - i,
    {
        out.push(issues[i].id.clone());
        i += 1;
    }
    assert(views(out@) =~= issue_views(issues@).map_values(|i: IssueView| i.id));
    out
}

/// A copy of a list of issues.
pub fn copy_issues(issues: &Vec<Issue>) -> (r: Vec<Issue>)
    ensures
        issue_views(r@) == issue_views(issues@),
{
    let mut out: Vec<Issue> = Vec::new();
    let mut i: usize = 0;
    while i < issues.len()
        invariant
            i <= issues.len(),
            out@.len() == i,
            forall|k: int| 0 <= k < i ==> (#[trigger] out@[k])@ == issues@[k]@,
        decreases issues.len() - i,
    {
        out.push(issues[i].duplicate());
        i += 1;
    }
    assert(issue_views(out@) =~= issue_views(issues@));
    out
}

/// A copy of a list of edges.
pub fn copy_edges(edges: &Vec<Edge>) -> (r: Vec<Edge>)
    ensures
        edge_views(r@) == edge_views(edges@),
{
    let mut out: Vec<Edge> = Vec::new();
    let mut i: usize = 0;
    while i < edges.len()
        invariant
            i <= edges.len(),
            out@.len() == i,
            forall|k: int| 0 <= k < i ==> (#[trigger] out@[k])@ == edges@[k]@,
        decreases edges.len() - i,
    {
        out.push(edges[i].duplicate());
        i += 1;
    }
    assert(edge_views(out@) =~= edge_views(edges@));
    out
}

/// The entry name of the edge from `source` to `target` of type
/// `edge_type`: `<source>_<target>_<type>`.
pub fn name_of(source: &str, target: &str, edge_type: EdgeType) -> (r: String)
    ensures
        r@ == triple_name(source@, target@, edge_type),
{
    let mut out = owned(source);
    out.append("_");
    out.append(target);
    out.append("_");
    out.append(edge_type.as_str());
    out
}

/// The name of an edge's entry in the `edges/` subtree.
pub fn edge_name(edge: &Edge) -> (r: String)
    ensures
        r@ == entry_name(edge@),
{
    name_of(edge.source.as_str(), edge.target.as_str(), edge.edge_type)
}

/// The first position in `edges` of the edge from `source` to `target` of
/// type `edge_type`, or the length of `edges` where there is none.
pub fn find_edge(edges: &Vec<Edge>, source: &str, target: &str, edge_type: EdgeType) -> (k: usize)
    ensures
        k == edge_pos(edge_views(edges@), source@, target@, edge_type),
{
    let ghost s = edge_views(edges@);
    let mut i: usize = 0;
    while i < edges.len()
        invariant
            i <= edges.len(),
            s == edge_views(edges@),
            forall|j: int| 0 <= j < i ==> !(#[trigger] s[j]).is_triple(source@, target@, edge_type),
        decreases edges.len() - i,
    {
        if edges[i].is_triple(source, target, edge_type) {
            proof {
                lemma_edge_pos(s, source@, target@, edge_type);
                assert(s[i as int].is_triple(source@, target@, edge_type));
                if edge_pos(s, source@, target@, edge_type) > i {
                    assert(false);
                }
            }
            return i;
        }
        i += 1;
    }
    proof {
        lemma_edge_pos(s, source@, target@, edge_type);
    }
    i
}

/// True when `edges` holds the edge from `source` to `target` of type
/// `edge_type`.
pub fn holds_triple(edges: &Vec<Edge>, source: &str, target: &str, edge_type: EdgeType) -> (r: bool)
    ensures
        r == has_triple(edge_views(edges@), source@, target@, edge_type),
{
    let k = find_edge(edges, source, target, edge_type);
    proof {
        lemma_edge_pos(edge_views(edges@), source@, target@, edge_type);
    }
    k < edges.len()
}

/// The first position in `issues` of the issue with identifier `id`, or the
/// length of `issues` where there is none.
pub fn find_issue(issues: &Vec<Issue>, id: &str) -> (k: usize)
    ensures
        k == issue_pos(issue_views(issues@), id@),
{
    let ghost s = issue_views(issues@);
    let mut i: usize = 0;
    while i < issues.len()
        invariant
            i <= issues.len(),
            s == issue_views(issues@),
            forall|j: int| 0 <= j < i ==> (#[trigger] s[j]).id != id@,
        decreases issues.len() - i,
    {
        if str_eq(issues[i].id.as_str(), id) {
            proof {
                lemma_issue_pos(s, id@);
                assert(s[i as int].id == id@);
                if issue_pos(s, id@) > i {
                    assert(false);
                }
            }
            return i;
        }
        i += 1;
    }
    proof {
        lemma_issue_pos(s, id@);
        if issue_pos(s, id@) < s.len() {
            assert(s[issue_pos(s, id@)].id == id@);
        }
    }
    i
}

/// One commit of the chain: its message and the snapshot that its tree
/// holds.
pub struct Commit {
    message: String,
    snapshot: Snapshot,
}

/// A commit as a mathematical value.
pub struct CommitView {
    pub message: Seq<char>,
    pub snapshot: SnapshotView,
}

impl View for Commit {
    type V = CommitView;

    closed spec fn view(&self) -> CommitView {
        CommitView { message: self.message@, snapshot: self.snapshot@ }
    }
}

impl Commit {
    /// The message of the commit.
    pub fn message(&self) -> (r: &String)
        ensures
            r@ == self@.message,
    {
        &self.message
    }

    /// The snapshot of the commit.
    pub fn snapshot(&self) -> (r: &Snapshot)
        ensures
            r@ == self@.snapshot,
    {
        &self.snapshot
    }
}

/// The snapshot reference of one repository, with the chain of commits
/// behind it: the first commit has no parent, and each later one has the
/// commit before it as its only parent. The reference points at the last
/// commit; where the chain is empty, the reference is absent.
pub struct Store {
    commits: Vec<Commit>,
}

/// A store as a mathematical value.
pub struct StoreView {
    pub history: Seq<CommitView>,
}

impl StoreView {
    /// True when the snapshot reference exists.
    pub open spec fn initialized(self) -> bool {
        self.history.len() > 0
    }

    /// The current snapshot: that of the commit the reference points at.
    pub open spec fn tip(self) -> SnapshotView
        recommends
            self.initialized(),
    {
        self.history.last().snapshot
    }

    /// The invariant of a store: every record of every snapshot on the chain
    /// has the engine's schema version.
    pub open spec fn wf(self) -> bool {
        forall|k: int|
            0 <= k < self.history.len() ==> versioned((#[trigger] self.history[k]).snapshot)
    }

    /// The store after one more commit is written on top of the chain.
    pub open spec fn committed(self, message: Seq<char>, snapshot: SnapshotView) -> StoreView {
        StoreView { history: self.history.push(CommitView { message, snapshot }) }
    }
}

impl View for Store {
    type V = StoreView;

    closed spec fn view(&self) -> StoreView {
        StoreView { history: self.commits@.map_values(|c: Commit| c@) }
    }
}

impl Store {
    #[verifier::type_invariant]
    pub open spec fn inv(self) -> bool {
        self@.wf()
    }

    /// A repository in which the engine was never initialized.
    pub fn new() -> (r: Store)
        ensures
            r@.history == Seq::<CommitView>::empty(),
    {
        let commits: Vec<Commit> = Vec::new();
        assert(commits@.map_values(|c: Commit| c@) =~= Seq::<CommitView>::empty());
        Store { commits }
    }

    /// The number of commits on the chain.
    pub fn len(&self) -> (n: usize)
        ensures
            n == self@.history.len(),
    {
        self.commits.len()
    }

    /// The commit at position `i` of the chain, counted from the first.
    pub fn commit(&self, i: usize) -> (r: Option<&Commit>)
        ensures
            i < self@.history.len() ==> r is Some && r->Some_0@ == self@.history[i as int]
                && versioned(r->Some_0@.snapshot),
            i >= self@.history.len() ==> r is None,
    {
        proof {
            use_type_invariant(self);
        }
        if i < self.commits.len() {
            Some(&self.commits[i])
        } else {
            None
        }
    }

    /// The current snapshot, where the reference exists.
    pub fn tip(&self) -> (r: Option<&Snapshot>)
        ensures
            self@.initialized() ==> r is Some && r->Some_0@ == self@.tip() && versioned(
                self@.tip(),
            ),
            !self@.initialized() ==> r is None,
            self@.wf(),
    {
        proof {
            use_type_invariant(self);
        }
        let n = self.commits.len();
        if n == 0 {
            None
        } else {
            Some(&self.commits[n - 1].snapshot)
        }
    }

    /// Writes a commit on top of the chain and moves the reference to it.
    pub(crate) fn push_commit(&mut self, message: &str, snapshot: Snapshot)
        ensures
            final(self)@ == old(self)@.committed(message@, snapshot@),
    {
        proof {
            use_type_invariant(&*self);
            use_type_invariant(&snapshot);
        }
        let ghost before = self@.history;
        let c = Commit { message: owned(message), snapshot };
        let mut list: Vec<Commit> = Vec::new();
        std::mem::swap(&mut self.commits, &mut list);
        list.push(c);
        proof {
            let after = list@.map_values(|c: Commit| c@);
            assert(after =~= before.push(c@));
            assert forall|k: int| 0 <= k < after.len() implies versioned(
                (#[trigger] after[k]).snapshot,
            ) by {
                if k < before.len() {
                    assert(after[k] == before[k]);
                }
            }
        }
        self.commits = list;
    }

    /// Removes the reference. The commits become unreachable.
    fn clear(&mut self)
        ensures
            final(self)@.history == Seq::<CommitView>::empty(),
    {
        self.commits = Vec::new();
        assert(self@.history =~= Seq::<CommitView>::empty());
    }
}

/// The message of the commit that initialization writes.
pub open spec fn init_message() -> Seq<char> {
    "Initialize Sterna"@
}

/// The snapshot without issues and edges.
pub open spec fn empty_snapshot() -> SnapshotView {
    SnapshotView { issues: Seq::<IssueView>::empty(), edges: Seq::<EdgeView>::empty() }
}

/// The identifiers of a sequence of issues, in order.
pub open spec fn ids_of(s: Seq<IssueView>) -> Seq<Node> {
    s.map_values(|i: IssueView| i.id)
}

/// True when the snapshot reference exists.
pub fn is_initialized(store: &Store) -> (r: bool)
    ensures
        r == store@.initialized(),
{
    store.len() > 0
}

/// Initializes the engine: writes a parentless commit with an empty
/// snapshot. Fails where the reference exists already.
pub fn init(store: &mut Store) -> (r: Result<(), Error>)
    ensures
        old(store)@.initialized() ==> r is Err && r->Err_0@ == ErrorView::AlreadyInitialized
            && final(store)@ == old(store)@,
        !old(store)@.initialized() ==> r is Ok && final(store)@ == old(store)@.committed(
            init_message(),
            empty_snapshot(),
        ),
{
    if is_initialized(store) {
        return Err(Error::AlreadyInitialized);
    }
    store.push_commit("Initialize Sterna", Snapshot::new());
    Ok(())
}

/// The issues of the current snapshot.
pub fn load_issues(store: &Store) -> (r: Result<Vec<Issue>, Error>)
    ensures
        !store@.initialized() ==> r is Err && r->Err_0@ == ErrorView::NotInitialized,
        store@.initialized() ==> r is Ok && issue_views(r->Ok_0@) == store@.tip().issues
            && ids_unique(store@.tip().issues) && issues_versioned(store@.tip().issues),
{
    match store.tip() {
        None => Err(Error::NotInitialized),
        Some(snapshot) => Ok(copy_issues(snapshot.issues())),
    }
}

/// The edges of the current snapshot, in order.
pub fn load_edges(store: &Store) -> (r: Result<Vec<Edge>, Error>)
    ensures
        !store@.initialized() ==> r is Err && r->Err_0@ == ErrorView::NotInitialized,
        store@.initialized() ==> r is Ok && edge_views(r->Ok_0@) == store@.tip().edges
            && edges_versioned(store@.tip().edges),
{
    match store.tip() {
        None => Err(Error::NotInitialized),
        Some(snapshot) => Ok(copy_edges(snapshot.edges())),
    }
}

/// The identifier that a prefix stands for in the current snapshot.
pub fn find_issue_id(store: &Store, id_prefix: &str) -> (r: Result<String, Error>)
    ensures
        !store@.initialized() ==> r is Err && r->Err_0@ == ErrorView::NotInitialized,
        store@.initialized() ==> resolves_as(
            r,
            resolution(ids_of(store@.tip().issues), id_prefix@),
        ),
{
    match store.tip() {
        None => Err(Error::NotInitialized),
        Some(snapshot) => {
            let ids = snapshot.ids();
            resolve_prefix(&ids, id_prefix)
        },
    }
}

/// The issue that a prefix stands for in the current snapshot.
pub fn load_issue(store: &Store, id_prefix: &str) -> (r: Result<Issue, Error>)
    ensures
        !store@.initialized() ==> r is Err && r->Err_0@ == ErrorView::NotInitialized,
        store@.initialized() ==> match resolution(ids_of(store@.tip().issues), id_prefix@) {
            Ok(id) => r is Ok && Some(r->Ok_0@) == store@.tip().issue(id) && r->Ok_0@.id == id
                && r->Ok_0@.schema_version == SCHEMA_VERSION,
            Err(e) => r is Err && r->Err_0@ == e,
        },
{
    match store.tip() {
        None => Err(Error::NotInitialized),
        Some(snapshot) => {
            let ids = snapshot.ids();
            match resolve_prefix(&ids, id_prefix) {
                Err(e) => Err(e),
                Ok(id) => {
                    proof {
                        let s = snapshot@.issues;
                        lemma_match_is_present(ids_of(s), id_prefix@, 0);
                        assert(ids_of(s).contains(id@));
                        let k = choose|k: int| 0 <= k < ids_of(s).len() && ids_of(s)[k] == id@;
                        assert(s[k].id == id@);
                        lemma_issue_pos(s, id@);
                        assert(s[issue_pos(s, id@)].schema_version == SCHEMA_VERSION);
                    }
                    match snapshot.get(id.as_str()) {
                        Some(issue) => Ok(issue.duplicate()),
                        None => Err(Error::NotFound(owned(id_prefix))),
                    }
                },
            }
        },
    }
}

/// True when the current snapshot holds the edge from `source` to `target`
/// of type `edge_type`.
pub fn edge_exists(
    store: &Store,
    source: &str,
    target: &str,
    edge_type: EdgeType,
) -> (r: Result<bool, Error>)
    ensures
        !store@.initialized() ==> r is Err && r->Err_0@ == ErrorView::NotInitialized,
        store@.initialized() ==> r is Ok && r->Ok_0 == has_triple(
            store@.tip().edges,
            source@,
            target@,
            edge_type,
        ),
{
    match store.tip() {
        None => Err(Error::NotInitialized),
        Some(snapshot) => Ok(snapshot.has_edge(source, target, edge_type)),
    }
}

/// Saves an issue: one commit whose snapshot has the issue written under
/// its identifier and the edges as they were. A record of another schema
/// version than the engine's is refused and nothing is written.
pub fn save_issue(store: &mut Store, issue: &Issue, message: &str) -> (r: Result<(), Error>)
    ensures
        !old(store)@.initialized() ==> r is Err && r->Err_0@ == ErrorView::NotInitialized
            && final(store)@ == old(store)@,
        old(store)@.initialized() && issue.schema_version != SCHEMA_VERSION ==> r is Err
            && r->Err_0@ == (ErrorView::SchemaMismatch {
            expected: SCHEMA_VERSION,
            found: issue.schema_version,
        }) && final(store)@ == old(store)@,
        old(store)@.initialized() && issue.schema_version == SCHEMA_VERSION ==> r is Ok
            && final(store)@ == old(store)@.committed(
            message@,
            SnapshotView {
                issues: with_issue(old(store)@.tip().issues, issue@),
                edges: old(store)@.tip().edges,
            },
        ),
{
    let mut next = match store.tip() {
        None => { return Err(Error::NotInitialized); },
        Some(snapshot) => snapshot.duplicate(),
    };
    match next.put_issue(issue.duplicate()) {
        Err(e) => { return Err(e); },
        Ok(()) => {},
    }
    store.push_commit(message, next);
    Ok(())
}

/// Saves an edge: one commit whose snapshot has the edge written and the
/// issues as they were. An edge that is there already is replaced, not
/// written twice. A record of another schema version than the engine's is
/// refused and nothing is written.
pub fn save_edge(store: &mut Store, edge: &Edge, message: &str) -> (r: Result<(), Error>)
    ensures
        !old(store)@.initialized() ==> r is Err && r->Err_0@ == ErrorView::NotInitialized
            && final(store)@ == old(store)@,
        old(store)@.initialized() && edge.schema_version != SCHEMA_VERSION ==> r is Err
            && r->Err_0@ == (ErrorView::SchemaMismatch {
            expected: SCHEMA_VERSION,
            found: edge.schema_version,
        }) && final(store)@ == old(store)@,
        old(store)@.initialized() && edge.schema_version == SCHEMA_VERSION ==> r is Ok
            && final(store)@ == old(store)@.committed(
            message@,
            SnapshotView {
                issues: old(store)@.tip().issues,
                edges: with_edge(old(store)@.tip().edges, edge@),
            },
        ),
{
    let mut next = match store.tip() {
        None => { return Err(Error::NotInitialized); },
        Some(snapshot) => snapshot.duplicate(),
    };
    match next.put_edge(edge.duplicate()) {
        Err(e) => { return Err(e); },
        Ok(()) => {},
    }
    store.push_commit(message, next);
    Ok(())
}

/// Deletes an edge and says whether it was there. Where it was, one commit
/// is written whose snapshot lacks it; where it was not, nothing is written.
pub fn delete_edge(
    store: &mut Store,
    source: &str,
    target: &str,
    edge_type: EdgeType,
    message: &str,
) -> (r: Result<bool, Error>)
    ensures
        !old(store)@.initialized() ==> r is Err && r->Err_0@ == ErrorView::NotInitialized
            && final(store)@ == old(store)@,
        old(store)@.initialized() ==> r is Ok && r->Ok_0 == has_triple(
            old(store)@.tip().edges,
            source@,
            target@,
            edge_type,
        ),
        old(store)@.initialized() && r->Ok_0 ==> final(store)@ == old(store)@.committed(
            message@,
            SnapshotView {
                issues: old(store)@.tip().issues,
                edges: without_edge(old(store)@.tip().edges, source@, target@, edge_type),
            },
        ),
        old(store)@.initialized() && !r->Ok_0 ==> final(store)@ == old(store)@,
{
    let mut next = match store.tip() {
        None => { return Err(Error::NotInitialized); },
        Some(snapshot) => snapshot.duplicate(),
    };
    let found = next.remove_edge(source, target, edge_type);
    if found {
        store.push_commit(message, next);
    }
    Ok(found)
}

/// Deletes the snapshot reference. Nothing happens where it is absent.
pub fn delete_snapshot(store: &mut Store) -> (r: Result<(), Error>)
    ensures
        r is Ok,
        !final(store)@.initialized(),
{
    store.clear();
    Ok(())
}

/// The identifiers of the current snapshot, and none where the engine is
/// not initialized.
pub fn get_existing_ids(store: &Store) -> (r: Result<Vec<String>, Error>)
    ensures
        r is Ok,
        store@.initialized() ==> views(r->Ok_0@) == ids_of(store@.tip().issues),
        !store@.initialized() ==> r->Ok_0@.len() == 0,
{
    match store.tip() {
        None => Ok(Vec::new()),
        Some(snapshot) => Ok(snapshot.ids()),
    }
}

} // verus!
