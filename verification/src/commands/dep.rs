//! Adding and removing edges. An edge is admitted only between two
//! different issues, only once, and only where it closes no cycle of
//! directed edges.

use vstd::prelude::*;
use vstd::string::StringExecFns;
use crate::dag::{
    acyclic,
    closes_cycle,
    closes_cycle_in,
    lemma_admitted_edge_keeps_acyclic,
    lemma_closes_cycle_by_triple,
    lemma_removal_keeps_acyclic,
    proposed,
    Node,
};
use crate::error::{Error, ErrorView};
use crate::resolve::resolution;
use crate::snapshot::{
    delete_edge,
    edge_pos,
    find_issue_id,
    has_triple,
    holds_triple,
    ids_of,
    lemma_edge_pos,
    load_edges,
    save_edge,
    without_edge,
    SnapshotView,
    Store,
    StoreView,
};
use crate::text::owned;
use crate::types::{edge_type_token, edge_views, Edge, EdgeType, EdgeView, SCHEMA_VERSION};

verus! {

/// The target and the type of the edge that the five options name: the
/// first that is given, in the order needs, blocks, relates-to, parent,
/// duplicates.
pub open spec fn chosen_target(
    needs: Option<Seq<char>>,
    blocks: Option<Seq<char>>,
    relates_to: Option<Seq<char>>,
    parent: Option<Seq<char>>,
    duplicates: Option<Seq<char>>,
) -> Option<(Seq<char>, EdgeType)> {
    if let Some(t) = needs {
        Some((t, EdgeType::DependsOn))
    } else if let Some(t) = blocks {
        Some((t, EdgeType::Blocks))
    } else if let Some(t) = relates_to {
        Some((t, EdgeType::RelatesTo))
    } else if let Some(t) = parent {
        Some((t, EdgeType::ParentChild))
    } else if let Some(t) = duplicates {
        Some((t, EdgeType::Duplicates))
    } else {
        None
    }
}

/// Why an edge is refused, if it is: its ends are the same issue, it is
/// present already, or it would close a cycle.
pub open spec fn refusal(
    edges: Seq<EdgeView>,
    source: Node,
    target: Node,
    edge_type: EdgeType,
) -> Option<ErrorView> {
    if source == target {
        Some(ErrorView::SelfReference(source))
    } else if has_triple(edges, source, target, edge_type) {
        Some(ErrorView::DuplicateEdge(source, target))
    } else if closes_cycle(edges, proposed(source, target, edge_type)) {
        Some(ErrorView::WouldCreateCycle(source, target))
    } else {
        None
    }
}

/// The line that names an edge: source, type and target, with a blank
/// between them.
pub open spec fn edge_line(source: Node, target: Node, edge_type: EdgeType) -> Seq<char> {
    source + " "@ + edge_type_token(edge_type) + " "@ + target
}

/// The edge that `add` writes.
pub open spec fn new_edge(source: Node, target: Node, edge_type: EdgeType, now: i64) -> EdgeView {
    EdgeView { schema_version: SCHEMA_VERSION, source, target, edge_type, created_at: now }
}

/// Picks the target and the type of an edge from the five options.
pub fn select_edge_target(
    needs: Option<String>,
    blocks: Option<String>,
    relates_to: Option<String>,
    parent: Option<String>,
    duplicates: Option<String>,
) -> (r: Result<(String, EdgeType), Error>)
    ensures
        match chosen_target(
            crate::text::opt_view(needs),
            crate::text::opt_view(blocks),
            crate::text::opt_view(relates_to),
            crate::text::opt_view(parent),
            crate::text::opt_view(duplicates),
        ) {
            Some((t, ty)) => r is Ok && r->Ok_0.0@ == t && r->Ok_0.1 == ty,
            None => r is Err && r->Err_0@ == ErrorView::NoEdgeTarget,
        },
{
    if let Some(t) = needs {
        Ok((t, EdgeType::DependsOn))
    } else if let Some(t) = blocks {
        Ok((t, EdgeType::Blocks))
    } else if let Some(t) = relates_to {
        Ok((t, EdgeType::RelatesTo))
    } else if let Some(t) = parent {
        Ok((t, EdgeType::ParentChild))
    } else if let Some(t) = duplicates {
        Ok((t, EdgeType::Duplicates))
    } else {
        Err(Error::NoEdgeTarget)
    }
}

/// Applies the admission rules to a proposed edge, in their order.
pub fn check_edge(
    edges: &Vec<Edge>,
    source: &str,
    target: &str,
    edge_type: EdgeType,
) -> (r: Result<(), Error>)
    ensures
        match refusal(edge_views(edges@), source@, target@, edge_type) {
            Some(e) => r is Err && r->Err_0@ == e,
            None => r is Ok,
        },
{
    if crate::text::str_eq(source, target) {
        return Err(Error::SelfReference(owned(source)));
    }
    if holds_triple(edges, source, target, edge_type) {
        return Err(Error::DuplicateEdge(owned(source), owned(target)));
    }
    if closes_cycle_in(edges, source, target, edge_type) {
        return Err(Error::WouldCreateCycle(owned(source), owned(target)));
    }
    Ok(())
}

/// The line that names an edge.
pub fn line_of(source: &str, target: &str, edge_type: EdgeType) -> (r: String)
    ensures
        r@ == edge_line(source@, target@, edge_type),
{
    let mut out = owned(source);
    out.append(" ");
    out.append(edge_type.as_str());
    out.append(" ");
    out.append(target);
    out
}

/// What `add` decides before it writes: the edge to write, or the error
/// that stops it. The source is resolved first, then the target is chosen
/// and resolved, then the admission rules are applied.
pub open spec fn add_plan(
    store: StoreView,
    source: Seq<char>,
    choice: Option<(Seq<char>, EdgeType)>,
) -> Result<(Node, Node, EdgeType), ErrorView> {
    if !store.initialized() {
        Err(ErrorView::NotInitialized)
    } else {
        let ids = ids_of(store.tip().issues);
        match resolution(ids, source) {
            Err(e) => Err(e),
            Ok(s) => match choice {
                None => Err(ErrorView::NoEdgeTarget),
                Some((prefix, ty)) => match resolution(ids, prefix) {
                    Err(e) => Err(e),
                    Ok(t) => match refusal(store.tip().edges, s, t, ty) {
                        Some(e) => Err(e),
                        None => Ok((s, t, ty)),
                    },
                },
            },
        }
    }
}

/// Adds an edge between two issues, each given by a prefix of its
/// identifier. The edge is committed where the admission rules let it
/// through; the line that names it comes back.
pub fn add(
    store: &mut Store,
    source: &str,
    needs: Option<String>,
    blocks: Option<String>,
    relates_to: Option<String>,
    parent: Option<String>,
    duplicates: Option<String>,
    now: i64,
) -> (r: Result<String, Error>)
    ensures
        match add_plan(
            old(store)@,
            source@,
            chosen_target(
                crate::text::opt_view(needs),
                crate::text::opt_view(blocks),
                crate::text::opt_view(relates_to),
                crate::text::opt_view(parent),
                crate::text::opt_view(duplicates),
            ),
        ) {
            Err(e) => r is Err && r->Err_0@ == e && final(store)@ == old(store)@,
            Ok((s, t, ty)) => r is Ok && r->Ok_0@ == edge_line(s, t, ty)
                && final(store)@ == old(store)@.committed(
                edge_line(s, t, ty),
                SnapshotView {
                    issues: old(store)@.tip().issues,
                    edges: old(store)@.tip().edges.push(new_edge(s, t, ty, now)),
                },
            ),
        },
{
    let source_id = match find_issue_id(store, source) {
        Err(e) => { return Err(e); },
        Ok(id) => id,
    };
    let (target_prefix, edge_type) = match select_edge_target(
        needs,
        blocks,
        relates_to,
        parent,
        duplicates,
    ) {
        Err(e) => { return Err(e); },
        Ok(pair) => pair,
    };
    let target_id = match find_issue_id(store, target_prefix.as_str()) {
        Err(e) => { return Err(e); },
        Ok(id) => id,
    };
    let edges = match load_edges(store) {
        Err(e) => { return Err(e); },
        Ok(edges) => edges,
    };
    match check_edge(&edges, source_id.as_str(), target_id.as_str(), edge_type) {
        Err(e) => { return Err(e); },
        Ok(()) => {},
    }
    let edge = Edge {
        schema_version: SCHEMA_VERSION,
        source: source_id.clone(),
        target: target_id.clone(),
        edge_type,
        created_at: now,
    };
    let line = line_of(source_id.as_str(), target_id.as_str(), edge_type);
    proof {
        lemma_edge_pos(store@.tip().edges, source_id@, target_id@, edge_type);
    }
    match save_edge(store, &edge, line.as_str()) {
        Err(e) => Err(e),
        Ok(()) => Ok(line),
    }
}

/// The message of the commit that removes an edge.
pub open spec fn removal_message(source: Node, target: Node, edge_type: EdgeType) -> Seq<char> {
    "Remove edge: "@ + edge_line(source, target, edge_type)
}

/// What `remove` decides before it writes: the edge to take away, or the
/// error that stops it. The target is chosen first, then both ends are
/// resolved.
pub open spec fn remove_plan(
    store: StoreView,
    source: Seq<char>,
    choice: Option<(Seq<char>, EdgeType)>,
) -> Result<(Node, Node, EdgeType), ErrorView> {
    match choice {
        None => Err(ErrorView::NoEdgeTarget),
        Some((prefix, ty)) => if !store.initialized() {
            Err(ErrorView::NotInitialized)
        } else {
            let ids = ids_of(store.tip().issues);
            match resolution(ids, source) {
                Err(e) => Err(e),
                Ok(s) => match resolution(ids, prefix) {
                    Err(e) => Err(e),
                    Ok(t) => Ok((s, t, ty)),
                },
            }
        },
    }
}

/// Removes the edge between two issues, each given by a prefix of its
/// identifier, and says whether it was there. Removing an edge that is not
/// there changes nothing.
pub fn remove(
    store: &mut Store,
    source: &str,
    needs: Option<String>,
    blocks: Option<String>,
    relates_to: Option<String>,
    parent: Option<String>,
    duplicates: Option<String>,
) -> (r: Result<bool, Error>)
    ensures
        match remove_plan(
            old(store)@,
            source@,
            chosen_target(
                crate::text::opt_view(needs),
                crate::text::opt_view(blocks),
                crate::text::opt_view(relates_to),
                crate::text::opt_view(parent),
                crate::text::opt_view(duplicates),
            ),
        ) {
            Err(e) => r is Err && r->Err_0@ == e && final(store)@ == old(store)@,
            Ok((s, t, ty)) => r is Ok && r->Ok_0 == has_triple(old(store)@.tip().edges, s, t, ty)
                && final(store)@ == if r->Ok_0 {
                old(store)@.committed(
                    removal_message(s, t, ty),
                    SnapshotView {
                        issues: old(store)@.tip().issues,
                        edges: without_edge(old(store)@.tip().edges, s, t, ty),
                    },
                )
            } else {
                old(store)@
            },
        },
{
    let (target_prefix, edge_type) = match select_edge_target(
        needs,
        blocks,
        relates_to,
        parent,
        duplicates,
    ) {
        Err(e) => { return Err(e); },
        Ok(pair) => pair,
    };
    let source_id = match find_issue_id(store, source) {
        Err(e) => { return Err(e); },
        Ok(id) => id,
    };
    let target_id = match find_issue_id(store, target_prefix.as_str()) {
        Err(e) => { return Err(e); },
        Ok(id) => id,
    };
    let line = line_of(source_id.as_str(), target_id.as_str(), edge_type);
    let mut message = owned("Remove edge: ");
    message.append(line.as_str());
    delete_edge(store, source_id.as_str(), target_id.as_str(), edge_type, message.as_str())
}

/// Adding an edge keeps the directed edges acyclic: whatever `add` commits
/// has passed the cycle check.
pub proof fn lemma_add_keeps_acyclic(
    store: StoreView,
    source: Seq<char>,
    choice: Option<(Seq<char>, EdgeType)>,
    now: i64,
)
    requires
        add_plan(store, source, choice) is Ok,
        acyclic(store.tip().edges),
    ensures
        ({
            let (s, t, ty) = add_plan(store, source, choice)->Ok_0;
            acyclic(store.tip().edges.push(new_edge(s, t, ty, now)))
        }),
{
    let (s, t, ty) = add_plan(store, source, choice)->Ok_0;
    lemma_closes_cycle_by_triple(store.tip().edges, proposed(s, t, ty), new_edge(s, t, ty, now));
    lemma_admitted_edge_keeps_acyclic(store.tip().edges, new_edge(s, t, ty, now));
}

/// Cycle refusal: where directed edges lead from `a` to `b` and from `b` to
/// `c`, an edge from `c` back to `a` is refused for closing a cycle,
/// whichever of the three directed types it has, and is let through where
/// it only relates or marks a duplicate.
pub proof fn lemma_return_edge_is_refused(
    edges: Seq<EdgeView>,
    a: Node,
    b: Node,
    c: Node,
    edge_type: EdgeType,
)
    requires
        crate::dag::has_arc(edges, a, b),
        crate::dag::has_arc(edges, b, c),
        c != a,
        !has_triple(edges, c, a, edge_type),
    ensures
        crate::types::cycle_forming(edge_type) ==> refusal(edges, c, a, edge_type) == Some(
            ErrorView::WouldCreateCycle(c, a),
        ),
        !crate::types::cycle_forming(edge_type) ==> refusal(edges, c, a, edge_type) is None,
{
    if crate::types::cycle_forming(edge_type) {
        let e = proposed(c, a, edge_type);
        let g = edges.push(e);
        crate::dag::lemma_arcs_of_push(edges, e);
        let p = seq![c, a, b, c];
        assert(crate::dag::has_arc(g, c, a));
        assert(crate::dag::has_arc(g, a, b));
        assert(crate::dag::has_arc(g, b, c));
        assert forall|t: int| 0 <= t < p.len() - 1 implies #[trigger] crate::dag::step(g, p, t) by {
            if t == 0 {
                assert(p[0] == c && p[1] == a);
            } else if t == 1 {
                assert(p[1] == a && p[2] == b);
            } else {
                assert(p[2] == b && p[3] == c);
            }
        }
        assert(crate::dag::walk_from_to(g, p, c, c));
        assert(crate::dag::reaches(g, c, c));
    }
}

/// Removing an edge keeps the directed edges acyclic.
pub proof fn lemma_remove_keeps_acyclic(
    edges: Seq<EdgeView>,
    source: Node,
    target: Node,
    edge_type: EdgeType,
)
    requires
        acyclic(edges),
    ensures
        acyclic(without_edge(edges, source, target, edge_type)),
{
    lemma_edge_pos(edges, source, target, edge_type);
    let k = edge_pos(edges, source, target, edge_type);
    if k < edges.len() {
        lemma_removal_keeps_acyclic(edges, k);
    }
}

} // verus!
