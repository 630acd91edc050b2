use sterna::dag::{closes_cycle_in, would_create_cycle};
use sterna::index::{EdgeEntry, EdgeIndex};
use sterna::types::{Edge, EdgeType};

fn make_edge(source: &str, target: &str, edge_type: EdgeType) -> EdgeEntry {
    EdgeEntry {
        source: source.to_string(),
        target: target.to_string(),
        edge_type,
        oid: git2::Oid::zero(),
    }
}

fn edge(source: &str, target: &str, edge_type: EdgeType) -> Edge {
    Edge {
        schema_version: 1,
        source: source.to_string(),
        target: target.to_string(),
        edge_type,
        created_at: 0,
    }
}

#[test]
fn test_no_cycle_empty() {
    let edges = EdgeIndex { entries: vec![] };
    assert!(!would_create_cycle(&edges, "a", "b", EdgeType::DependsOn));
}

#[test]
fn test_direct_cycle() {
    let edges = EdgeIndex {
        entries: vec![make_edge("a", "b", EdgeType::DependsOn)],
    };
    // b -> a would create a->b->a cycle
    assert!(would_create_cycle(&edges, "b", "a", EdgeType::DependsOn));
}

#[test]
fn test_indirect_cycle() {
    let edges = EdgeIndex {
        entries: vec![
            make_edge("a", "b", EdgeType::DependsOn),
            make_edge("b", "c", EdgeType::DependsOn),
        ],
    };
    // c -> a would create a->b->c->a cycle
    assert!(would_create_cycle(&edges, "c", "a", EdgeType::DependsOn));
}

#[test]
fn test_relates_to_no_cycle() {
    let edges = EdgeIndex {
        entries: vec![make_edge("a", "b", EdgeType::RelatesTo)],
    };
    // RelatesTo edges don't form cycles
    assert!(!would_create_cycle(&edges, "b", "a", EdgeType::RelatesTo));
}

#[test]
fn mixed_types_form_one_graph() {
    let edges = vec![
        edge("a", "b", EdgeType::DependsOn),
        edge("b", "c", EdgeType::ParentChild),
    ];
    assert!(closes_cycle_in(&edges, "c", "a", EdgeType::Blocks));
    assert!(!closes_cycle_in(&edges, "a", "c", EdgeType::Blocks));
}

#[test]
fn undirected_edges_are_not_walked() {
    let edges = vec![
        edge("a", "b", EdgeType::RelatesTo),
        edge("b", "c", EdgeType::Duplicates),
    ];
    assert!(!closes_cycle_in(&edges, "c", "a", EdgeType::DependsOn));
}

#[test]
fn self_edge_is_a_cycle() {
    let edges: Vec<Edge> = vec![];
    assert!(closes_cycle_in(&edges, "a", "a", EdgeType::DependsOn));
    assert!(!closes_cycle_in(&edges, "a", "a", EdgeType::RelatesTo));
}

#[test]
fn search_ends_on_a_cycle_that_is_already_there() {
    // b -> c -> b is a cycle that does not pass through a.
    let edges = vec![
        edge("b", "c", EdgeType::DependsOn),
        edge("c", "b", EdgeType::DependsOn),
    ];
    assert!(!closes_cycle_in(&edges, "a", "b", EdgeType::DependsOn));
    // with d -> a present, a -> d closes a cycle whatever else is there
    let edges = vec![
        edge("b", "c", EdgeType::DependsOn),
        edge("c", "b", EdgeType::DependsOn),
        edge("d", "a", EdgeType::Blocks),
    ];
    assert!(closes_cycle_in(&edges, "a", "d", EdgeType::DependsOn));
}

#[test]
fn relates_and_duplicates_never_refused() {
    let edges = vec![
        edge("a", "b", EdgeType::DependsOn),
        edge("b", "a", EdgeType::DependsOn),
    ];
    assert!(!closes_cycle_in(&edges, "a", "b", EdgeType::RelatesTo));
    assert!(!closes_cycle_in(&edges, "b", "a", EdgeType::Duplicates));
}
