use sterna::merge::{
    beats, count_new, merge_into, merge_snapshot, select_edges, select_issues, MergeReport,
};
use sterna::snapshot::{init, load_edges, load_issues, Snapshot, Store};
use sterna::types::{Edge, EdgeType, Issue, IssueType, Priority};

fn rec(id: &str, title: &str, lamport: u64, updated_at: i64) -> Issue {
    let mut issue = Issue::create(
        id.to_string(),
        title.to_string(),
        String::new(),
        Priority::Medium,
        IssueType::Task,
        vec![],
        100,
        "dev@example.com".to_string(),
    );
    issue.lamport = lamport;
    issue.updated_at = updated_at;
    issue
}

fn arc(source: &str, target: &str, edge_type: EdgeType) -> Edge {
    Edge {
        schema_version: 1,
        source: source.to_string(),
        target: target.to_string(),
        edge_type,
        created_at: 0,
    }
}

fn snapshot_of(issues: Vec<Issue>, edges: Vec<Edge>) -> Snapshot {
    let mut s = Snapshot::new();
    for i in issues {
        s.put_issue(i).unwrap();
    }
    for e in edges {
        s.put_edge(e).unwrap();
    }
    s
}

fn titles(s: &Snapshot) -> Vec<(String, String, u64)> {
    s.issues().iter().map(|i| (i.id.clone(), i.title.clone(), i.lamport)).collect()
}

fn triples(s: &Snapshot) -> Vec<(String, String, EdgeType)> {
    s.edges().iter().map(|e| (e.source.clone(), e.target.clone(), e.edge_type)).collect()
}

#[test]
fn greater_lamport_beats() {
    assert!(beats(&rec("x", "r", 5, 0), &rec("x", "l", 3, 100)));
    assert!(!beats(&rec("x", "r", 3, 100), &rec("x", "l", 5, 0)));
}

#[test]
fn equal_lamport_goes_by_updated_at() {
    assert!(beats(&rec("x", "r", 3, 101), &rec("x", "l", 3, 100)));
    assert!(!beats(&rec("x", "r", 3, 99), &rec("x", "l", 3, 100)));
}

#[test]
fn tie_keeps_local() {
    assert!(!beats(&rec("x", "r", 3, 100), &rec("x", "l", 3, 100)));
    let mut local = snapshot_of(vec![rec("x", "local", 3, 100)], vec![]);
    let report = merge_into(&mut local, &vec![rec("x", "remote", 3, 100)], &vec![]).unwrap();
    assert_eq!(local.get("x").unwrap().title, "local");
    assert_eq!(report.issues_added, 0);
    assert_eq!(report.issues_updated, 0);
}

#[test]
fn merge_takes_new_and_dominating_issues() {
    let mut local = snapshot_of(
        vec![rec("a", "a-local", 3, 10), rec("b", "b-local", 5, 10), rec("c", "c-local", 1, 10)],
        vec![],
    );
    let incoming = vec![
        rec("a", "a-remote", 5, 0),
        rec("b", "b-remote", 3, 99),
        rec("d", "d-remote", 1, 0),
    ];
    let report = merge_into(&mut local, &incoming, &vec![]).unwrap();
    assert_eq!(
        report,
        MergeReport { issues_added: 1, issues_updated: 1, edges_added: 0, edges_skipped: 0 }
    );
    assert_eq!(
        titles(&local),
        vec![
            ("a".to_string(), "a-remote".to_string(), 5),
            ("b".to_string(), "b-local".to_string(), 5),
            ("c".to_string(), "c-local".to_string(), 1),
            ("d".to_string(), "d-remote".to_string(), 1),
        ]
    );
}

#[test]
fn select_issues_keeps_incoming_order() {
    let local = vec![rec("a", "l", 3, 10)];
    let incoming = vec![rec("z", "new", 1, 0), rec("a", "old", 2, 0), rec("b", "new", 1, 0)];
    let chosen = select_issues(&local, &incoming);
    let ids: Vec<String> = chosen.iter().map(|i| i.id.clone()).collect();
    assert_eq!(ids, vec!["z".to_string(), "b".to_string()]);
    assert_eq!(count_new(&local, &chosen), 2);
    let chosen = select_issues(&local, &vec![rec("a", "newer", 4, 0)]);
    assert_eq!(chosen.len(), 1);
    assert_eq!(count_new(&local, &chosen), 0);
}

#[test]
fn edges_are_united_by_triple() {
    let local = vec![arc("a", "b", EdgeType::DependsOn)];
    let incoming = vec![
        arc("a", "b", EdgeType::DependsOn),
        arc("a", "b", EdgeType::Blocks),
        arc("b", "c", EdgeType::RelatesTo),
        arc("b", "c", EdgeType::RelatesTo),
    ];
    let (added, skipped) = select_edges(&local, &incoming);
    assert_eq!(skipped, 0);
    assert_eq!(added.len(), 2);
    assert_eq!(added[0].edge_type, EdgeType::Blocks);
    assert_eq!(added[1].edge_type, EdgeType::RelatesTo);
}

#[test]
fn edge_that_closes_a_cycle_is_skipped_and_counted() {
    let local = vec![arc("a", "b", EdgeType::DependsOn), arc("b", "c", EdgeType::DependsOn)];
    let incoming = vec![
        arc("c", "a", EdgeType::ParentChild),
        arc("c", "a", EdgeType::RelatesTo),
        arc("c", "d", EdgeType::Blocks),
    ];
    let (added, skipped) = select_edges(&local, &incoming);
    assert_eq!(skipped, 1);
    assert_eq!(added.len(), 2);
    assert_eq!(added[0].edge_type, EdgeType::RelatesTo);
    assert_eq!(added[1].target, "d");
}

#[test]
fn cycle_is_judged_against_the_growing_set() {
    // neither edge closes a cycle alone; the second does after the first
    let local: Vec<Edge> = vec![];
    let incoming = vec![arc("a", "b", EdgeType::DependsOn), arc("b", "a", EdgeType::Blocks)];
    let (added, skipped) = select_edges(&local, &incoming);
    assert_eq!(added.len(), 1);
    assert_eq!(added[0].source, "a");
    assert_eq!(skipped, 1);
}

#[test]
fn merge_with_itself_changes_nothing() {
    let a = snapshot_of(
        vec![rec("a", "one", 3, 10), rec("b", "two", 1, 5)],
        vec![arc("a", "b", EdgeType::DependsOn), arc("b", "a", EdgeType::RelatesTo)],
    );
    let mut m = a.duplicate();
    let report = merge_into(&mut m, &a.issues().clone(), &a.edges().clone()).unwrap();
    assert_eq!(
        report,
        MergeReport { issues_added: 0, issues_updated: 0, edges_added: 0, edges_skipped: 0 }
    );
    assert_eq!(titles(&m), titles(&a));
    assert_eq!(triples(&m), triples(&a));
}

#[test]
fn merging_twice_is_merging_once() {
    let a = snapshot_of(
        vec![rec("a", "a1", 3, 10), rec("b", "b1", 1, 5)],
        vec![arc("a", "b", EdgeType::DependsOn)],
    );
    let b = snapshot_of(
        vec![rec("a", "a2", 4, 0), rec("c", "c2", 1, 5)],
        vec![arc("b", "a", EdgeType::DependsOn), arc("c", "a", EdgeType::Blocks)],
    );
    let mut once = a.duplicate();
    merge_into(&mut once, &b.issues().clone(), &b.edges().clone()).unwrap();
    let mut twice = once.duplicate();
    let report = merge_into(&mut twice, &b.issues().clone(), &b.edges().clone()).unwrap();
    assert_eq!(titles(&twice), titles(&once));
    assert_eq!(triples(&twice), triples(&once));
    assert_eq!(report.issues_added + report.issues_updated + report.edges_added, 0);
    assert_eq!(report.edges_skipped, 1);
}

#[test]
fn merge_commutes_away_from_ties() {
    let a = snapshot_of(
        vec![rec("x", "ax", 3, 10), rec("y", "ay", 2, 10), rec("t", "at", 1, 1)],
        vec![],
    );
    let b = snapshot_of(
        vec![rec("x", "bx", 5, 0), rec("y", "by", 2, 9), rec("t", "bt", 1, 1), rec("z", "bz", 1, 0)],
        vec![],
    );
    let mut ab = a.duplicate();
    merge_into(&mut ab, &b.issues().clone(), &vec![]).unwrap();
    let mut ba = b.duplicate();
    merge_into(&mut ba, &a.issues().clone(), &vec![]).unwrap();
    for id in ["x", "y", "z"] {
        assert_eq!(ab.get(id).unwrap().title, ba.get(id).unwrap().title);
    }
    assert_eq!(ab.get("x").unwrap().title, "bx");
    assert_eq!(ab.get("y").unwrap().title, "ay");
    // on the tie each side keeps its own
    assert_eq!(ab.get("t").unwrap().title, "at");
    assert_eq!(ba.get("t").unwrap().title, "bt");
}

#[test]
fn lamport_never_falls_in_a_merge() {
    let mut local = snapshot_of(vec![rec("x", "l", 7, 10)], vec![]);
    merge_into(&mut local, &vec![rec("x", "r", 6, 999)], &vec![]).unwrap();
    assert_eq!(local.get("x").unwrap().lamport, 7);
    merge_into(&mut local, &vec![rec("x", "r", 8, 0)], &vec![]).unwrap();
    assert_eq!(local.get("x").unwrap().lamport, 8);
}

#[test]
fn batch_path_writes_one_commit() {
    let mut store = Store::new();
    init(&mut store).unwrap();
    merge_snapshot(
        &mut store,
        &vec![rec("a", "one", 1, 0), rec("b", "two", 1, 0), rec("a", "uno", 2, 0)],
        &vec![arc("a", "b", EdgeType::DependsOn), arc("a", "b", EdgeType::DependsOn)],
        "batch",
    )
    .unwrap();
    assert_eq!(store.len(), 2);
    assert_eq!(store.commit(1).unwrap().message(), "batch");
    let issues = load_issues(&store).unwrap();
    assert_eq!(issues.len(), 2);
    assert_eq!(issues[0].title, "uno");
    assert_eq!(load_edges(&store).unwrap().len(), 1);
    let mut absent = Store::new();
    assert!(merge_snapshot(&mut absent, &vec![], &vec![], "m").is_err());
}

#[test]
fn batch_with_a_record_of_another_schema_version_is_refused_whole() {
    let mut store = Store::new();
    init(&mut store).unwrap();
    let mut stale = rec("b", "two", 1, 0);
    stale.schema_version = 7;
    let r = merge_snapshot(
        &mut store,
        &vec![rec("a", "one", 1, 0), stale],
        &vec![arc("a", "b", EdgeType::DependsOn)],
        "batch",
    );
    assert!(matches!(r, Err(sterna::error::Error::SchemaMismatch { expected: 1, found: 7 })));
    assert_eq!(store.len(), 1);
    let mut stale_edge = arc("a", "b", EdgeType::DependsOn);
    stale_edge.schema_version = 3;
    let r = merge_snapshot(&mut store, &vec![rec("a", "one", 1, 0)], &vec![stale_edge], "batch");
    assert!(matches!(r, Err(sterna::error::Error::SchemaMismatch { expected: 1, found: 3 })));
    assert!(load_issues(&store).unwrap().is_empty());
}

#[test]
fn merge_stops_at_a_taken_record_of_another_schema_version() {
    let mut local = snapshot_of(vec![rec("x", "local", 3, 10)], vec![]);
    let mut newer = rec("x", "remote", 5, 0);
    newer.schema_version = 4;
    let r = merge_into(&mut local, &vec![rec("y", "fine", 1, 0), newer], &vec![]);
    assert!(matches!(r, Err(sterna::error::Error::SchemaMismatch { expected: 1, found: 4 })));
    assert_eq!(titles(&local), vec![("x".to_string(), "local".to_string(), 3)]);
}
