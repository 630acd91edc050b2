use sterna::error::Error;
use sterna::snapshot::{
    delete_edge, delete_snapshot, edge_exists, edge_name, find_issue_id, get_existing_ids, init,
    is_initialized, load_edges, load_issue, load_issues, name_of, save_edge, save_issue,
    Snapshot, Store, BLOB_MODE, FETCH_REFSPEC, PUSH_REFSPEC, SNAPSHOT_REF, TREE_MODE,
};
use sterna::types::{Edge, EdgeType, Issue, IssueType, Priority};

fn issue_named(id: &str, title: &str, lamport: u64) -> Issue {
    let mut issue = Issue::create(
        id.to_string(),
        title.to_string(),
        String::new(),
        Priority::Medium,
        IssueType::Task,
        vec![],
        100,
        "dev@example.com".to_string(),
    );
    issue.lamport = lamport;
    issue
}

fn edge_between(source: &str, target: &str, edge_type: EdgeType, created_at: i64) -> Edge {
    Edge {
        schema_version: 1,
        source: source.to_string(),
        target: target.to_string(),
        edge_type,
        created_at,
    }
}

#[test]
fn layout_constants() {
    assert_eq!(SNAPSHOT_REF, "refs/sterna/snapshot");
    assert_eq!(PUSH_REFSPEC, "refs/sterna/snapshot:refs/sterna/snapshot");
    assert_eq!(FETCH_REFSPEC, "refs/sterna/snapshot:refs/sterna/remote");
    assert_eq!(BLOB_MODE, 0o100644);
    assert_eq!(TREE_MODE, 0o040000);
}

#[test]
fn edge_entry_name() {
    assert_eq!(name_of("st-a", "st-b", EdgeType::DependsOn), "st-a_st-b_depends_on");
    assert_eq!(
        edge_name(&edge_between("x", "y", EdgeType::ParentChild, 0)),
        "x_y_parent_child"
    );
}

#[test]
fn save_issue_on_uninitialized_store_fails() {
    let mut store = Store::new();
    assert!(!is_initialized(&store));
    let r = save_issue(&mut store, &issue_named("st-1", "t", 1), "msg");
    assert!(matches!(r, Err(Error::NotInitialized)));
    assert_eq!(store.len(), 0);
    assert!(matches!(load_issues(&store), Err(Error::NotInitialized)));
    assert!(matches!(load_edges(&store), Err(Error::NotInitialized)));
    assert!(matches!(find_issue_id(&store, "st"), Err(Error::NotInitialized)));
    assert!(matches!(load_issue(&store, "st"), Err(Error::NotInitialized)));
    assert!(matches!(
        save_edge(&mut store, &edge_between("a", "b", EdgeType::Blocks, 0), "m"),
        Err(Error::NotInitialized)
    ));
    assert!(matches!(
        delete_edge(&mut store, "a", "b", EdgeType::Blocks, "m"),
        Err(Error::NotInitialized)
    ));
    assert!(matches!(
        edge_exists(&store, "a", "b", EdgeType::Blocks),
        Err(Error::NotInitialized)
    ));
    assert!(get_existing_ids(&store).unwrap().is_empty());
}

#[test]
fn init_writes_one_empty_commit() {
    let mut store = Store::new();
    init(&mut store).unwrap();
    assert!(is_initialized(&store));
    assert_eq!(store.len(), 1);
    assert_eq!(store.commit(0).unwrap().message(), "Initialize Sterna");
    assert!(load_issues(&store).unwrap().is_empty());
    assert!(load_edges(&store).unwrap().is_empty());
    assert!(matches!(init(&mut store), Err(Error::AlreadyInitialized)));
    assert_eq!(store.len(), 1);
}

#[test]
fn save_issue_inserts_then_replaces() {
    let mut store = Store::new();
    init(&mut store).unwrap();
    save_issue(&mut store, &issue_named("st-1", "one", 1), "first").unwrap();
    save_issue(&mut store, &issue_named("st-2", "two", 1), "second").unwrap();
    save_issue(&mut store, &issue_named("st-1", "uno", 2), "third").unwrap();
    assert_eq!(store.len(), 4);
    assert_eq!(store.commit(3).unwrap().message(), "third");
    let issues = load_issues(&store).unwrap();
    assert_eq!(issues.len(), 2);
    assert_eq!(issues[0].id, "st-1");
    assert_eq!(issues[0].title, "uno");
    assert_eq!(issues[0].lamport, 2);
    assert_eq!(issues[1].id, "st-2");
    // the commit before still has the old record
    let before = store.commit(2).unwrap().snapshot();
    assert_eq!(before.get("st-1").unwrap().title, "one");
    assert_eq!(
        get_existing_ids(&store).unwrap(),
        vec!["st-1".to_string(), "st-2".to_string()]
    );
}

#[test]
fn save_edge_twice_keeps_one_entry() {
    let mut store = Store::new();
    init(&mut store).unwrap();
    save_edge(&mut store, &edge_between("a", "b", EdgeType::DependsOn, 1), "e1").unwrap();
    save_edge(&mut store, &edge_between("a", "b", EdgeType::Blocks, 2), "e2").unwrap();
    save_edge(&mut store, &edge_between("a", "b", EdgeType::DependsOn, 3), "e3").unwrap();
    let edges = load_edges(&store).unwrap();
    assert_eq!(edges.len(), 2);
    assert_eq!(edges[0].edge_type, EdgeType::DependsOn);
    assert_eq!(edges[0].created_at, 3);
    assert_eq!(edges[1].edge_type, EdgeType::Blocks);
    assert!(edge_exists(&store, "a", "b", EdgeType::DependsOn).unwrap());
    assert!(!edge_exists(&store, "b", "a", EdgeType::DependsOn).unwrap());
}

#[test]
fn delete_edge_is_idempotent() {
    let mut store = Store::new();
    init(&mut store).unwrap();
    save_edge(&mut store, &edge_between("a", "b", EdgeType::DependsOn, 1), "e1").unwrap();
    save_edge(&mut store, &edge_between("b", "c", EdgeType::DependsOn, 2), "e2").unwrap();
    assert!(delete_edge(&mut store, "a", "b", EdgeType::DependsOn, "gone").unwrap());
    assert_eq!(store.len(), 4);
    assert_eq!(store.commit(3).unwrap().message(), "gone");
    let edges = load_edges(&store).unwrap();
    assert_eq!(edges.len(), 1);
    assert_eq!(edges[0].source, "b");
    assert!(!delete_edge(&mut store, "a", "b", EdgeType::DependsOn, "again").unwrap());
    assert_eq!(store.len(), 4);
    assert!(!delete_edge(&mut store, "b", "c", EdgeType::Blocks, "other type").unwrap());
    assert_eq!(load_edges(&store).unwrap().len(), 1);
}

#[test]
fn find_and_load_by_prefix() {
    let mut store = Store::new();
    init(&mut store).unwrap();
    save_issue(&mut store, &issue_named("st-ab12", "one", 1), "m").unwrap();
    save_issue(&mut store, &issue_named("st-cd34", "two", 1), "m").unwrap();
    assert_eq!(find_issue_id(&store, "st-a").unwrap(), "st-ab12");
    assert_eq!(load_issue(&store, "st-c").unwrap().title, "two");
    assert!(matches!(find_issue_id(&store, "st-x"), Err(Error::NotFound(_))));
    assert!(matches!(load_issue(&store, "st-"), Err(Error::AmbiguousId(_, _))));
}

#[test]
fn delete_snapshot_removes_the_reference() {
    let mut store = Store::new();
    delete_snapshot(&mut store).unwrap();
    assert!(!is_initialized(&store));
    init(&mut store).unwrap();
    save_issue(&mut store, &issue_named("st-1", "one", 1), "m").unwrap();
    delete_snapshot(&mut store).unwrap();
    assert!(!is_initialized(&store));
    assert_eq!(store.len(), 0);
    init(&mut store).unwrap();
    assert!(load_issues(&store).unwrap().is_empty());
}

#[test]
fn snapshot_put_get_remove() {
    let mut s = Snapshot::new();
    assert!(s.get("st-1").is_none());
    s.put_issue(issue_named("st-1", "one", 1)).unwrap();
    s.put_issue(issue_named("st-2", "two", 1)).unwrap();
    s.put_issue(issue_named("st-1", "uno", 5)).unwrap();
    assert_eq!(s.issues().len(), 2);
    assert_eq!(s.get("st-1").unwrap().title, "uno");
    assert_eq!(s.ids(), vec!["st-1".to_string(), "st-2".to_string()]);
    s.put_edge(edge_between("st-1", "st-2", EdgeType::DependsOn, 1)).unwrap();
    assert!(s.has_edge("st-1", "st-2", EdgeType::DependsOn));
    assert!(!s.has_edge("st-1", "st-2", EdgeType::Blocks));
    assert!(s.remove_edge("st-1", "st-2", EdgeType::DependsOn));
    assert!(!s.remove_edge("st-1", "st-2", EdgeType::DependsOn));
    assert!(s.edges().is_empty());
    let copy = s.duplicate();
    assert_eq!(copy.issues().len(), 2);
    assert_eq!(copy.get("st-2").unwrap().title, "two");
}

#[test]
fn writers_in_turn_both_land() {
    let mut store = Store::new();
    init(&mut store).unwrap();
    save_issue(&mut store, &issue_named("st-1", "first writer", 1), "first").unwrap();
    save_issue(&mut store, &issue_named("st-2", "second writer", 1), "second").unwrap();
    assert_eq!(store.len(), 3);
    assert_eq!(store.commit(1).unwrap().message(), "first");
    assert_eq!(store.commit(2).unwrap().message(), "second");
    assert_eq!(store.commit(1).unwrap().snapshot().issues().len(), 1);
    let issues = load_issues(&store).unwrap();
    assert_eq!(issues.len(), 2);
    assert_eq!(issues[0].title, "first writer");
    assert_eq!(issues[1].title, "second writer");
}

#[test]
fn snapshot_refuses_a_record_of_another_schema_version() {
    let mut s = Snapshot::new();
    let mut stale = issue_named("st-1", "one", 1);
    stale.schema_version = 0;
    assert!(matches!(
        s.put_issue(stale),
        Err(Error::SchemaMismatch { expected: 1, found: 0 })
    ));
    let mut stale_edge = edge_between("a", "b", EdgeType::Blocks, 0);
    stale_edge.schema_version = 9;
    assert!(matches!(
        s.put_edge(stale_edge),
        Err(Error::SchemaMismatch { expected: 1, found: 9 })
    ));
    assert!(s.issues().is_empty());
    assert!(s.edges().is_empty());
}

#[test]
fn record_of_another_schema_version_is_not_saved() {
    let mut store = Store::new();
    let mut old_issue = issue_named("st-1", "one", 1);
    old_issue.schema_version = 2;
    // the missing snapshot is reported first
    assert!(matches!(save_issue(&mut store, &old_issue, "m"), Err(Error::NotInitialized)));
    init(&mut store).unwrap();
    match save_issue(&mut store, &old_issue, "m") {
        Err(Error::SchemaMismatch { expected, found }) => {
            assert_eq!(expected, 1);
            assert_eq!(found, 2);
        }
        other => panic!("unexpected {:?}", other),
    }
    let mut old_edge = edge_between("a", "b", EdgeType::Blocks, 0);
    old_edge.schema_version = 0;
    assert!(matches!(
        save_edge(&mut store, &old_edge, "m"),
        Err(Error::SchemaMismatch { expected: 1, found: 0 })
    ));
    assert_eq!(store.len(), 1);
    assert!(load_issues(&store).unwrap().is_empty());
    assert!(load_edges(&store).unwrap().is_empty());
    save_issue(&mut store, &issue_named("st-1", "one", 1), "m").unwrap();
    for i in 0..store.len() {
        let snapshot = store.commit(i).unwrap().snapshot();
        assert!(snapshot.issues().iter().all(|x| x.schema_version == 1));
        assert!(snapshot.edges().iter().all(|x| x.schema_version == 1));
    }
}
