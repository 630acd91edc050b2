use sterna::commands::{
    claim, close, create, dep, export, get, import, init, list, pull, purge, ready, release,
    reopen, update,
};
use sterna::engine::{can_mutate, Mutation};
use sterna::error::Error;
use sterna::snapshot::{
    load_edges, load_issues, save_issue, Store, FETCH_REFSPEC, PUSH_REFSPEC, REMOTE_REF,
    SNAPSHOT_REF,
};
use sterna::types::{EdgeType, Issue, IssueType, Priority, Status};

const EDITOR: &str = "dev@example.com";

fn ready_store() -> Store {
    let mut store = Store::new();
    init::run(&mut store).unwrap();
    store
}

fn new_issue(store: &mut Store, title: &str, now: i64) -> String {
    create::run(store, title.to_string(), None, None, None, vec![], now, EDITOR.to_string())
        .unwrap()
}

fn ready_ids(store: &Store) -> Vec<String> {
    ready::run(store).unwrap().iter().map(|i| i.id.clone()).collect()
}

fn raw_issue(id: &str, title: &str, lamport: u64, updated_at: i64) -> Issue {
    let mut issue = Issue::create(
        id.to_string(),
        title.to_string(),
        String::new(),
        Priority::Medium,
        IssueType::Task,
        vec![],
        50,
        EDITOR.to_string(),
    );
    issue.lamport = lamport;
    issue.updated_at = updated_at;
    issue
}

#[test]
fn create_then_list() {
    let mut store = ready_store();
    let id = create::run(
        &mut store,
        "Fix crash".to_string(),
        None,
        Some("high".to_string()),
        Some("bug".to_string()),
        vec![],
        1700000000,
        EDITOR.to_string(),
    )
    .unwrap();
    assert!(id.starts_with("st-"));
    let rows = list::run(&store, None, None).unwrap();
    assert_eq!(rows.len(), 1);
    assert_eq!(rows[0].id, id);
    assert!(rows[0].id.starts_with("st-"));
    assert_eq!(rows[0].status, Status::Open);
    assert_eq!(rows[0].priority, Priority::High);
    assert_eq!(rows[0].issue_type, IssueType::Bug);
    assert_eq!(rows[0].title, "Fix crash");
    assert_eq!(rows[0].lamport, 1);
    assert_eq!(store.commit(1).unwrap().message(), &format!("Create issue {}", id));
}

#[test]
fn create_defaults_and_errors() {
    let mut store = ready_store();
    let id = new_issue(&mut store, "Plain", 10);
    let issue = get::run(&store, &id).unwrap();
    assert_eq!(issue.priority, Priority::Medium);
    assert_eq!(issue.issue_type, IssueType::Task);
    assert_eq!(issue.description, "");
    assert_eq!(issue.editor, EDITOR);
    let r = create::run(
        &mut store,
        "x".to_string(),
        None,
        Some("urgent".to_string()),
        Some("nonsense".to_string()),
        vec![],
        11,
        EDITOR.to_string(),
    );
    assert!(matches!(r, Err(Error::InvalidPriority(_))));
    let r = create::run(
        &mut store,
        "x".to_string(),
        None,
        None,
        Some("nonsense".to_string()),
        vec![],
        11,
        EDITOR.to_string(),
    );
    assert!(matches!(r, Err(Error::InvalidIssueType(_))));
    assert_eq!(store.len(), 2);
    let mut absent = Store::new();
    let r = create::run(&mut absent, "x".to_string(), None, None, None, vec![], 1, EDITOR.to_string());
    assert!(matches!(r, Err(Error::NotInitialized)));
}

#[test]
fn create_twice_with_the_same_content_grows_the_identifier() {
    let mut store = ready_store();
    let first = new_issue(&mut store, "Same", 10);
    let second = new_issue(&mut store, "Same", 10);
    assert_ne!(first, second);
    assert_eq!(first.len(), 7);
    assert_eq!(second.len(), 8);
    let third = create::try_run(
        &mut store,
        "Same".to_string(),
        None,
        None,
        None,
        vec![],
        10,
        EDITOR.to_string(),
    )
    .unwrap()
    .unwrap();
    assert_eq!(third.len(), 9);
    assert_eq!(load_issues(&store).unwrap().len(), 3);
}

#[test]
fn claim_lifecycle() {
    let mut store = ready_store();
    let a = new_issue(&mut store, "A", 10);
    let claimed = claim::run(&mut store, &a, Some("branch/x".to_string()), 20, EDITOR.to_string())
        .unwrap();
    assert_eq!(claimed, a);
    let rows = list::run(&store, None, None).unwrap();
    assert_eq!(rows[0].status, Status::InProgress);
    assert!(rows[0].claimed);
    assert_eq!(rows[0].claim_context, Some("branch/x".to_string()));
    assert_eq!(rows[0].lamport, 2);
    release::run(&mut store, &a, Some("deferred".to_string()), 30, EDITOR.to_string()).unwrap();
    let rows = list::run(&store, None, None).unwrap();
    assert_eq!(rows[0].status, Status::Open);
    assert!(!rows[0].claimed);
    assert_eq!(rows[0].reason, Some("deferred".to_string()));
    assert_eq!(rows[0].lamport, 3);
    assert_eq!(store.commit(2).unwrap().message(), &format!("Claim issue {}", a));
    assert_eq!(store.commit(3).unwrap().message(), &format!("Release issue {}", a));
}

#[test]
fn refused_mutations_write_nothing() {
    let mut store = ready_store();
    let a = new_issue(&mut store, "A", 10);
    let before = store.len();
    assert!(matches!(
        release::run(&mut store, &a, None, 20, EDITOR.to_string()),
        Err(Error::NotClaimed(_))
    ));
    assert!(matches!(
        reopen::run(&mut store, &a, None, 20, EDITOR.to_string()),
        Err(Error::NotClosed(_))
    ));
    assert!(matches!(
        claim::run(&mut store, "st-zzzz", None, 20, EDITOR.to_string()),
        Err(Error::NotFound(_))
    ));
    assert_eq!(store.len(), before);
    close::run(&mut store, &a, Some("done".to_string()), 30, EDITOR.to_string()).unwrap();
    assert!(matches!(
        close::run(&mut store, &a, None, 40, EDITOR.to_string()),
        Err(Error::AlreadyClosed(_))
    ));
    assert!(matches!(
        claim::run(&mut store, &a, None, 40, EDITOR.to_string()),
        Err(Error::IsClosed(_))
    ));
    assert_eq!(store.len(), before + 1);
    reopen::run(&mut store, &a, None, 50, EDITOR.to_string()).unwrap();
    let issue = get::run(&store, &a).unwrap();
    assert_eq!(issue.status, Status::Open);
    assert_eq!(issue.lamport, 3);
    claim::run(&mut store, &a, None, 60, EDITOR.to_string()).unwrap();
    assert!(matches!(
        claim::run(&mut store, &a, None, 70, EDITOR.to_string()),
        Err(Error::AlreadyClaimed(_))
    ));
}

#[test]
fn update_changes_fields_and_bumps_once() {
    let mut store = ready_store();
    let a = new_issue(&mut store, "A", 10);
    update::run(
        &mut store,
        &a,
        Some("New".to_string()),
        Some("text".to_string()),
        Some("0".to_string()),
        Some("Epic".to_string()),
        Some(vec!["l".to_string()]),
        20,
        "other".to_string(),
    )
    .unwrap();
    let issue = get::run(&store, &a).unwrap();
    assert_eq!(issue.title, "New");
    assert_eq!(issue.description, "text");
    assert_eq!(issue.priority, Priority::Critical);
    assert_eq!(issue.issue_type, IssueType::Epic);
    assert_eq!(issue.labels, vec!["l".to_string()]);
    assert_eq!(issue.lamport, 2);
    assert_eq!(issue.updated_at, 20);
    assert_eq!(issue.editor, "other");
    let before = store.len();
    let r = update::run(
        &mut store,
        &a,
        Some("Lost".to_string()),
        None,
        Some("bad".to_string()),
        None,
        None,
        30,
        EDITOR.to_string(),
    );
    assert!(matches!(r, Err(Error::InvalidPriority(_))));
    let r = update::run(
        &mut store,
        "st-none",
        None,
        None,
        Some("bad".to_string()),
        None,
        None,
        30,
        EDITOR.to_string(),
    );
    assert!(matches!(r, Err(Error::NotFound(_))));
    assert_eq!(store.len(), before);
    assert_eq!(get::run(&store, &a).unwrap().title, "New");
}

#[test]
fn dependency_readiness() {
    let mut store = ready_store();
    let a = new_issue(&mut store, "A", 10);
    let b = new_issue(&mut store, "B", 11);
    let line = dep::add(&mut store, &a, Some(b.clone()), None, None, None, None, 12).unwrap();
    assert_eq!(line, format!("{} depends_on {}", a, b));
    assert_eq!(ready_ids(&store), vec![b.clone()]);
    close::run(&mut store, &b, None, 13, EDITOR.to_string()).unwrap();
    assert_eq!(ready_ids(&store), vec![a.clone()]);
}

#[test]
fn cycle_refusal() {
    let mut store = ready_store();
    let a = new_issue(&mut store, "A", 10);
    let b = new_issue(&mut store, "B", 11);
    let c = new_issue(&mut store, "C", 12);
    dep::add(&mut store, &a, Some(b.clone()), None, None, None, None, 13).unwrap();
    dep::add(&mut store, &b, Some(c.clone()), None, None, None, None, 14).unwrap();
    let before = store.len();
    match dep::add(&mut store, &c, Some(a.clone()), None, None, None, None, 15) {
        Err(Error::WouldCreateCycle(s, t)) => {
            assert_eq!(s, c);
            assert_eq!(t, a);
        }
        other => panic!("unexpected {:?}", other),
    }
    assert!(matches!(
        dep::add(&mut store, &c, None, Some(a.clone()), None, None, None, 15),
        Err(Error::WouldCreateCycle(_, _))
    ));
    assert!(matches!(
        dep::add(&mut store, &c, None, None, None, Some(a.clone()), None, 15),
        Err(Error::WouldCreateCycle(_, _))
    ));
    assert_eq!(store.len(), before);
    dep::add(&mut store, &c, None, None, Some(a.clone()), None, None, 15).unwrap();
    let edges = load_edges(&store).unwrap();
    assert_eq!(edges.len(), 3);
    assert_eq!(edges[2].edge_type, EdgeType::RelatesTo);
    assert_eq!(edges[2].created_at, 15);
    dep::add(&mut store, &c, None, None, None, None, Some(a.clone()), 16).unwrap();
    assert_eq!(load_edges(&store).unwrap().len(), 4);
}

#[test]
fn edge_admission_errors() {
    let mut store = ready_store();
    let a = new_issue(&mut store, "A", 10);
    let b = new_issue(&mut store, "B", 11);
    assert!(matches!(
        dep::add(&mut store, &a, None, None, None, None, None, 12),
        Err(Error::NoEdgeTarget)
    ));
    match dep::add(&mut store, &a, Some(a.clone()), None, None, None, None, 12) {
        Err(Error::SelfReference(id)) => assert_eq!(id, a),
        other => panic!("unexpected {:?}", other),
    }
    assert!(matches!(
        dep::add(&mut store, &a, None, None, Some(a.clone()), None, None, 12),
        Err(Error::SelfReference(_))
    ));
    dep::add(&mut store, &a, Some(b.clone()), None, None, None, None, 12).unwrap();
    match dep::add(&mut store, &a, Some(b.clone()), None, None, None, None, 13) {
        Err(Error::DuplicateEdge(s, t)) => {
            assert_eq!(s, a);
            assert_eq!(t, b);
        }
        other => panic!("unexpected {:?}", other),
    }
    assert!(matches!(
        dep::add(&mut store, "st-none", Some(b.clone()), None, None, None, None, 13),
        Err(Error::NotFound(_))
    ));
    assert!(matches!(
        dep::add(&mut store, &a, Some("st-none".to_string()), None, None, None, None, 13),
        Err(Error::NotFound(_))
    ));
    // the first option that is given decides
    let line = dep::add(&mut store, &b, None, Some(a.clone()), Some(a.clone()), None, None, 14);
    assert!(matches!(line, Err(Error::WouldCreateCycle(_, _))));
}

#[test]
fn remove_edge_says_whether_it_was_there() {
    let mut store = ready_store();
    let a = new_issue(&mut store, "A", 10);
    let b = new_issue(&mut store, "B", 11);
    dep::add(&mut store, &a, Some(b.clone()), None, None, None, None, 12).unwrap();
    let before = store.len();
    assert!(!dep::remove(&mut store, &a, None, Some(b.clone()), None, None, None).unwrap());
    assert_eq!(store.len(), before);
    assert!(dep::remove(&mut store, &a, Some(b.clone()), None, None, None, None).unwrap());
    assert_eq!(store.len(), before + 1);
    assert_eq!(
        store.commit(before).unwrap().message(),
        &format!("Remove edge: {} depends_on {}", a, b)
    );
    assert!(!dep::remove(&mut store, &a, Some(b.clone()), None, None, None, None).unwrap());
    assert!(matches!(
        dep::remove(&mut store, &a, None, None, None, None, None),
        Err(Error::NoEdgeTarget)
    ));
    assert!(load_edges(&store).unwrap().is_empty());
    // with the edge gone, the other direction is admitted
    dep::add(&mut store, &b, Some(a.clone()), None, None, None, None, 13).unwrap();
}

#[test]
fn merge_last_writer_wins() {
    let mut store = ready_store();
    save_issue(&mut store, &raw_issue("st-x", "old", 3, 70), "seed").unwrap();
    let doc = export::Document {
        version: 1,
        exported_at: 0,
        issues: vec![raw_issue("st-x", "new", 5, 10)],
        edges: vec![],
    };
    let report = import::run(&mut store, &doc).unwrap();
    assert_eq!(report.issues_updated, 1);
    assert_eq!(report.issues_added, 0);
    let x = get::run(&store, "st-x").unwrap();
    assert_eq!(x.title, "new");
    assert_eq!(x.lamport, 5);
    assert_eq!(store.commit(2).unwrap().message(), "Import: 1 issues, 0 edges");

    let mut store = ready_store();
    save_issue(&mut store, &raw_issue("st-x", "old", 3, 70), "seed").unwrap();
    let doc = export::Document {
        version: 1,
        exported_at: 0,
        issues: vec![raw_issue("st-x", "new", 3, 70)],
        edges: vec![],
    };
    let before = store.len();
    let report = import::run(&mut store, &doc).unwrap();
    assert_eq!(report.issues_updated, 0);
    assert_eq!(get::run(&store, "st-x").unwrap().title, "old");
    assert_eq!(store.len(), before);
}

#[test]
fn import_of_export_changes_nothing() {
    let mut store = ready_store();
    let a = new_issue(&mut store, "A", 10);
    let b = new_issue(&mut store, "B", 11);
    dep::add(&mut store, &a, Some(b.clone()), None, None, None, None, 12).unwrap();
    claim::run(&mut store, &b, None, 13, EDITOR.to_string()).unwrap();
    let doc = export::run(&store, 99).unwrap();
    assert_eq!(doc.version, 1);
    assert_eq!(doc.exported_at, 99);
    assert_eq!(doc.issues.len(), 2);
    assert_eq!(doc.edges.len(), 1);
    let before_len = store.len();
    let before = format!("{:?}", load_issues(&store).unwrap());
    let report = import::run(&mut store, &doc).unwrap();
    assert_eq!(report.issues_added + report.issues_updated + report.edges_added, 0);
    assert_eq!(report.edges_skipped, 0);
    assert_eq!(store.len(), before_len);
    assert_eq!(format!("{:?}", load_issues(&store).unwrap()), before);
    // into an empty store the document brings everything
    let mut other = ready_store();
    let report = import::run(&mut other, &doc).unwrap();
    assert_eq!(report.issues_added, 2);
    assert_eq!(report.edges_added, 1);
    assert_eq!(format!("{:?}", load_issues(&other).unwrap()), before);
    assert_eq!(other.commit(1).unwrap().message(), "Import: 2 issues, 1 edges");
}

#[test]
fn import_skips_edges_that_close_cycles() {
    let mut store = ready_store();
    let a = new_issue(&mut store, "A", 10);
    let b = new_issue(&mut store, "B", 11);
    dep::add(&mut store, &a, Some(b.clone()), None, None, None, None, 12).unwrap();
    let mut doc = export::run(&store, 0).unwrap();
    doc.issues.clear();
    doc.edges[0].source = b.clone();
    doc.edges[0].target = a.clone();
    let before = store.len();
    let report = import::run(&mut store, &doc).unwrap();
    assert_eq!(report.edges_skipped, 1);
    assert_eq!(report.edges_added, 0);
    assert_eq!(store.len(), before);
    let mut absent = Store::new();
    assert!(matches!(import::run(&mut absent, &doc), Err(Error::NotInitialized)));
    assert!(matches!(export::run(&absent, 0), Err(Error::NotInitialized)));
}

#[test]
fn pull_then_push() {
    let mut local = ready_store();
    let a = new_issue(&mut local, "A", 10);
    let mut remote = ready_store();
    let b = new_issue(&mut remote, "B", 11);
    let local_len = local.len();
    let remote_len = remote.len();
    let report = pull::run(&mut local, &remote).unwrap();
    assert_eq!(report.issues_added, 1);
    assert_eq!(report.issues_updated, 0);
    // a single merge commit, on top of the local tip of before
    assert_eq!(local.len(), local_len + 1);
    assert_eq!(local.commit(local_len).unwrap().message(), "Merge remote snapshot");
    let parent = local.commit(local_len - 1).unwrap().snapshot();
    assert_eq!(parent.issues().len(), 1);
    assert_eq!(parent.issues()[0].id, a);
    let ids: Vec<String> = load_issues(&local).unwrap().iter().map(|i| i.id.clone()).collect();
    assert_eq!(ids, vec![a, b.clone()]);
    // the pull reads the peer and leaves it as it is
    assert_eq!(remote.len(), remote_len);
    let theirs: Vec<String> = load_issues(&remote).unwrap().iter().map(|i| i.id.clone()).collect();
    assert_eq!(theirs, vec![b]);
    // the push moves the snapshot reference of the peer, and no other
    assert_eq!(PUSH_REFSPEC, format!("{}:{}", SNAPSHOT_REF, SNAPSHOT_REF));
    assert_eq!(FETCH_REFSPEC, format!("{}:{}", SNAPSHOT_REF, REMOTE_REF));
}

#[test]
fn pull_without_a_snapshot() {
    let mut local = ready_store();
    let absent = Store::new();
    assert!(matches!(pull::run(&mut local, &absent), Err(Error::InvalidSnapshot)));
    assert_eq!(local.len(), 1);
    let mut nothing = Store::new();
    let remote = ready_store();
    assert!(matches!(pull::run(&mut nothing, &remote), Err(Error::NotInitialized)));
    assert_eq!(nothing.len(), 0);
}

#[test]
fn pull_twice_merges_nothing_new() {
    let mut local = ready_store();
    new_issue(&mut local, "A", 10);
    let mut remote = ready_store();
    new_issue(&mut remote, "B", 11);
    pull::run(&mut local, &remote).unwrap();
    let before = format!("{:?}", load_issues(&local).unwrap());
    let report = pull::run(&mut local, &remote).unwrap();
    assert_eq!(report.issues_added + report.issues_updated + report.edges_added, 0);
    assert_eq!(format!("{:?}", load_issues(&local).unwrap()), before);
}

#[test]
fn list_reads_filters_before_the_store() {
    let absent = Store::new();
    assert!(matches!(
        list::run(&absent, Some("nonsense".to_string()), None),
        Err(Error::InvalidPriority(_))
    ));
    assert!(matches!(
        list::run(&absent, None, Some("nonsense".to_string())),
        Err(Error::InvalidIssueType(_))
    ));
    assert!(matches!(list::run(&absent, None, None), Err(Error::NotInitialized)));
    assert!(matches!(ready::run(&absent), Err(Error::NotInitialized)));
    let mut store = ready_store();
    let a = new_issue(&mut store, "A", 10);
    close::run(&mut store, &a, None, 11, EDITOR.to_string()).unwrap();
    new_issue(&mut store, "B", 12);
    let rows = list::run(&store, Some("CLOSED".to_string()), Some("task".to_string())).unwrap();
    assert_eq!(rows.len(), 1);
    assert_eq!(rows[0].id, a);
}

#[test]
fn purge_backs_up_and_removes() {
    let mut store = ready_store();
    new_issue(&mut store, "A", 10);
    let backup = purge::run(&mut store, 5, false).unwrap();
    assert_eq!(backup.issues.len(), 1);
    assert_eq!(store.len(), 2);
    let backup = purge::run(&mut store, 6, true).unwrap();
    assert_eq!(backup.exported_at, 6);
    assert_eq!(backup.issues.len(), 1);
    assert_eq!(store.len(), 0);
    assert!(matches!(purge::run(&mut store, 7, true), Err(Error::NotInitialized)));
    init::run(&mut store).unwrap();
    assert!(matches!(init::run(&mut store), Err(Error::AlreadyInitialized)));
}

#[test]
fn clocks_never_fall_along_a_run() {
    let mut store = ready_store();
    let a = new_issue(&mut store, "A", 10);
    let mut last = 0;
    claim::run(&mut store, &a, None, 11, EDITOR.to_string()).unwrap();
    release::run(&mut store, &a, None, 12, EDITOR.to_string()).unwrap();
    close::run(&mut store, &a, None, 13, EDITOR.to_string()).unwrap();
    reopen::run(&mut store, &a, None, 14, EDITOR.to_string()).unwrap();
    let doc = export::Document {
        version: 1,
        exported_at: 0,
        issues: vec![raw_issue(&a, "stale", 2, 999)],
        edges: vec![],
    };
    import::run(&mut store, &doc).unwrap();
    for i in 1..store.len() {
        let snapshot = store.commit(i).unwrap().snapshot();
        let lamport = snapshot.get(&a).unwrap().lamport;
        assert!(lamport >= last);
        last = lamport;
    }
    assert_eq!(last, 5);
}

#[test]
fn directed_edges_stay_acyclic_along_a_run() {
    let mut store = ready_store();
    let a = new_issue(&mut store, "A", 10);
    let b = new_issue(&mut store, "B", 11);
    let c = new_issue(&mut store, "C", 12);
    dep::add(&mut store, &a, Some(b.clone()), None, None, None, None, 13).unwrap();
    let _ = dep::add(&mut store, &b, None, Some(a.clone()), None, None, None, 14);
    dep::add(&mut store, &b, None, None, None, Some(c.clone()), None, 15).unwrap();
    let mut doc = export::run(&store, 0).unwrap();
    doc.issues.clear();
    doc.edges = vec![
        sterna::types::Edge {
            schema_version: 1,
            source: c.clone(),
            target: a.clone(),
            edge_type: EdgeType::Blocks,
            created_at: 0,
        },
        sterna::types::Edge {
            schema_version: 1,
            source: c.clone(),
            target: "st-elsewhere".to_string(),
            edge_type: EdgeType::DependsOn,
            created_at: 0,
        },
        sterna::types::Edge {
            schema_version: 1,
            source: "st-elsewhere".to_string(),
            target: c.clone(),
            edge_type: EdgeType::ParentChild,
            created_at: 0,
        },
    ];
    let report = import::run(&mut store, &doc).unwrap();
    assert_eq!(report.edges_added, 1);
    assert_eq!(report.edges_skipped, 2);
    dep::remove(&mut store, &a, Some(b.clone()), None, None, None, None).unwrap();
    dep::add(&mut store, &c, None, Some(a.clone()), None, None, None, 16).unwrap();
    for i in 0..store.len() {
        let edges = store.commit(i).unwrap().snapshot().edges();
        for (k, e) in edges.iter().enumerate() {
            let mut rest = edges.clone();
            rest.remove(k);
            assert!(!sterna::dag::closes_cycle_in(&rest, &e.source, &e.target, e.edge_type));
        }
    }
}

#[test]
fn a_full_clock_stops_only_the_mutation_that_would_advance_it() {
    let mut store = ready_store();
    save_issue(&mut store, &raw_issue("st-full", "full", u64::MAX, 0), "seed").unwrap();
    save_issue(&mut store, &raw_issue("st-room", "room", 7, 0), "seed").unwrap();
    assert!(!can_mutate(&store, "st-full", &Mutation::Claim(None)));
    assert!(!can_mutate(&store, "st-full", &Mutation::Close(None)));
    // refused by the state of the issue before the clock is touched
    assert!(can_mutate(&store, "st-full", &Mutation::Release(None)));
    assert!(can_mutate(&store, "st-full", &Mutation::Reopen(None)));
    assert!(can_mutate(&store, "st-room", &Mutation::Claim(None)));
    assert!(can_mutate(&store, "st-none", &Mutation::Claim(None)));
    assert!(can_mutate(&Store::new(), "st-full", &Mutation::Claim(None)));
    assert!(matches!(
        release::run(&mut store, "st-full", None, 1, EDITOR.to_string()),
        Err(Error::NotClaimed(_))
    ));
    claim::run(&mut store, "st-room", None, 1, EDITOR.to_string()).unwrap();
    assert_eq!(get::run(&store, "st-room").unwrap().lamport, 8);
}

#[test]
fn import_of_a_record_of_another_schema_version_writes_nothing() {
    let mut store = ready_store();
    save_issue(&mut store, &raw_issue("st-x", "old", 3, 70), "seed").unwrap();
    let mut newer = raw_issue("st-x", "new", 5, 10);
    newer.schema_version = 2;
    let doc = export::Document {
        version: 1,
        exported_at: 0,
        issues: vec![raw_issue("st-y", "fine", 1, 0), newer],
        edges: vec![],
    };
    let before = store.len();
    assert!(matches!(
        import::run(&mut store, &doc),
        Err(Error::SchemaMismatch { expected: 1, found: 2 })
    ));
    assert_eq!(store.len(), before);
    assert_eq!(get::run(&store, "st-x").unwrap().title, "old");
    assert!(get::run(&store, "st-y").is_err());
    // a record that is not taken stops nothing
    let mut stale = raw_issue("st-x", "stale", 1, 0);
    stale.schema_version = 2;
    let doc = export::Document { version: 1, exported_at: 0, issues: vec![stale], edges: vec![] };
    let report = import::run(&mut store, &doc).unwrap();
    assert_eq!(report.issues_added + report.issues_updated, 0);
}
