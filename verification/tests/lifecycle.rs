use sterna::error::Error;
use sterna::lifecycle::{time_bits, Changes};
use sterna::types::{Issue, IssueType, Priority, Status};

fn fresh_issue() -> Issue {
    Issue::create(
        "st-abcd".to_string(),
        "Fix crash".to_string(),
        "It crashes".to_string(),
        Priority::High,
        IssueType::Bug,
        vec!["ui".to_string()],
        100,
        "dev@example.com".to_string(),
    )
}

#[test]
fn created_issue_is_open_with_clock_one() {
    let issue = fresh_issue();
    assert_eq!(issue.schema_version, 1);
    assert_eq!(issue.id, "st-abcd");
    assert_eq!(issue.status, Status::Open);
    assert_eq!(issue.lamport, 1);
    assert_eq!(issue.created_at, 100);
    assert_eq!(issue.updated_at, 100);
    assert!(!issue.claimed);
    assert_eq!(issue.claim_context, None);
    assert_eq!(issue.claimed_at, None);
    assert_eq!(issue.reason, None);
    assert_eq!(issue.labels, vec!["ui".to_string()]);
}

#[test]
fn claim_sets_the_claim_and_bumps_once() {
    let mut issue = fresh_issue();
    issue
        .claim(Some("branch/x".to_string()), 200, "agent@example.com".to_string())
        .unwrap();
    assert!(issue.claimed);
    assert_eq!(issue.status, Status::InProgress);
    assert_eq!(issue.claim_context, Some("branch/x".to_string()));
    assert_eq!(issue.claimed_at, Some(200));
    assert_eq!(issue.lamport, 2);
    assert_eq!(issue.updated_at, 200);
    assert_eq!(issue.editor, "agent@example.com");
    assert_eq!(issue.created_at, 100);
}

#[test]
fn claim_twice_is_refused() {
    let mut issue = fresh_issue();
    issue.claim(None, 200, "a".to_string()).unwrap();
    match issue.claim(None, 300, "b".to_string()) {
        Err(Error::AlreadyClaimed(id)) => assert_eq!(id, "st-abcd"),
        other => panic!("unexpected {:?}", other),
    }
    assert_eq!(issue.lamport, 2);
    assert_eq!(issue.updated_at, 200);
    assert_eq!(issue.editor, "a");
}

#[test]
fn claim_of_closed_issue_is_refused() {
    let mut issue = fresh_issue();
    issue.close(None, 200, "a".to_string()).unwrap();
    match issue.claim(None, 300, "b".to_string()) {
        Err(Error::IsClosed(id)) => assert_eq!(id, "st-abcd"),
        other => panic!("unexpected {:?}", other),
    }
    assert_eq!(issue.lamport, 2);
}

#[test]
fn release_resets_the_claim() {
    let mut issue = fresh_issue();
    issue.claim(Some("ctx".to_string()), 200, "a".to_string()).unwrap();
    issue.release(Some("deferred".to_string()), 300, "b".to_string()).unwrap();
    assert!(!issue.claimed);
    assert_eq!(issue.status, Status::Open);
    assert_eq!(issue.claim_context, None);
    assert_eq!(issue.claimed_at, None);
    assert_eq!(issue.reason, Some("deferred".to_string()));
    assert_eq!(issue.lamport, 3);
    assert_eq!(issue.updated_at, 300);
    assert_eq!(issue.editor, "b");
}

#[test]
fn release_of_unclaimed_issue_is_refused() {
    let mut issue = fresh_issue();
    match issue.release(None, 300, "b".to_string()) {
        Err(Error::NotClaimed(id)) => assert_eq!(id, "st-abcd"),
        other => panic!("unexpected {:?}", other),
    }
    assert_eq!(issue.lamport, 1);
}

#[test]
fn close_and_reopen() {
    let mut issue = fresh_issue();
    match issue.reopen(None, 150, "a".to_string()) {
        Err(Error::NotClosed(id)) => assert_eq!(id, "st-abcd"),
        other => panic!("unexpected {:?}", other),
    }
    issue.close(Some("done".to_string()), 200, "a".to_string()).unwrap();
    assert_eq!(issue.status, Status::Closed);
    assert_eq!(issue.reason, Some("done".to_string()));
    assert_eq!(issue.lamport, 2);
    match issue.close(None, 250, "a".to_string()) {
        Err(Error::AlreadyClosed(id)) => assert_eq!(id, "st-abcd"),
        other => panic!("unexpected {:?}", other),
    }
    issue.reopen(Some("not done".to_string()), 300, "b".to_string()).unwrap();
    assert_eq!(issue.status, Status::Open);
    assert_eq!(issue.reason, Some("not done".to_string()));
    assert_eq!(issue.lamport, 3);
    assert_eq!(issue.updated_at, 300);
}

#[test]
fn update_sets_only_what_is_given_and_bumps_once() {
    let mut issue = fresh_issue();
    issue.update(
        Changes {
            title: Some("New title".to_string()),
            description: None,
            priority: Some(Priority::Critical),
            issue_type: None,
            labels: Some(vec![]),
        },
        400,
        "c".to_string(),
    );
    assert_eq!(issue.title, "New title");
    assert_eq!(issue.description, "It crashes");
    assert_eq!(issue.priority, Priority::Critical);
    assert_eq!(issue.issue_type, IssueType::Bug);
    assert!(issue.labels.is_empty());
    assert_eq!(issue.lamport, 2);
    assert_eq!(issue.updated_at, 400);
    assert_eq!(issue.editor, "c");
}

#[test]
fn update_without_changes_still_bumps() {
    let mut issue = fresh_issue();
    issue.update(
        Changes { title: None, description: None, priority: None, issue_type: None, labels: None },
        400,
        "c".to_string(),
    );
    assert_eq!(issue.title, "Fix crash");
    assert_eq!(issue.lamport, 2);
}

#[test]
fn time_bits_keeps_the_bits() {
    assert_eq!(time_bits(0), 0);
    assert_eq!(time_bits(1700000000), 1700000000);
    assert_eq!(time_bits(-1), u64::MAX);
    assert_eq!(time_bits(i64::MIN), 1u64 << 63);
    assert_eq!(time_bits(i64::MAX), i64::MAX as u64);
}
