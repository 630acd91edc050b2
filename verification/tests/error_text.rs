use sterna::error::{ambiguous_text, mismatch_text, Error};

#[test]
fn messages_of_plain_errors() {
    assert_eq!(
        Error::NotInitialized.message(),
        "Sterna not initialized. Run 'st init' first."
    );
    assert_eq!(Error::AlreadyInitialized.message(), "Sterna is already initialized");
    assert_eq!(
        Error::NoEdgeTarget.message(),
        "Must specify one of: --needs, --blocks, --relates-to, --parent, --duplicates"
    );
    assert_eq!(Error::InvalidSnapshot.message(), "Invalid snapshot format");
}

#[test]
fn messages_with_one_text() {
    assert_eq!(Error::Git("boom".to_string()).message(), "Git error: boom");
    assert_eq!(Error::Io("gone".to_string()).message(), "IO error: gone");
    assert_eq!(Error::Json("eof".to_string()).message(), "JSON error: eof");
    assert_eq!(Error::NoIdentity("x".to_string()).message(), "No identity: x");
    assert_eq!(Error::NotFound("st-1".to_string()).message(), "Issue not found: st-1");
    assert_eq!(
        Error::CorruptedSnapshot("missing issues subtree".to_string()).message(),
        "Corrupted snapshot: missing issues subtree"
    );
    assert_eq!(
        Error::AlreadyClaimed("st-1".to_string()).message(),
        "Issue st-1 is already claimed"
    );
    assert_eq!(Error::NotClaimed("st-1".to_string()).message(), "Issue st-1 is not claimed");
    assert_eq!(Error::IsClosed("st-1".to_string()).message(), "Issue st-1 is closed");
    assert_eq!(
        Error::AlreadyClosed("st-1".to_string()).message(),
        "Issue st-1 is already closed"
    );
    assert_eq!(Error::NotClosed("st-1".to_string()).message(), "Issue st-1 is not closed");
    assert_eq!(Error::InvalidPriority("p".to_string()).message(), "Invalid priority: p");
    assert_eq!(Error::InvalidIssueType("t".to_string()).message(), "Invalid issue type: t");
    assert_eq!(Error::InvalidEdgeType("e".to_string()).message(), "Invalid edge type: e");
    assert_eq!(
        Error::SelfReference("st-1".to_string()).message(),
        "Cannot create edge to self: st-1"
    );
    assert_eq!(Error::LockFailed("busy".to_string()).message(), "Failed to acquire lock: busy");
}

#[test]
fn messages_with_two_texts() {
    assert_eq!(
        Error::DuplicateEdge("a".to_string(), "b".to_string()).message(),
        "Edge already exists: a -> b"
    );
    assert_eq!(
        Error::WouldCreateCycle("a".to_string(), "b".to_string()).message(),
        "Would create cycle: a -> b"
    );
}

#[test]
fn message_of_schema_mismatch() {
    assert_eq!(
        Error::SchemaMismatch { expected: 1, found: 2 }.message(),
        "Schema mismatch: expected 1, found 2"
    );
    assert_eq!(
        Error::SchemaMismatch { expected: 1, found: 4294967295 }.message(),
        "Schema mismatch: expected 1, found 4294967295"
    );
    assert_eq!(mismatch_text(10, 0), "Schema mismatch: expected 10, found 0");
}

#[test]
fn message_of_ambiguous_prefix() {
    let e = Error::AmbiguousId(
        "st-a".to_string(),
        vec!["st-ab".to_string(), "st-a\"c".to_string()],
    );
    assert_eq!(e.message(), "Ambiguous ID 'st-a': matches [\"st-ab\", \"st-a\\\"c\"]");
    assert_eq!(ambiguous_text("p", "[]"), "Ambiguous ID 'p': matches []");
}
