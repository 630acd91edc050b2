use sterna::error::Error;
use sterna::storage::{
    edge_type_from_wire, issue_type_from_wire, read_priority, read_status, read_version,
    serialize_edge, serialize_issue, status_from_wire, IssueFields,
};
use sterna::types::{Edge, EdgeType, Issue, IssueType, Priority, Status};
use sterna::wire::{
    parse, put, put_list, put_optional_string, put_signed, put_string, put_unsigned, read_flag,
    read_list, read_optional_text, read_optional_unsigned, read_signed, read_text, read_unsigned,
    Field,
};

fn stored_issue() -> Issue {
    let mut issue = Issue::create(
        "st-abcd".to_string(),
        "Fix \"crash\"".to_string(),
        "line\nbreak é".to_string(),
        Priority::High,
        IssueType::Bug,
        vec!["ui".to_string(), "urgent".to_string()],
        100,
        "dev@example.com".to_string(),
    );
    issue.claim(Some("branch/x".to_string()), 200, "agent".to_string()).unwrap();
    issue
}

fn json_error_text(r: Result<Issue, Error>) -> String {
    match r {
        Err(Error::Json(text)) => text,
        other => panic!("unexpected {:?}", other),
    }
}

const PLAIN: &str = "{\"schema_version\":1,\"id\":\"st-1\",\"title\":\"t\",\"description\":\"\",\
\"status\":\"open\",\"priority\":2,\"issue_type\":\"task\",\"labels\":[],\"created_at\":5,\
\"updated_at\":6,\"lamport\":1,\"editor\":\"e\",\"claimed\":false,\"claim_context\":null,\
\"claimed_at\":null,\"reason\":null}";

fn altered(from: &str, to: &str) -> String {
    assert!(PLAIN.contains(from));
    PLAIN.replace(from, to)
}

#[test]
fn issue_is_written_member_by_member_in_order() {
    let bytes = serialize_issue(&stored_issue()).unwrap();
    assert_eq!(
        String::from_utf8(bytes).unwrap(),
        "{\"schema_version\":1,\"id\":\"st-abcd\",\"title\":\"Fix \\\"crash\\\"\",\
\"description\":\"line\\nbreak é\",\"status\":\"in_progress\",\"priority\":1,\
\"issue_type\":\"bug\",\"labels\":[\"ui\",\"urgent\"],\"created_at\":100,\"updated_at\":200,\
\"lamport\":2,\"editor\":\"agent\",\"claimed\":true,\"claim_context\":\"branch/x\",\
\"claimed_at\":200,\"reason\":null}"
    );
}

#[test]
fn plain_issue_is_written_with_nulls_and_an_empty_list() {
    let issue = Issue::from_json(PLAIN.as_bytes()).unwrap();
    assert_eq!(String::from_utf8(serialize_issue(&issue).unwrap()).unwrap(), PLAIN);
}

#[test]
fn issue_read_back_is_the_issue() {
    let issue = stored_issue();
    let bytes = serialize_issue(&issue).unwrap();
    let back = Issue::from_json(&bytes).unwrap();
    assert_eq!(format!("{:?}", back), format!("{:?}", issue));
    let mut extreme = stored_issue();
    extreme.created_at = i64::MIN;
    extreme.updated_at = i64::MAX;
    extreme.lamport = u64::MAX;
    extreme.claimed_at = Some(u64::MAX);
    extreme.title = "tab\there \u{1F600} \\ / \u{0001}".to_string();
    extreme.labels = vec!["a,b".to_string(), "]".to_string(), String::new()];
    let back = Issue::from_json(&serialize_issue(&extreme).unwrap()).unwrap();
    assert_eq!(format!("{:?}", back), format!("{:?}", extreme));
}

#[test]
fn issue_is_read_from_any_member_order_and_with_blanks() {
    let text = "{ \"reason\": \"r\", \"claimed\": true, \"editor\": \"e\", \"lamport\": 9,\n\
 \"unknown\": {\"x\": [1, 2]}, \"updated_at\": -6, \"created_at\": -7, \"labels\": [\"l\"],\n\
 \"issue_type\": \"epic\", \"priority\": 0, \"status\": \"closed\", \"description\": \"d\",\n\
 \"title\": \"t\", \"id\": \"st-9\", \"schema_version\": 1 }";
    let issue = Issue::from_json(text.as_bytes()).unwrap();
    assert_eq!(issue.id, "st-9");
    assert_eq!(issue.status, Status::Closed);
    assert_eq!(issue.priority, Priority::Critical);
    assert_eq!(issue.issue_type, IssueType::Epic);
    assert_eq!(issue.labels, vec!["l".to_string()]);
    assert_eq!(issue.created_at, -7);
    assert_eq!(issue.updated_at, -6);
    assert_eq!(issue.lamport, 9);
    assert!(issue.claimed);
    assert_eq!(issue.claim_context, None);
    assert_eq!(issue.claimed_at, None);
    assert_eq!(issue.reason, Some("r".to_string()));
}

#[test]
fn schema_version_is_looked_at_first() {
    match Issue::from_json(b"{\"schema_version\":2,\"id\":7}") {
        Err(Error::SchemaMismatch { expected, found }) => {
            assert_eq!(expected, 1);
            assert_eq!(found, 2);
        }
        other => panic!("unexpected {:?}", other),
    }
    match Edge::from_json(b"{\"schema_version\":3}") {
        Err(Error::SchemaMismatch { expected, found }) => {
            assert_eq!(expected, 1);
            assert_eq!(found, 3);
        }
        other => panic!("unexpected {:?}", other),
    }
}

#[test]
fn missing_schema_version_counts_as_zero() {
    for text in [
        "{}",
        "{\"schema_version\":\"1\"}",
        "{\"schema_version\":-1}",
        "{\"schema_version\":1.0}",
        "{\"schema_version\":null}",
        "[1]",
        "1",
        "\"schema_version\"",
    ] {
        match Issue::from_json(text.as_bytes()) {
            Err(Error::SchemaMismatch { expected, found }) => {
                assert_eq!(expected, 1);
                assert_eq!(found, 0);
            }
            other => panic!("unexpected {:?} for {}", other, text),
        }
    }
}

#[test]
fn schema_check_keeps_the_low_32_bits() {
    // 2^32 + 2 states version 2
    match Issue::from_json(altered("\"schema_version\":1", "\"schema_version\":4294967298").as_bytes())
    {
        Err(Error::SchemaMismatch { found, .. }) => assert_eq!(found, 2),
        other => panic!("unexpected {:?}", other),
    }
    // 2^32 + 1 states version 1 and does not fit the member
    let text = altered("\"schema_version\":1", "\"schema_version\":4294967297");
    assert_eq!(
        json_error_text(Issue::from_json(text.as_bytes())),
        "invalid value for field `schema_version`"
    );
    assert_eq!(read_version(Field::Number(Some(1), Some(1))).unwrap(), 1);
    assert!(matches!(
        read_version(Field::Number(Some(1u64 << 32), None)),
        Err(Error::SchemaMismatch { expected: 1, found: 0 })
    ));
    assert!(matches!(
        read_version(Field::Absent),
        Err(Error::SchemaMismatch { expected: 1, found: 0 })
    ));
    assert!(matches!(
        read_version(Field::Text("1".to_string())),
        Err(Error::SchemaMismatch { expected: 1, found: 0 })
    ));
}

#[test]
fn malformed_text_is_reported() {
    assert!(matches!(Issue::from_json(b"{\"schema_version\":1"), Err(Error::Json(_))));
    assert!(matches!(Issue::from_json(b""), Err(Error::Json(_))));
    assert!(matches!(Issue::from_json(b"{schema_version:1}"), Err(Error::Json(_))));
    assert!(matches!(Edge::from_json(b"nonsense"), Err(Error::Json(_))));
    assert!(parse(b"{\"a\":1}").is_ok());
    assert!(parse(b"{\"a\":1,}").is_err());
}

#[test]
fn a_member_that_is_missing_is_reported() {
    let text = altered("\"title\":\"t\",", "");
    assert_eq!(json_error_text(Issue::from_json(text.as_bytes())), "missing field `title`");
    let text = altered("\"labels\":[],", "");
    assert_eq!(json_error_text(Issue::from_json(text.as_bytes())), "missing field `labels`");
    let text = altered("\"claimed\":false,", "");
    assert_eq!(json_error_text(Issue::from_json(text.as_bytes())), "missing field `claimed`");
    let text = altered("\"lamport\":1,", "");
    assert_eq!(json_error_text(Issue::from_json(text.as_bytes())), "missing field `lamport`");
}

#[test]
fn optional_members_may_be_missing() {
    let text = altered(",\"claim_context\":null,\"claimed_at\":null,\"reason\":null", "");
    let issue = Issue::from_json(text.as_bytes()).unwrap();
    assert_eq!(issue.claim_context, None);
    assert_eq!(issue.claimed_at, None);
    assert_eq!(issue.reason, None);
    let text = altered("\"claimed_at\":null", "\"claimed_at\":77");
    assert_eq!(Issue::from_json(text.as_bytes()).unwrap().claimed_at, Some(77));
}

#[test]
fn a_member_of_the_wrong_type_is_reported() {
    for (from, to, key) in [
        ("\"title\":\"t\"", "\"title\":7", "title"),
        ("\"id\":\"st-1\"", "\"id\":null", "id"),
        ("\"status\":\"open\"", "\"status\":{\"open\":null}", "status"),
        ("\"priority\":2", "\"priority\":\"medium\"", "priority"),
        ("\"priority\":2", "\"priority\":-1", "priority"),
        ("\"labels\":[]", "\"labels\":[\"a\",1]", "labels"),
        ("\"labels\":[]", "\"labels\":\"a\"", "labels"),
        ("\"created_at\":5", "\"created_at\":5.5", "created_at"),
        ("\"created_at\":5", "\"created_at\":1e3", "created_at"),
        ("\"updated_at\":6", "\"updated_at\":9223372036854775808", "updated_at"),
        ("\"lamport\":1", "\"lamport\":-1", "lamport"),
        ("\"lamport\":1", "\"lamport\":18446744073709551616", "lamport"),
        ("\"claimed\":false", "\"claimed\":0", "claimed"),
        ("\"claim_context\":null", "\"claim_context\":5", "claim_context"),
        ("\"claimed_at\":null", "\"claimed_at\":\"5\"", "claimed_at"),
        ("\"reason\":null", "\"reason\":[]", "reason"),
    ] {
        let text = altered(from, to);
        assert_eq!(
            json_error_text(Issue::from_json(text.as_bytes())),
            format!("invalid type for field `{}`", key),
            "{}",
            to
        );
    }
}

#[test]
fn unknown_tokens_and_ranks_are_reported() {
    let text = altered("\"status\":\"open\"", "\"status\":\"Open\"");
    assert_eq!(json_error_text(Issue::from_json(text.as_bytes())), "unknown variant `Open`");
    let text = altered("\"issue_type\":\"task\"", "\"issue_type\":\"story\"");
    assert_eq!(json_error_text(Issue::from_json(text.as_bytes())), "unknown variant `story`");
    let text = altered("\"priority\":2", "\"priority\":5");
    assert_eq!(
        json_error_text(Issue::from_json(text.as_bytes())),
        "invalid value: 5, expected one of: 0, 1, 2, 3, 4"
    );
    let text = altered("\"priority\":2", "\"priority\":300");
    assert_eq!(
        json_error_text(Issue::from_json(text.as_bytes())),
        "invalid value: 300, expected one of: 0, 1, 2, 3, 4"
    );
}

#[test]
fn the_first_bad_member_in_field_order_is_reported() {
    let text = altered("\"title\":\"t\"", "\"title\":7").replace("\"id\":\"st-1\",", "");
    assert_eq!(json_error_text(Issue::from_json(text.as_bytes())), "missing field `id`");
}

#[test]
fn edge_is_written_and_read() {
    let edge = Edge {
        schema_version: 1,
        source: "st-a".to_string(),
        target: "st-b".to_string(),
        edge_type: EdgeType::ParentChild,
        created_at: -42,
    };
    let bytes = serialize_edge(&edge).unwrap();
    assert_eq!(
        String::from_utf8(bytes.clone()).unwrap(),
        "{\"schema_version\":1,\"source\":\"st-a\",\"target\":\"st-b\",\
\"edge_type\":\"parent_child\",\"created_at\":-42}"
    );
    let back = Edge::from_json(&bytes).unwrap();
    assert_eq!(format!("{:?}", back), format!("{:?}", edge));
    match Edge::from_json(
        b"{\"schema_version\":1,\"source\":\"a\",\"target\":\"b\",\"edge_type\":\"needs\",\"created_at\":0}",
    ) {
        Err(Error::Json(text)) => assert_eq!(text, "unknown variant `needs`"),
        other => panic!("unexpected {:?}", other),
    }
    match Edge::from_json(b"{\"schema_version\":1,\"source\":\"a\",\"edge_type\":\"blocks\"}") {
        Err(Error::Json(text)) => assert_eq!(text, "missing field `target`"),
        other => panic!("unexpected {:?}", other),
    }
}

#[test]
fn fields_round_trip() {
    let issue = stored_issue();
    let fields = issue.to_fields();
    assert!(matches!(fields.schema_version, Field::Number(Some(1), Some(1))));
    assert!(matches!(fields.priority, Field::Number(Some(1), Some(1))));
    assert!(matches!(fields.reason, Field::Null));
    let back = Issue::from_fields(fields).unwrap();
    assert_eq!(format!("{:?}", back), format!("{:?}", issue));
    let edge = Edge {
        schema_version: 1,
        source: "a".to_string(),
        target: "b".to_string(),
        edge_type: EdgeType::Duplicates,
        created_at: 3,
    };
    let back = Edge::from_fields(edge.to_fields()).unwrap();
    assert_eq!(format!("{:?}", back), format!("{:?}", edge));
}

#[test]
fn fields_of_another_version_are_a_mismatch() {
    let mut fields: IssueFields = stored_issue().to_fields();
    fields.schema_version = Field::Number(Some(3), Some(3));
    fields.status = Field::Text("nonsense".to_string());
    fields.title = Field::Absent;
    assert!(matches!(
        Issue::from_fields(fields),
        Err(Error::SchemaMismatch { expected: 1, found: 3 })
    ));
}

#[test]
fn readers_judge_each_kind_of_member() {
    assert_eq!(read_text(Field::Text("x".to_string()), "k").unwrap(), "x");
    assert!(matches!(read_text(Field::Absent, "k"), Err(Error::Json(t)) if t == "missing field `k`"));
    assert!(matches!(read_text(Field::Null, "k"), Err(Error::Json(t)) if t == "invalid type for field `k`"));
    assert_eq!(read_unsigned(Field::Number(Some(7), Some(7)), "k").unwrap(), 7);
    assert_eq!(read_unsigned(Field::Number(Some(u64::MAX), None), "k").unwrap(), u64::MAX);
    assert!(read_unsigned(Field::Number(None, Some(-1)), "k").is_err());
    assert!(read_unsigned(Field::Number(None, None), "k").is_err());
    assert_eq!(read_signed(Field::Number(None, Some(-1)), "k").unwrap(), -1);
    assert_eq!(read_signed(Field::Number(Some(1), Some(1)), "k").unwrap(), 1);
    assert!(read_signed(Field::Number(Some(u64::MAX), None), "k").is_err());
    assert!(read_flag(Field::Flag(true), "k").unwrap());
    assert!(read_flag(Field::Number(Some(1), Some(1)), "k").is_err());
    assert_eq!(
        read_list(Field::List(vec![Some("a".to_string()), Some("b".to_string())]), "k").unwrap(),
        vec!["a".to_string(), "b".to_string()]
    );
    assert!(read_list(Field::List(vec![]), "k").unwrap().is_empty());
    assert!(read_list(Field::List(vec![Some("a".to_string()), None]), "k").is_err());
    assert!(read_list(Field::Nested, "k").is_err());
    assert_eq!(read_optional_text(Field::Absent, "k").unwrap(), None);
    assert_eq!(read_optional_text(Field::Null, "k").unwrap(), None);
    assert_eq!(read_optional_text(Field::Text("x".to_string()), "k").unwrap(), Some("x".to_string()));
    assert!(read_optional_text(Field::Flag(true), "k").is_err());
    assert_eq!(read_optional_unsigned(Field::Null, "k").unwrap(), None);
    assert_eq!(read_optional_unsigned(Field::Number(Some(5), Some(5)), "k").unwrap(), Some(5));
    assert!(read_optional_unsigned(Field::Number(None, Some(-5)), "k").is_err());
    assert_eq!(read_status(Field::Text("in_progress".to_string())).unwrap(), Status::InProgress);
    assert_eq!(read_priority(Field::Number(Some(4), Some(4))).unwrap(), Priority::Backlog);
    assert!(read_priority(Field::Number(Some(5), Some(5))).is_err());
}

#[test]
fn parsed_members_by_kind() {
    let parsed = parse(
        b"{\"n\":null,\"t\":true,\"u\":18446744073709551615,\"i\":-3,\"f\":1.5,\"s\":\"x\",\
\"l\":[\"a\",2,null],\"o\":{}}",
    )
    .unwrap();
    assert!(matches!(parsed.member("missing"), Field::Absent));
    assert!(matches!(parsed.member("n"), Field::Null));
    assert!(matches!(parsed.member("t"), Field::Flag(true)));
    assert!(matches!(parsed.member("u"), Field::Number(Some(u64::MAX), None)));
    assert!(matches!(parsed.member("i"), Field::Number(None, Some(-3))));
    assert!(matches!(parsed.member("f"), Field::Number(None, None)));
    assert!(matches!(parsed.member("s"), Field::Text(ref s) if s == "x"));
    match parsed.member("l") {
        Field::List(items) => assert_eq!(items, vec![Some("a".to_string()), None, None]),
        other => panic!("unexpected {:?}", other),
    }
    assert!(matches!(parsed.member("o"), Field::Nested));
    let no_object = parse(b"[1,2]").unwrap();
    assert!(matches!(no_object.member("0"), Field::Absent));
}

#[test]
fn text_is_put_together_piece_by_piece() {
    let a = put(Ok(String::new()), "[");
    let a = put_string(a, "a\"b");
    let a = put(a, ",");
    let a = put_unsigned(a, 42);
    let a = put(a, ",");
    let a = put_signed(a, -7);
    let a = put(a, ",");
    let a = put_optional_string(a, &None);
    let a = put(a, ",");
    let a = put_optional_string(a, &Some("x".to_string()));
    let a = put(a, ",");
    let a = put_list(a, &vec!["p".to_string(), "q".to_string(), "r".to_string()]);
    let a = put(a, ",");
    let a = put_list(a, &vec![]);
    let a = put(a, "]");
    assert_eq!(a.unwrap(), "[\"a\\\"b\",42,-7,null,\"x\",[\"p\",\"q\",\"r\"],[]]");
    let stopped = put_string(Err(Error::InvalidSnapshot), "x");
    assert!(matches!(put(stopped, "y"), Err(Error::InvalidSnapshot)));
}

#[test]
fn wire_tokens_are_exact() {
    assert_eq!(status_from_wire("open"), Some(Status::Open));
    assert_eq!(status_from_wire("in_progress"), Some(Status::InProgress));
    assert_eq!(status_from_wire("closed"), Some(Status::Closed));
    assert_eq!(status_from_wire("inprogress"), None);
    assert_eq!(issue_type_from_wire("feature"), Some(IssueType::Feature));
    assert_eq!(issue_type_from_wire("Feature"), None);
    assert_eq!(edge_type_from_wire("depends_on"), Some(EdgeType::DependsOn));
    assert_eq!(edge_type_from_wire("relates_to"), Some(EdgeType::RelatesTo));
    assert_eq!(edge_type_from_wire("duplicates"), Some(EdgeType::Duplicates));
    assert_eq!(edge_type_from_wire("relates"), None);
}
