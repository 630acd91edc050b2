use sterna::error::Error;
use sterna::index::{IssueEntry, IssueIndex};
use sterna::resolve::{matching_ids, resolve_prefix};

fn id_list(list: &[&str]) -> Vec<String> {
    list.iter().map(|s| s.to_string()).collect()
}

#[test]
fn prefix_with_one_match_resolves() {
    let ids = id_list(&["st-ab12", "st-cd34", "st-ce56"]);
    assert_eq!(resolve_prefix(&ids, "st-a").unwrap(), "st-ab12");
    assert_eq!(resolve_prefix(&ids, "st-cd34").unwrap(), "st-cd34");
    assert_eq!(resolve_prefix(&ids, "st-ce").unwrap(), "st-ce56");
}

#[test]
fn prefix_without_match_is_not_found() {
    let ids = id_list(&["st-ab12"]);
    match resolve_prefix(&ids, "st-x") {
        Err(Error::NotFound(p)) => assert_eq!(p, "st-x"),
        other => panic!("unexpected {:?}", other),
    }
    match resolve_prefix(&vec![], "") {
        Err(Error::NotFound(p)) => assert_eq!(p, ""),
        other => panic!("unexpected {:?}", other),
    }
    // a prefix is a leading part, not any part
    assert!(matches!(resolve_prefix(&ids, "ab12"), Err(Error::NotFound(_))));
    // longer than the identifier
    assert!(matches!(resolve_prefix(&ids, "st-ab123"), Err(Error::NotFound(_))));
}

#[test]
fn prefix_with_several_matches_is_ambiguous() {
    let ids = id_list(&["st-ab12", "st-cd34", "st-ce56"]);
    match resolve_prefix(&ids, "st-c") {
        Err(Error::AmbiguousId(p, candidates)) => {
            assert_eq!(p, "st-c");
            assert_eq!(candidates, id_list(&["st-cd34", "st-ce56"]));
        }
        other => panic!("unexpected {:?}", other),
    }
    match resolve_prefix(&ids, "") {
        Err(Error::AmbiguousId(_, candidates)) => assert_eq!(candidates.len(), 3),
        other => panic!("unexpected {:?}", other),
    }
}

#[test]
fn identifier_that_begins_another_is_ambiguous() {
    let ids = id_list(&["st-ab12", "st-ab123"]);
    assert!(matches!(resolve_prefix(&ids, "st-ab12"), Err(Error::AmbiguousId(_, _))));
    assert_eq!(resolve_prefix(&ids, "st-ab123").unwrap(), "st-ab123");
}

#[test]
fn matching_ids_keeps_the_order() {
    let ids = id_list(&["b1", "a1", "b2", "a2"]);
    assert_eq!(matching_ids(&ids, "a"), id_list(&["a1", "a2"]));
    assert_eq!(matching_ids(&ids, "b"), id_list(&["b1", "b2"]));
    assert!(matching_ids(&ids, "c").is_empty());
}

#[test]
fn issue_index_finds_the_unique_entry() {
    let one = git2::Oid::from_str("1111111111111111111111111111111111111111").unwrap();
    let two = git2::Oid::from_str("2222222222222222222222222222222222222222").unwrap();
    let index = IssueIndex {
        entries: vec![
            IssueEntry { id: "st-ab12".to_string(), oid: one },
            IssueEntry { id: "st-cd34".to_string(), oid: two },
        ],
    };
    let (id, oid) = index.find_unique("st-c").unwrap();
    assert_eq!(id, "st-cd34");
    assert_eq!(oid, two);
    assert!(matches!(index.find_unique("st-x"), Err(Error::NotFound(_))));
    match index.find_unique("st-") {
        Err(Error::AmbiguousId(p, candidates)) => {
            assert_eq!(p, "st-");
            assert_eq!(candidates, id_list(&["st-ab12", "st-cd34"]));
        }
        other => panic!("unexpected {:?}", other),
    }
}
