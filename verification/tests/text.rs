use sterna::text::{contains_str, copy_list, copy_opt, decimal_text, join2, owned, truncate};

#[test]
fn decimal_text_of_numbers() {
    assert_eq!(decimal_text(0), "0");
    assert_eq!(decimal_text(7), "7");
    assert_eq!(decimal_text(10), "10");
    assert_eq!(decimal_text(1234567890), "1234567890");
    assert_eq!(decimal_text(u64::MAX), "18446744073709551615");
}

#[test]
fn truncate_keeps_short_titles() {
    assert_eq!(truncate("short", 40), "short");
    assert_eq!(truncate("", 3), "");
    let forty = "a".repeat(40);
    assert_eq!(truncate(&forty, 40), forty);
}

#[test]
fn truncate_cuts_long_titles() {
    let long = "a".repeat(41);
    let cut = truncate(&long, 40);
    assert_eq!(cut, format!("{}...", "a".repeat(37)));
    assert_eq!(cut.len(), 40);
    assert_eq!(truncate("abcdef", 5), "ab...");
    assert_eq!(truncate("abcd", 3), "...");
}

#[test]
fn truncate_counts_bytes() {
    // 'é' takes two bytes: the text has 6 bytes, the cut falls after "aé"
    assert_eq!(truncate("aébc", 5), "aébc");
    assert_eq!(truncate("aébcd", 6), "aébcd");
    assert_eq!(truncate("aébcde", 6), "aé...");
}

#[test]
fn small_string_helpers() {
    assert_eq!(owned("abc"), "abc");
    assert_eq!(join2("ab", "cd"), "abcd");
    assert_eq!(copy_opt(&Some("x".to_string())), Some("x".to_string()));
    assert_eq!(copy_opt(&None), None);
    let list = vec!["a".to_string(), "b".to_string()];
    assert_eq!(copy_list(&list), list);
    assert!(contains_str(&list, "b"));
    assert!(!contains_str(&list, "c"));
    assert!(!contains_str(&vec![], "c"));
}
