use sterna::id::{generate_id, hex_encode, try_generate_id};

fn ids(list: &[&str]) -> Vec<String> {
    list.iter().map(|s| s.to_string()).collect()
}

#[test]
fn first_attempt_takes_four_hex_digits() {
    let id = generate_id("Fix crash", "It crashes", "dev@example.com", 1700000000, &vec![]);
    assert_eq!(id, "st-92b4");
}

#[test]
fn generator_is_deterministic() {
    let a = try_generate_id("Fix crash", "It crashes", "dev@example.com", 1700000000, &vec![]);
    let b = try_generate_id("Fix crash", "It crashes", "dev@example.com", 1700000000, &vec![]);
    assert_eq!(a, b);
    assert_eq!(a, Some("st-92b4".to_string()));
}

#[test]
fn collision_grows_the_identifier() {
    let existing = ids(&["st-92b4"]);
    let id = generate_id("Fix crash", "It crashes", "dev@example.com", 1700000000, &existing);
    assert_eq!(id, "st-4fd63");
    let existing = ids(&["st-92b4", "st-4fd63", "st-ec2653"]);
    let id = generate_id("Fix crash", "It crashes", "dev@example.com", 1700000000, &existing);
    assert_eq!(id, "st-5ac4dd3");
    let existing = ids(&["st-5ac4dd3", "st-92b4", "st-4fd63", "st-ec2653"]);
    let id = generate_id("Fix crash", "It crashes", "dev@example.com", 1700000000, &existing);
    assert_eq!(id, "st-14ecd782");
}

#[test]
fn crowded_set_gives_none() {
    let existing = ids(&["st-92b4", "st-4fd63", "st-ec2653", "st-5ac4dd3", "st-14ecd782"]);
    let id = try_generate_id("Fix crash", "It crashes", "dev@example.com", 1700000000, &existing);
    assert_eq!(id, None);
}

#[test]
fn negative_time_and_unicode_text() {
    let id = generate_id("Ünïcode", "", "é", -5, &vec![]);
    assert_eq!(id, "st-c27a");
}

#[test]
fn identifier_is_new_and_has_lower_case_hex_digits() {
    let existing = ids(&["st-0000"]);
    for stamp in [0, 1, -1, 1700000000, i64::MAX, i64::MIN] {
        let id = try_generate_id("a", "b", "c", stamp, &existing).unwrap();
        assert!(id.starts_with("st-"));
        assert_eq!(id.len(), 7);
        assert!(!existing.contains(&id));
        assert!(id[3..].chars().all(|c| c.is_ascii_hexdigit() && !c.is_ascii_uppercase()));
    }
}

#[test]
fn more_existing_identifiers_never_shorten_the_identifier() {
    let fewer = ids(&["st-92b4"]);
    let more = ids(&["st-ffff", "st-92b4", "st-4fd63"]);
    let a = generate_id("Fix crash", "It crashes", "dev@example.com", 1700000000, &fewer);
    let b = generate_id("Fix crash", "It crashes", "dev@example.com", 1700000000, &more);
    assert_eq!(a, "st-4fd63");
    assert_eq!(b, "st-ec2653");
    assert!(b.len() >= a.len());
}

#[test]
fn hex_is_two_lower_case_digits_per_byte() {
    assert_eq!(hex_encode(&[]), "");
    assert_eq!(hex_encode(&[1, 2, 3, 15, 16]), "0102030f10");
    assert_eq!(hex_encode(b"Hello world!"), "48656c6c6f20776f726c6421");
    assert_eq!(hex_encode(&[0x00, 0x9a, 0xbc, 0xde, 0xff]), "009abcdeff");
    let all: Vec<u8> = (0..=255).collect();
    assert_eq!(hex_encode(&all), hex::encode(&all));
}
