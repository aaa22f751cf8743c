use cargo_cite::occurrence::{chars_of, contains};
use cargo_cite::text::{decimal_i32, decimal_u32, join};

fn strings(items: &[&str]) -> Vec<String> {
    items.iter().map(|s| s.to_string()).collect()
}

#[test]
fn join_of_nothing_is_empty() {
    assert_eq!(join(&Vec::new(), " and "), "");
}

#[test]
fn join_of_one_is_the_item() {
    assert_eq!(join(&strings(&["A"]), " and "), "A");
}

#[test]
fn join_of_three() {
    assert_eq!(join(&strings(&["A", "B", "C"]), " and "), "A and B and C");
    assert_eq!(join(&strings(&["x", "y", "z"]), ", "), "x, y, z");
}

#[test]
fn join_keeps_empty_items() {
    assert_eq!(join(&strings(&["", "", ""]), "-"), "--");
    assert_eq!(join(&strings(&["a", ""]), "+"), "a+");
}

#[test]
fn join_agrees_with_the_standard_library() {
    let parts = strings(&["one", "two", "three", "four"]);
    assert_eq!(join(&parts, " and "), parts.join(" and "));
}

#[test]
fn decimal_of_unsigned_numbers() {
    assert_eq!(decimal_u32(0), "0");
    assert_eq!(decimal_u32(7), "7");
    assert_eq!(decimal_u32(10), "10");
    assert_eq!(decimal_u32(12), "12");
    assert_eq!(decimal_u32(1005), "1005");
    assert_eq!(decimal_u32(u32::MAX), "4294967295");
}

#[test]
fn decimal_of_signed_numbers() {
    assert_eq!(decimal_i32(0), "0");
    assert_eq!(decimal_i32(2024), "2024");
    assert_eq!(decimal_i32(-1), "-1");
    assert_eq!(decimal_i32(-44), "-44");
    assert_eq!(decimal_i32(i32::MAX), "2147483647");
    assert_eq!(decimal_i32(i32::MIN), "-2147483648");
}

#[test]
fn decimal_agrees_with_the_standard_library() {
    for n in [0u32, 1, 9, 10, 11, 99, 100, 101, 999, 1000, 65535, 65536, 1_000_000] {
        assert_eq!(decimal_u32(n), n.to_string());
    }
    for n in [-100_000i32, -1001, -1000, -10, -9, 0, 9, 10, 1969, 2024, 99_999] {
        assert_eq!(decimal_i32(n), n.to_string());
    }
}

#[test]
fn chars_of_a_string() {
    assert_eq!(chars_of(""), Vec::<char>::new());
    assert_eq!(chars_of("a\u{e9}\u{4e2d}"), vec!['a', '\u{e9}', '\u{4e2d}']);
}

#[test]
fn contains_finds_a_run() {
    assert!(contains("README.md", "README"));
    assert!(contains("my-README", "README"));
    assert!(contains("xREADMEx", "README"));
    assert!(contains("READREADME", "README"));
    assert!(contains("anything", ""));
    assert!(contains("", ""));
}

#[test]
fn contains_rejects_what_is_not_there() {
    assert!(!contains("readme.md", "README"));
    assert!(!contains("READ_ME", "README"));
    assert!(!contains("READM", "README"));
    assert!(!contains("", "README"));
    assert!(!contains("EMDAER", "README"));
}

#[test]
fn contains_counts_characters_not_bytes() {
    assert!(contains("\u{e9}\u{e9}README", "README"));
    assert!(contains("a\u{4e2d}b", "\u{4e2d}b"));
    assert!(!contains("a\u{4e2d}b", "\u{4e2d}c"));
}
