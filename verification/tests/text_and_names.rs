use xodus::names::NameMap;
use xodus::text::{
    base_name_of, decimal_text, ends_with, replace_char, same_text, signed_decimal_text,
    starts_with, strip_prefix, trim_end, trim_start,
};

#[test]
fn numbers_are_written_in_decimal() {
    assert_eq!(decimal_text(0), "0");
    assert_eq!(decimal_text(1_000_509), "1000509");
    assert_eq!(decimal_text(u64::MAX), u64::MAX.to_string());
    assert_eq!(signed_decimal_text(-7), "-7");
    assert_eq!(signed_decimal_text(i32::MIN), i32::MIN.to_string());
    assert_eq!(signed_decimal_text(12), "12");
}

#[test]
fn texts_are_cut_and_compared_by_characters() {
    assert!(same_text("äb", "äb"));
    assert!(!same_text("äb", "äc"));
    assert!(starts_with("file://x", "file://"));
    assert!(!starts_with("file:/", "file://"));
    assert!(ends_with("a.msixvc", ".msixvc"));
    assert!(!ends_with("msixvc", ".msixvc"));
    assert_eq!(strip_prefix("file://x", "file://").as_deref(), Some("x"));
    assert_eq!(strip_prefix("http://x", "file://"), None);
    assert_eq!(replace_char("a\\b\\c", '\\', '/'), "a/b/c");
    assert_eq!(trim_end("a\\\\", '\\'), "a");
    assert_eq!(trim_end("\\\\", '\\'), "");
    assert_eq!(trim_start("\\\\a\\", '\\'), "a\\");
}

#[test]
fn the_last_part_of_a_path_is_what_std_says() {
    for path in [
        "", "/", "a", "a/", "a//", "/a", "a/b", "a/b/.", "a/b/./", "a/..", "..", ".", "./a",
        "/..", "/.", "a/...", "a.b/c.d", "C:\\x\\y.exe", "./.", "a/./..", "..a", "a/.b",
    ] {
        let expected = std::path::Path::new(path)
            .file_name()
            .and_then(|s| s.to_str())
            .unwrap_or("");
        assert_eq!(base_name_of(path), expected, "{path:?}");
    }
}

#[test]
fn a_name_has_at_most_one_value() {
    let mut map = NameMap::new();
    assert!(map.is_empty());
    map.insert("a".to_string(), 1);
    map.insert("b".to_string(), 2);
    map.insert("a".to_string(), 3);
    assert_eq!(map.len(), 2);
    assert_eq!(map.get("a"), Some(&3));
    assert_eq!(map.get("c"), None);
    assert_eq!(map.name_at(1), "b");
    assert_eq!(map.value_at(1), &2);
    assert_eq!(map.remove("a"), Some(3));
    assert_eq!(map.remove("a"), None);
    assert!(!map.is_empty());
}

#[test]
fn entries_of_another_table_win() {
    let mut map = NameMap::new();
    map.insert("a".to_string(), 1);
    map.insert("b".to_string(), 2);
    let mut other = NameMap::new();
    other.insert("b".to_string(), 20);
    other.insert("c".to_string(), 30);
    map.extend(other);
    assert_eq!(map.len(), 3);
    assert_eq!(map.get("a"), Some(&1));
    assert_eq!(map.get("b"), Some(&20));
    assert_eq!(map.get("c"), Some(&30));
}
