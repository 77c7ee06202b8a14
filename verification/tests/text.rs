use aiken::name_map::NameMap;
use aiken::text::{
    concat2, contains, decimal_text, ends_with, find_from, is_less, join, pad_right, starts_with,
    trim,
};

#[test]
fn decimal_of_numbers() {
    assert_eq!(decimal_text(0), "0");
    assert_eq!(decimal_text(9), "9");
    assert_eq!(decimal_text(10), "10");
    assert_eq!(decimal_text(1205), "1205");
    assert_eq!(decimal_text(usize::MAX), usize::MAX.to_string());
}

#[test]
fn texts_are_searched() {
    assert_eq!(find_from("a{b{c", "{", 0), Some(1));
    assert_eq!(find_from("a{b{c", "{", 2), Some(3));
    assert_eq!(find_from("abc", "{", 0), None);
    assert_eq!(find_from("abc", "", 3), Some(3));
    assert!(contains("lib/validators/x", "validators"));
    assert!(!contains("lib/validator", "validators"));
    assert!(starts_with("aiken/list", "aiken/"));
    assert!(!starts_with("aiken", "aiken/"));
    assert!(ends_with("module::name", "::name"));
    assert!(!ends_with("name", "::name"));
}

#[test]
fn texts_are_built() {
    assert_eq!(concat2("a", "b"), "ab");
    assert_eq!(pad_right("ab", 4), "ab  ");
    assert_eq!(pad_right("abcde", 4), "abcde");
    assert_eq!(trim(" \t a b \n"), "a b");
    assert_eq!(trim("   "), "");
    assert_eq!(join(&vec!["a".to_string(), "b".to_string()], "/"), "a/b");
    assert_eq!(join(&vec![], "/"), "");
}

#[test]
fn texts_are_ordered() {
    assert!(is_less("a", "b"));
    assert!(is_less("a", "ab"));
    assert!(is_less("", "a"));
    assert!(!is_less("a", "a"));
    assert!(!is_less("b", "ab"));
}

#[test]
fn binding_a_name_replaces_its_value_in_place() {
    let map: NameMap<u8> = NameMap::new();
    let map = map.insert("x".to_string(), 1).insert("y".to_string(), 2);
    let map = map.insert("x".to_string(), 3);
    assert_eq!(map.len(), 2);
    assert_eq!(map.get("x"), Some(&3));
    assert_eq!(map.get("y"), Some(&2));
    assert_eq!(map.get("z"), None);
    assert_eq!(map.name(0), "x");
    assert_eq!(map.find("y"), Some(1));
}
