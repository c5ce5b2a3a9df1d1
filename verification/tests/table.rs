use embargo::table::Table;
use embargo::text::{decimal_text, describe, index_path, join, precedes, same_text};

#[test]
fn a_table_keeps_the_order_of_its_names() {
    let mut table: Table<String> = Table::new();
    assert!(table.is_empty());
    table.insert("m".to_string(), "1".to_string());
    table.insert("z".to_string(), "2".to_string());
    table.insert("a".to_string(), "3".to_string());
    table.insert("ma".to_string(), "4".to_string());
    assert_eq!(table.len(), 4);
    assert_eq!(table.key_at(0), "a");
    assert_eq!(table.key_at(1), "m");
    assert_eq!(table.key_at(2), "ma");
    assert_eq!(table.key_at(3), "z");
    assert_eq!(table.value_at(2), "4");
    assert_eq!(table.get("z"), Some(&"2".to_string()));
    assert_eq!(table.get("y"), None);
    assert!(table.contains_key("a"));
    assert!(!table.contains_key(""));
}

#[test]
fn a_name_is_bound_once() {
    let mut table: Table<bool> = Table::new();
    table.insert("a".to_string(), true);
    table.insert("b".to_string(), true);
    table.insert("a".to_string(), false);
    assert_eq!(table.len(), 2);
    assert_eq!(table.get("a"), Some(&false));
    assert_eq!(table.get("b"), Some(&true));
}

#[test]
fn tables_are_equal_whatever_the_order_of_insertion() {
    let mut first: Table<bool> = Table::new();
    first.insert("a".to_string(), true);
    first.insert("b".to_string(), false);
    let mut second: Table<bool> = Table::new();
    second.insert("b".to_string(), false);
    second.insert("a".to_string(), true);
    assert_eq!(first, second);
    assert_eq!(first.clone(), second);
    second.insert("b".to_string(), true);
    assert_ne!(first, second);
}

#[test]
fn the_order_of_strings() {
    assert!(precedes("a", "b"));
    assert!(!precedes("b", "a"));
    assert!(!precedes("a", "a"));
    assert!(precedes("", "a"));
    assert!(!precedes("", ""));
    assert!(precedes("a", "ab"));
    assert!(precedes("Z", "a"));
    assert!(precedes("z", "é"));
    assert!(precedes("é", "€"));
    assert_eq!(precedes("another", "argh"), "another" < "argh");
}

#[test]
fn strings_that_are_the_same() {
    assert!(same_text("", ""));
    assert!(same_text("package", "package"));
    assert!(!same_text("package", "packages"));
    assert!(!same_text("package", "packagf"));
    assert!(same_text("é€", "é€"));
}

#[test]
fn numerals() {
    assert_eq!(decimal_text(0), "0");
    assert_eq!(decimal_text(7), "7");
    assert_eq!(decimal_text(10), "10");
    assert_eq!(decimal_text(1234567890), "1234567890");
}

#[test]
fn paths() {
    assert_eq!(join("", "variants"), "variants");
    assert_eq!(join("variants[0]", "package"), "variants[0].package");
    assert_eq!(index_path("variants", 12), "variants[12]");
    assert_eq!(describe("variants", "is not an array"), "variants is not an array");
}
