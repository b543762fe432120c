use qq_cli::table::Table;
use qq_cli::text::{starts_with, str_eq, str_lt};

#[test]
fn keys_come_out_in_byte_order() {
    let mut t: Table<String> = Table::new();
    t.insert("zeta".to_string(), "1".to_string());
    t.insert("alpha".to_string(), "2".to_string());
    t.insert("Beta".to_string(), "3".to_string());
    t.insert("é".to_string(), "4".to_string());
    assert_eq!(t.keys(), vec!["Beta", "alpha", "zeta", "é"]);
    assert_eq!(t.len(), 4);
}

#[test]
fn insert_replaces_at_an_existing_key() {
    let mut t: Table<String> = Table::new();
    t.insert("k".to_string(), "old".to_string());
    t.insert("k".to_string(), "new".to_string());
    assert_eq!(t.len(), 1);
    assert_eq!(t.get("k").map(|s| s.as_str()), Some("new"));
    assert!(t.contains_key("k"));
    assert!(!t.contains_key("K"));
    assert_eq!(t.get("missing"), None);
}

#[test]
fn overlay_prefers_the_other_table() {
    let mut a: Table<String> = Table::new();
    a.insert("x".to_string(), "a-x".to_string());
    a.insert("y".to_string(), "a-y".to_string());
    let mut b: Table<String> = Table::new();
    b.insert("y".to_string(), "b-y".to_string());
    b.insert("z".to_string(), "b-z".to_string());
    a.overlay(&b);
    assert_eq!(a.keys(), vec!["x", "y", "z"]);
    assert_eq!(a.get("y").map(|s| s.as_str()), Some("b-y"));
    assert_eq!(a.get("x").map(|s| s.as_str()), Some("a-x"));
}

#[test]
fn single_and_empty_tables() {
    let t = Table::single("only".to_string(), "v".to_string());
    assert_eq!(t.keys(), vec!["only"]);
    assert_eq!(t.key_at(0), "only");
    assert_eq!(t.value_at(0), "v");
    let e: Table<String> = Table::new();
    assert!(e.is_empty());
    assert!(!t.is_empty());
}

#[test]
fn string_order_and_prefixes() {
    assert!(str_lt("a", "b"));
    assert!(str_lt("ab", "abc"));
    assert!(!str_lt("abc", "ab"));
    assert!(!str_lt("same", "same"));
    assert!(str_lt("Z", "a"));
    assert!(str_eq("same", "same"));
    assert!(!str_eq("same", "Same"));
    assert!(starts_with("install", "ins"));
    assert!(starts_with("install", ""));
    assert!(!starts_with("in", "install"));
    assert!(starts_with("élan", "é"));
}
