use flag::storage::table::Data;
use flag::storage::table::Entry;
use flag::storage::text::same_text;

fn strings(items: &[&str]) -> Vec<String> {
    items.iter().map(|item| item.to_string()).collect()
}

fn entry(key: &str, values: &[&str]) -> Entry {
    Entry { key: key.to_string(), values: strings(values) }
}

#[test]
fn new_table_is_empty() {
    let table = Data::new();
    assert_eq!(table.len(), 0);
    assert!(table.is_empty());
    assert!(!table.contains_key("k1"));
    assert_eq!(table.get("k1"), None);
    assert!(table.entries().is_empty());
}

#[test]
fn default_table_is_empty() {
    let table = Data::default();
    assert_eq!(table.len(), 0);
    assert!(table.is_empty());
}

#[test]
fn insert_lists_values_under_key() {
    let mut table = Data::new();
    table.insert("k1".to_string(), strings(&["x"]));
    table.insert("k2".to_string(), strings(&["y", "z"]));
    assert_eq!(table.len(), 2);
    assert!(!table.is_empty());
    assert!(table.contains_key("k1"));
    assert!(table.contains_key("k2"));
    assert!(!table.contains_key("k3"));
    assert_eq!(table.get("k1"), Some(&strings(&["x"])));
    assert_eq!(table.get("k2"), Some(&strings(&["y", "z"])));
    assert_eq!(table.get("k3"), None);
}

#[test]
fn insert_replaces_what_the_key_had() {
    let mut table = Data::new();
    table.insert("k".to_string(), strings(&["old", "older"]));
    table.insert("other".to_string(), strings(&["kept"]));
    table.insert("k".to_string(), strings(&["new"]));
    assert_eq!(table.len(), 2);
    assert_eq!(table.get("k"), Some(&strings(&["new"])));
    assert_eq!(table.get("other"), Some(&strings(&["kept"])));
}

#[test]
fn values_keep_order_and_repeats() {
    let mut table = Data::new();
    table.insert("k".to_string(), strings(&["b", "a", "b", "", "A"]));
    assert_eq!(table.get("k"), Some(&strings(&["b", "a", "b", "", "A"])));
}

#[test]
fn keys_are_compared_letter_for_letter() {
    let mut table = Data::new();
    table.insert("Key".to_string(), strings(&["upper"]));
    table.insert("key".to_string(), strings(&["lower"]));
    table.insert("key ".to_string(), strings(&["space"]));
    table.insert("".to_string(), strings(&["empty"]));
    assert_eq!(table.len(), 4);
    assert_eq!(table.get("Key"), Some(&strings(&["upper"])));
    assert_eq!(table.get("key"), Some(&strings(&["lower"])));
    assert_eq!(table.get("key "), Some(&strings(&["space"])));
    assert_eq!(table.get(""), Some(&strings(&["empty"])));
    assert_eq!(table.get("ke"), None);
}

#[test]
fn extend_lets_the_later_entry_stay() {
    let mut table = Data::new();
    table.insert("a".to_string(), strings(&["1"]));
    table.extend(vec![entry("b", &["2"]), entry("a", &["3"]), entry("b", &["4", "5"])]);
    assert_eq!(table.len(), 2);
    assert_eq!(table.get("a"), Some(&strings(&["3"])));
    assert_eq!(table.get("b"), Some(&strings(&["4", "5"])));
}

#[test]
fn extend_with_nothing_changes_nothing() {
    let mut table = Data::new();
    table.insert("a".to_string(), strings(&["1"]));
    table.extend(Vec::new());
    assert_eq!(table.len(), 1);
    assert_eq!(table.get("a"), Some(&strings(&["1"])));
}

#[test]
fn merge_prefers_the_other_table() {
    let mut table = Data::new();
    table.insert("mine".to_string(), strings(&["m"]));
    table.insert("both".to_string(), strings(&["left", "left2"]));
    let mut other = Data::new();
    other.insert("both".to_string(), strings(&["right"]));
    other.insert("theirs".to_string(), strings(&["t"]));
    table.merge(other);
    assert_eq!(table.len(), 3);
    assert_eq!(table.get("mine"), Some(&strings(&["m"])));
    assert_eq!(table.get("both"), Some(&strings(&["right"])));
    assert_eq!(table.get("theirs"), Some(&strings(&["t"])));
}

#[test]
fn merge_of_disjoint_tables_is_their_union() {
    let mut table = Data::new();
    table.insert("k1".to_string(), strings(&["x"]));
    let mut other = Data::new();
    other.insert("k2".to_string(), strings(&["y", "z"]));
    table.merge(other);
    assert_eq!(table.len(), 2);
    assert_eq!(table.get("k1"), Some(&strings(&["x"])));
    assert_eq!(table.get("k2"), Some(&strings(&["y", "z"])));
}

#[test]
fn entries_hold_each_key_once() {
    let mut table = Data::new();
    table.insert("a".to_string(), strings(&["1"]));
    table.insert("b".to_string(), strings(&["2"]));
    table.insert("a".to_string(), strings(&["3"]));
    let mut entries = table.entries().clone();
    entries.sort_by(|left, right| left.key.cmp(&right.key));
    assert_eq!(entries, vec![entry("a", &["3"]), entry("b", &["2"])]);
}

#[test]
fn same_text_compares_characters() {
    assert!(same_text("", ""));
    assert!(same_text("json", "json"));
    assert!(!same_text("json", "JSON"));
    assert!(!same_text("json", "jso"));
    assert!(!same_text("jso", "json"));
    assert!(!same_text("json", "jsom"));
    assert!(same_text("是否通知", "是否通知"));
    assert!(!same_text("是否通知", "是否发送"));
    assert!(!same_text("e\u{301}", "\u{e9}"));
}
