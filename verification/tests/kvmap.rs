use s3_core::kvmap::KeyValueMap;

#[test]
fn map_keeps_keys_in_order() {
    let mut m = KeyValueMap::new();
    assert!(m.is_empty());
    assert_eq!(m.insert("pear".to_string(), "1".to_string()), None);
    assert_eq!(m.insert("apple".to_string(), "2".to_string()), None);
    assert_eq!(m.insert("app".to_string(), "3".to_string()), None);
    assert_eq!(m.insert("Zebra".to_string(), "4".to_string()), None);
    assert_eq!(m.insert("é".to_string(), "5".to_string()), None);
    let keys: Vec<String> = m.iter().into_iter().map(|(k, _)| k.clone()).collect();
    assert_eq!(keys, vec!["Zebra", "app", "apple", "pear", "é"]);
    assert_eq!(m.len(), 5);
}

#[test]
fn map_insert_returns_previous_value() {
    let mut m = KeyValueMap::default();
    assert_eq!(m.insert("k".to_string(), "1".to_string()), None);
    assert_eq!(m.insert("k".to_string(), "2".to_string()), Some("1".to_string()));
    assert_eq!(m.get("k"), Some(&"2".to_string()));
    assert!(m.contains_key("k"));
    assert!(!m.contains_key("kk"));
    assert_eq!(m.len(), 1);
}

#[test]
fn map_remove() {
    let mut m = KeyValueMap::new();
    m.insert("a".to_string(), "1".to_string());
    m.insert("b".to_string(), "2".to_string());
    m.insert("c".to_string(), "3".to_string());
    assert_eq!(m.remove("b"), Some("2".to_string()));
    assert_eq!(m.remove("b"), None);
    assert_eq!(m.get("b"), None);
    assert_eq!(m.get("c"), Some(&"3".to_string()));
    let copy = m.clone();
    assert_eq!(copy.len(), 2);
    assert_eq!(copy, m);
}
