use marketplace_kit::keyed::TextMap;

#[test]
fn text_map_insert_get_overwrite() {
    let mut m = TextMap::new();
    assert!(m.is_empty());
    m.insert("a".to_string(), "1".to_string());
    m.insert("b".to_string(), "2".to_string());
    m.insert("a".to_string(), "3".to_string());
    assert_eq!(m.len(), 2);
    assert_eq!(m.get("a"), Some(&"3".to_string()));
    assert_eq!(m.get("b"), Some(&"2".to_string()));
    assert_eq!(m.get("c"), None);
    assert!(m.contains_key("b"));
    assert!(!m.contains_key("z"));
    assert_eq!(m.entries().len(), 2);
    let copy = m.clone();
    assert_eq!(copy.get("a"), Some(&"3".to_string()));
}
