use codegen::name_map::NameMap;

#[test]
fn name_map_keeps_the_order_of_first_insertion() {
    let mut map: NameMap<String> = NameMap::new();
    assert_eq!(map.len(), 0);
    assert!(!map.contains_key("a"));
    assert_eq!(map.get("a"), None);
    assert!(map.names().is_empty());

    map.insert("b".to_string(), "1".to_string());
    map.insert("a".to_string(), "2".to_string());
    map.insert("".to_string(), "3".to_string());
    map.insert("b".to_string(), "4".to_string());

    assert_eq!(map.len(), 3);
    assert_eq!(
        map.names(),
        vec!["b".to_string(), "a".to_string(), "".to_string()]
    );
    assert_eq!(map.get("b").map(|s| s.as_str()), Some("4"));
    assert_eq!(map.get("a").map(|s| s.as_str()), Some("2"));
    assert_eq!(map.get("").map(|s| s.as_str()), Some("3"));
    assert_eq!(map.get("c"), None);
    assert!(map.contains_key(""));
    assert!(!map.contains_key("B"));
    assert_eq!(map.name_at(0), "b");
    assert_eq!(map.value_at(0), "4");
    assert_eq!(map.name_at(2), "");
    assert_eq!(map.value_at(1), "2");

    map.clear();
    assert_eq!(map.len(), 0);
    assert_eq!(map.get("b"), None);
    map.insert("b".to_string(), "5".to_string());
    assert_eq!(map.names(), vec!["b".to_string()]);
}
