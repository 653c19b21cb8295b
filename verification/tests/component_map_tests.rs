use kloenk::component_map::ComponentMap;

#[test]
fn insert_get_and_replace() {
    let mut map: ComponentMap<u32> = ComponentMap::new();
    assert_eq!(map.len(), 0);
    assert!(map.get(&"a".to_string()).is_none());
    map.insert("a".to_string(), 1);
    map.insert("b".to_string(), 2);
    assert_eq!(map.get(&"a".to_string()), Some(&1));
    assert_eq!(map.get(&"b".to_string()), Some(&2));
    map.insert("a".to_string(), 3);
    assert_eq!(map.len(), 2);
    assert_eq!(map.get(&"a".to_string()), Some(&3));
    assert!(map.contains_key(&"b".to_string()));
    assert!(!map.contains_key(&"c".to_string()));
}

#[test]
fn remove_takes_only_that_key() {
    let mut map: ComponentMap<u32> = ComponentMap::new();
    map.insert("a".to_string(), 1);
    map.insert("b".to_string(), 2);
    map.insert("c".to_string(), 3);
    map.remove(&"b".to_string());
    assert_eq!(map.len(), 2);
    assert!(map.get(&"b".to_string()).is_none());
    assert_eq!(map.get(&"a".to_string()), Some(&1));
    assert_eq!(map.get(&"c".to_string()), Some(&3));
    map.remove(&"x".to_string());
    assert_eq!(map.len(), 2);
    let (name, value) = map.entry(1);
    assert_eq!(name, "c");
    assert_eq!(*value, 3);
}
