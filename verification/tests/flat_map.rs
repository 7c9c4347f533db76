use e9571_json_lib::FlatMap;

#[test]
fn new_map_is_empty() {
    let map = FlatMap::new();
    assert_eq!(map.len(), 0);
    assert!(map.is_empty());
    assert_eq!(map.get("a"), None);
    assert!(!map.contains_key(""));
    assert!(map.entries().is_empty());
}

#[test]
fn inserted_value_is_found() {
    let mut map = FlatMap::new();
    map.insert("a".to_string(), "1".to_string());
    map.insert("".to_string(), "empty key".to_string());
    assert_eq!(map.len(), 2);
    assert!(!map.is_empty());
    assert_eq!(map.get("a"), Some(&"1".to_string()));
    assert_eq!(map.get(""), Some(&"empty key".to_string()));
    assert_eq!(map.get("A"), None);
    assert!(map.contains_key("a"));
}

#[test]
fn inserting_again_overwrites() {
    let mut map = FlatMap::new();
    map.insert("a".to_string(), "1".to_string());
    map.insert("b".to_string(), "2".to_string());
    map.insert("a".to_string(), "3".to_string());
    assert_eq!(map.len(), 2);
    assert_eq!(map.get("a"), Some(&"3".to_string()));
    assert_eq!(map.get("b"), Some(&"2".to_string()));
}

#[test]
fn entries_hold_each_key_once() {
    let mut map = FlatMap::new();
    for (key, value) in [("x", "1"), ("y", "2"), ("x", "3"), ("z", "4"), ("y", "5")] {
        map.insert(key.to_string(), value.to_string());
    }
    let mut listed: Vec<(String, String)> = map.entries().clone();
    listed.sort();
    assert_eq!(
        listed,
        vec![
            ("x".to_string(), "3".to_string()),
            ("y".to_string(), "5".to_string()),
            ("z".to_string(), "4".to_string()),
        ]
    );
}
