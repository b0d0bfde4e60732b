use twitch_chat::tags::TagMap;

#[test]
fn new_map_is_empty() {
    let tags = TagMap::new();
    assert!(tags.is_empty());
    assert_eq!(tags.len(), 0);
    assert!(tags.get("k").is_none());
    assert!(!tags.contains_key("k"));
}

#[test]
fn insert_then_get() {
    let mut tags = TagMap::new();
    tags.insert("color".to_string(), "#00FF00".to_string());
    tags.insert("mod".to_string(), "1".to_string());
    assert_eq!(tags.len(), 2);
    assert!(!tags.is_empty());
    assert_eq!(tags.get("color").map(|s| s.as_str()), Some("#00FF00"));
    assert_eq!(tags.get("mod").map(|s| s.as_str()), Some("1"));
    assert!(tags.contains_key("mod"));
    assert!(!tags.contains_key("Mod"));
    assert!(tags.get("co").is_none());
}

#[test]
fn insert_replaces_value_of_same_key() {
    let mut tags = TagMap::new();
    tags.insert("a".to_string(), "1".to_string());
    tags.insert("b".to_string(), "2".to_string());
    tags.insert("a".to_string(), "3".to_string());
    assert_eq!(tags.len(), 2);
    assert_eq!(tags.get("a").map(|s| s.as_str()), Some("3"));
    assert_eq!(tags.get("b").map(|s| s.as_str()), Some("2"));
}

#[test]
fn empty_key_and_value_are_stored() {
    let mut tags = TagMap::new();
    tags.insert(String::new(), String::new());
    assert_eq!(tags.len(), 1);
    assert_eq!(tags.get("").map(|s| s.as_str()), Some(""));
}

#[test]
fn clone_is_independent() {
    let mut tags = TagMap::new();
    tags.insert("a".to_string(), "1".to_string());
    let copy = tags.clone();
    tags.insert("a".to_string(), "2".to_string());
    tags.insert("b".to_string(), "3".to_string());
    assert_eq!(copy.len(), 1);
    assert_eq!(copy.get("a").map(|s| s.as_str()), Some("1"));
    assert_eq!(tags.len(), 2);
}
