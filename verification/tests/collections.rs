use cyan_backend::collections::{clone_texts, position, TextMap, TextSet};

#[test]
fn a_set_holds_each_text_once() {
    let mut set = TextSet::new();
    assert!(set.insert("a".to_string()));
    assert!(!set.insert("a".to_string()));
    assert!(set.insert("b".to_string()));
    assert_eq!(set.len(), 2);
    assert!(set.contains("a"));
    let mut all = set.list();
    all.sort();
    assert_eq!(all, vec!["a".to_string(), "b".to_string()]);
    set.remove("a");
    assert!(!set.contains("a"));
    assert!(set.contains("b"));
}

#[test]
fn a_map_replaces_and_removes() {
    let mut map: TextMap<u32> = TextMap::new();
    assert_eq!(map.insert("a".to_string(), 1), None);
    assert_eq!(map.insert("a".to_string(), 2), Some(1));
    map.insert("b".to_string(), 3);
    assert_eq!(map.get("a"), Some(&2));
    assert!(map.contains_key("b"));
    assert_eq!(map.remove("a"), Some(2));
    assert_eq!(map.remove("a"), None);
    assert_eq!(map.keys(), vec!["b".to_string()]);
}

#[test]
fn lists_are_searched_from_the_front() {
    let list = vec!["x".to_string(), "y".to_string(), "x".to_string()];
    assert_eq!(position(&list, "x"), Some(0));
    assert_eq!(position(&list, "z"), None);
    assert_eq!(clone_texts(&list), list);
}
