use lokalise_key_usage::key_set::KeySet;
use lokalise_key_usage::string_map::StringMap;

fn set(keys: &[&str]) -> KeySet {
    let mut all = KeySet::new();
    for key in keys {
        all.insert(key.to_string());
    }
    all
}

#[test]
fn new_set_is_empty() {
    let keys = KeySet::new();
    assert_eq!(keys.len(), 0);
    assert!(keys.is_empty());
    assert!(!keys.contains("a"));
    assert!(keys.key(0).is_none());
}

#[test]
fn insert_adds_a_key_once() {
    let mut keys = KeySet::new();
    assert!(keys.insert("a".to_string()));
    assert!(keys.insert("b".to_string()));
    assert!(!keys.insert("a".to_string()));
    assert_eq!(keys.len(), 2);
    assert!(!keys.is_empty());
    assert!(keys.contains("a"));
    assert!(keys.contains("b"));
    assert!(!keys.contains("c"));
    assert!(!keys.contains(""));
    assert_eq!(keys.key(0).unwrap(), "a");
    assert_eq!(keys.key(1).unwrap(), "b");
    assert!(keys.key(2).is_none());
}

#[test]
fn extend_is_union() {
    let mut keys = set(&["a", "b"]);
    keys.extend(&set(&["b", "c"]));
    assert_eq!(keys.len(), 3);
    assert!(keys.contains("a") && keys.contains("b") && keys.contains("c"));
    keys.extend(&KeySet::new());
    assert_eq!(keys.len(), 3);
}

#[test]
fn sets_are_equal_whatever_the_order_of_insertion() {
    assert_eq!(set(&["a", "b", "c"]), set(&["c", "a", "b", "a"]));
    assert_ne!(set(&["a", "b"]), set(&["a", "c"]));
    assert_ne!(set(&["a", "b"]), set(&["a", "b", "c"]));
    assert_ne!(set(&["a", "b", "c"]), set(&["a", "b"]));
    assert_eq!(KeySet::new(), set(&[]));
}

#[test]
fn clone_holds_the_same_keys() {
    let keys = set(&["a", "b"]);
    let copy = keys.clone();
    assert_eq!(copy, keys);
    assert_eq!(copy.len(), 2);
}

#[test]
fn subset_compares_elements() {
    assert!(set(&["a"]).is_subset_of(&set(&["b", "a"])));
    assert!(set(&[]).is_subset_of(&set(&[])));
    assert!(!set(&["a", "c"]).is_subset_of(&set(&["b", "a"])));
}

#[test]
fn new_map_is_empty() {
    let map: StringMap<u32> = StringMap::new();
    assert_eq!(map.len(), 0);
    assert!(map.get("a").is_none());
    assert!(!map.contains_key("a"));
    assert!(map.entry(0).is_none());
}

#[test]
fn map_insert_replaces_the_value_of_a_name() {
    let mut map: StringMap<u32> = StringMap::new();
    assert_eq!(map.insert("a".to_string(), 1), None);
    assert_eq!(map.insert("b".to_string(), 2), None);
    assert_eq!(map.insert("c".to_string(), 3), None);
    assert_eq!(map.insert("a".to_string(), 4), Some(1));
    assert_eq!(map.len(), 3);
    assert_eq!(map.get("a"), Some(&4));
    assert_eq!(map.get("b"), Some(&2));
    assert_eq!(map.get("c"), Some(&3));
    assert_eq!(map.get("d"), None);
    assert!(map.contains_key("b"));
}

#[test]
fn map_remove_takes_one_entry_out() {
    let mut map: StringMap<u32> = StringMap::new();
    map.insert("a".to_string(), 1);
    map.insert("b".to_string(), 2);
    map.insert("c".to_string(), 3);
    assert_eq!(map.remove("a"), Some(1));
    assert_eq!(map.remove("a"), None);
    assert_eq!(map.remove("z"), None);
    assert_eq!(map.len(), 2);
    assert_eq!(map.get("b"), Some(&2));
    assert_eq!(map.get("c"), Some(&3));
    assert_eq!(map.remove("c"), Some(3));
    assert_eq!(map.remove("b"), Some(2));
    assert_eq!(map.len(), 0);
}

#[test]
fn map_entries_can_be_walked() {
    let mut map: StringMap<u32> = StringMap::new();
    map.insert("a".to_string(), 1);
    map.insert("b".to_string(), 2);
    let mut seen = Vec::new();
    let mut i = 0;
    while let Some((name, value)) = map.entry(i) {
        seen.push((name.clone(), *value));
        i += 1;
    }
    seen.sort();
    assert_eq!(seen, vec![("a".to_string(), 1), ("b".to_string(), 2)]);
}
