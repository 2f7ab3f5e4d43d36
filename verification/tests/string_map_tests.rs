use pod_inventory::string_map::StringMap;

fn text(s: &str) -> String {
    s.to_string()
}

#[test]
fn new_map_is_empty() {
    let map = StringMap::new();
    assert_eq!(map.len(), 0);
    assert!(map.is_empty());
    assert!(map.get(&text("app")).is_none());
    assert!(!map.contains_key(&text("app")));
    assert!(map.pairs().is_empty());
}

#[test]
fn insert_then_get_returns_the_value() {
    let mut map = StringMap::new();
    map.insert(text("app"), text("web"));
    map.insert(text("maintainer"), text("team-a"));
    assert_eq!(map.len(), 2);
    assert!(!map.is_empty());
    assert_eq!(map.get(&text("app")), Some(&text("web")));
    assert_eq!(map.get(&text("maintainer")), Some(&text("team-a")));
    assert!(map.contains_key(&text("app")));
    assert!(map.get(&text("tier")).is_none());
}

#[test]
fn insert_replaces_the_value_of_a_held_key() {
    let mut map = StringMap::new();
    map.insert(text("app"), text("web"));
    map.insert(text("tier"), text("front"));
    map.insert(text("app"), text("api"));
    assert_eq!(map.len(), 2);
    assert_eq!(map.get(&text("app")), Some(&text("api")));
    assert_eq!(map.get(&text("tier")), Some(&text("front")));
}

#[test]
fn keys_are_compared_exactly() {
    let mut map = StringMap::new();
    map.insert(text("cpu"), text("500m"));
    assert!(map.get(&text("CPU")).is_none());
    assert!(map.get(&text("cpu ")).is_none());
    assert!(map.get(&text("")).is_none());
    map.insert(text(""), text("empty key"));
    assert_eq!(map.get(&text("")), Some(&text("empty key")));
    assert_eq!(map.len(), 2);
}

#[test]
fn pairs_list_each_key_once() {
    let mut map = StringMap::new();
    map.insert(text("b"), text("2"));
    map.insert(text("a"), text("1"));
    map.insert(text("b"), text("3"));
    let mut pairs = map.pairs();
    pairs.sort();
    assert_eq!(pairs, vec![(text("a"), text("1")), (text("b"), text("3"))]);
}

#[test]
fn clone_holds_the_same_entries_and_is_independent() {
    let mut map = StringMap::new();
    map.insert(text("app"), text("web"));
    let mut copy = map.clone();
    assert_eq!(copy.len(), 1);
    assert_eq!(copy.get(&text("app")), Some(&text("web")));
    copy.insert(text("app"), text("api"));
    copy.insert(text("tier"), text("front"));
    assert_eq!(map.len(), 1);
    assert_eq!(map.get(&text("app")), Some(&text("web")));
    assert_eq!(copy.len(), 2);
}
