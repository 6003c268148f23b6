use graph_gateway::ordered::OrderedMap;

fn names(map: &OrderedMap<String>) -> Vec<String> {
    (0..map.len()).map(|i| format!("{}={}", map.key_at(i), map.value_at(i))).collect()
}

fn letters() -> OrderedMap<String> {
    let mut map: OrderedMap<String> = OrderedMap::new();
    for (key, value) in [("c", "1"), ("a", "2"), ("b", "3"), ("d", "4")] {
        map.insert(key.to_string(), value.to_string());
    }
    map
}

#[test]
fn names_keep_the_order_in_which_they_came() {
    let mut map = letters();
    assert_eq!(names(&map), vec!["c=1", "a=2", "b=3", "d=4"]);
    // A name that is there keeps its place and takes the new value.
    map.insert("a".to_string(), "5".to_string());
    assert_eq!(names(&map), vec!["c=1", "a=5", "b=3", "d=4"]);
    assert_eq!(map.position("c"), 0);
    assert_eq!(map.position("b"), 2);
    assert_eq!(map.position("x"), 4);
    assert!(map.contains_key("d") && !map.contains_key("x"));
    assert_eq!(map.get("b").map(String::as_str), Some("3"));
    assert_eq!(map.get("x"), None);
    assert_eq!(map.replace(3, "6".to_string()), "4");
    assert_eq!(map.get("d").map(String::as_str), Some("6"));
}

#[test]
fn taking_a_name_out_moves_the_later_ones_up() {
    let mut map = letters();
    map.remove("a");
    assert_eq!(names(&map), vec!["c=1", "b=3", "d=4"]);
    assert_eq!((map.position("c"), map.position("b"), map.position("d"), map.position("a")), (0, 1, 2, 3));
    map.remove("x");
    assert_eq!(names(&map), vec!["c=1", "b=3", "d=4"]);
    map.remove("c");
    map.remove("d");
    assert_eq!(names(&map), vec!["b=3"]);
    // A name that left can come again, as the last.
    map.insert("a".to_string(), "7".to_string());
    assert_eq!(names(&map), vec!["b=3", "a=7"]);
    assert_eq!(map.position("a"), 1);
}

#[test]
fn cutting_keeps_the_first_names() {
    let mut map = letters();
    map.truncate(9);
    assert_eq!(map.len(), 4);
    map.truncate(2);
    assert_eq!(names(&map), vec!["c=1", "a=2"]);
    assert_eq!((map.position("b"), map.position("d")), (2, 2));
    map.push("b".to_string(), "8".to_string());
    assert_eq!(names(&map), vec!["c=1", "a=2", "b=8"]);
    map.truncate(0);
    assert_eq!(map.len(), 0);
    assert_eq!(map.position("c"), 0);
}

#[test]
fn a_map_is_made_of_pairs_and_gives_them_back() {
    let map = OrderedMap::from_entries(vec![("y".to_string(), "1".to_string()), ("x".to_string(), "2".to_string())]);
    assert_eq!((map.position("y"), map.position("x"), map.position("z")), (0, 1, 2));
    assert_eq!(map.into_entries(), vec![("y".to_string(), "1".to_string()), ("x".to_string(), "2".to_string())]);
}
