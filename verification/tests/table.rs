use drill::shared::SharedMap;
use drill::table::Table;

#[test]
fn table_keeps_the_last_entry() {
    let mut table = Table::new();
    assert_eq!(table.get("a"), None);
    table.insert(String::from("a"), String::from("1"));
    table.insert(String::from("b"), String::from("2"));
    table.insert(String::from("a"), String::from("3"));
    assert_eq!(table.get("a").map(String::as_str), Some("3"));
    assert_eq!(table.get("b").map(String::as_str), Some("2"));
    assert_eq!(table.remove("a").as_deref(), Some("3"));
    assert_eq!(table.remove("a"), None);
    assert_eq!(table.get("a"), None);
    let list = table.into_list();
    assert_eq!(list, vec![(String::from("b"), String::from("2"))]);
}

#[test]
fn table_lists_every_entry_once() {
    let mut table = Table::new();
    for key in ["x", "y", "x", "z", "y"] {
        table.insert(String::from(key), format!("of {}", key));
    }
    let mut list = table.into_list();
    list.sort();
    assert_eq!(list.len(), 3);
    assert_eq!(list[0], (String::from("x"), String::from("of x")));
    assert_eq!(list[1], (String::from("y"), String::from("of y")));
    assert_eq!(list[2], (String::from("z"), String::from("of z")));
}

#[test]
fn shared_map_is_a_map() {
    let mut map = SharedMap::new();
    assert_eq!(map.len(), 0);
    assert!(!map.contains_key("a"));
    assert_eq!(map.get("a"), None);
    assert_eq!(map.insert(String::from("a"), String::from("1")), None);
    assert_eq!(map.insert(String::from("b"), String::from("2")), None);
    assert_eq!(map.insert(String::from("a"), String::from("3")).as_deref(), Some("1"));
    assert_eq!(map.len(), 2);
    assert!(map.contains_key("a"));
    assert_eq!(map.get("a").as_deref(), Some("3"));
    assert_eq!(map.remove("a").as_deref(), Some("3"));
    assert_eq!(map.remove("a"), None);
    assert_eq!(map.len(), 1);
    assert_eq!(map.get("b").as_deref(), Some("2"));
}
