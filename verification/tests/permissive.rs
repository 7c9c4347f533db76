use e9571_json_lib::str_interface_to_json;
use e9571_json_lib::FlatMap;

fn value_of<'a>(map: &'a FlatMap, key: &str) -> Option<&'a str> {
    map.get(key).map(|v| v.as_str())
}

#[test]
fn braces_are_stripped_and_pairs_read() {
    let map = str_interface_to_json("{a:1,b:2}");
    assert_eq!(map.len(), 2);
    assert_eq!(value_of(&map, "a"), Some("1"));
    assert_eq!(value_of(&map, "b"), Some("2"));
}

#[test]
fn malformed_middle_segment_is_dropped() {
    let map = str_interface_to_json("a:1,b,c:3");
    assert_eq!(map.len(), 2);
    assert_eq!(value_of(&map, "a"), Some("1"));
    assert_eq!(value_of(&map, "c"), Some("3"));
    assert!(!map.contains_key("b"));
}

#[test]
fn empty_text_reads_as_nothing() {
    let map = str_interface_to_json("");
    assert_eq!(map.len(), 0);
    assert!(map.is_empty());
}

#[test]
fn braces_alone_read_as_nothing() {
    assert!(str_interface_to_json("{}").is_empty());
    assert!(str_interface_to_json("}{{").is_empty());
}

#[test]
fn nothing_is_trimmed() {
    let map = str_interface_to_json(" a : 1 ,b:2\n");
    assert_eq!(map.len(), 2);
    assert_eq!(value_of(&map, " a "), Some(" 1 "));
    assert_eq!(value_of(&map, "b"), Some("2\n"));
    assert!(!map.contains_key("a"));
}

#[test]
fn empty_pieces_are_kept() {
    let map = str_interface_to_json("a:,:b");
    assert_eq!(map.len(), 2);
    assert_eq!(value_of(&map, "a"), Some(""));
    assert_eq!(value_of(&map, ""), Some("b"));
    let lone = str_interface_to_json(":");
    assert_eq!(lone.len(), 1);
    assert_eq!(value_of(&lone, ""), Some(""));
}

#[test]
fn segment_of_three_pieces_is_dropped() {
    let map = str_interface_to_json("a:b:c,d:e");
    assert_eq!(map.len(), 1);
    assert_eq!(value_of(&map, "d"), Some("e"));
    assert!(!map.contains_key("a"));
}

#[test]
fn later_segment_overrides_earlier() {
    let map = str_interface_to_json("a:1,b:2,a:3");
    assert_eq!(map.len(), 2);
    assert_eq!(value_of(&map, "a"), Some("3"));
    assert_eq!(value_of(&map, "b"), Some("2"));
}

#[test]
fn braces_are_removed_wherever_they_stand() {
    let map = str_interface_to_json("a{:}1,{{b}}:{2}");
    assert_eq!(map.len(), 2);
    assert_eq!(value_of(&map, "a"), Some("1"));
    assert_eq!(value_of(&map, "b"), Some("2"));
}

#[test]
fn quoting_is_not_understood() {
    let map = str_interface_to_json("{\"a\":\"x,y\"}");
    assert_eq!(map.len(), 1);
    assert_eq!(value_of(&map, "\"a\""), Some("\"x"));
}

#[test]
fn trailing_comma_adds_nothing() {
    let map = str_interface_to_json("a:1,");
    assert_eq!(map.len(), 1);
    assert_eq!(value_of(&map, "a"), Some("1"));
}
