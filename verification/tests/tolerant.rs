use e9571_json_lib::json_to_map;
use e9571_json_lib::map_to_json;
use e9571_json_lib::str_to_json;
use e9571_json_lib::tolerant::first_useful;
use e9571_json_lib::FlatMap;
use e9571_json_lib::JsonValue;
use e9571_json_lib::ParseError;

fn held<'a>(map: &'a FlatMap, key: &str) -> Option<&'a str> {
    map.get(key).map(|v| v.as_str())
}

#[test]
fn json_object_is_read_strictly() {
    let map = str_to_json("{\"a\":1,\"b\":\"x,y:z\",\"c\":[1]}");
    assert_eq!(map.len(), 3);
    assert_eq!(held(&map, "a"), Some("1"));
    assert_eq!(held(&map, "b"), Some("x,y:z"));
    assert_eq!(held(&map, "c"), Some("0"));
}

#[test]
fn text_that_is_not_json_is_read_permissively() {
    let map = str_to_json("{a:1,b:2}");
    assert_eq!(map.len(), 2);
    assert_eq!(held(&map, "a"), Some("1"));
    assert_eq!(held(&map, "b"), Some("2"));
}

#[test]
fn empty_strict_reading_falls_back() {
    let map = str_to_json("\"a:1\"");
    assert_eq!(map.len(), 1);
    assert_eq!(held(&map, "\"a"), Some("1\""));
    assert!(str_to_json("[]").is_empty());
    assert!(str_to_json("{}").is_empty());
    assert!(str_to_json("17").is_empty());
}

#[test]
fn no_text_is_refused() {
    assert!(str_to_json("").is_empty());
    assert!(str_to_json("\u{0}\u{1}\u{7f}\u{fffd}\u{10ffff}").is_empty());
    assert!(str_to_json(",,,,").is_empty());
    assert!(str_to_json("{{{{").is_empty());
    assert_eq!(str_to_json("::::,:").len(), 1);
    let long = "k:v,".repeat(200);
    let map = str_to_json(&long);
    assert_eq!(map.len(), 1);
    assert_eq!(held(&map, "k"), Some("v"));
}

#[test]
fn first_useful_keeps_a_strict_map_with_keys() {
    let strict = json_to_map("{\"a\":\"strict\"}");
    let map = first_useful(strict, "a:permissive");
    assert_eq!(map.len(), 1);
    assert_eq!(held(&map, "a"), Some("strict"));
}

#[test]
fn first_useful_replaces_an_empty_strict_map() {
    let map = first_useful(Ok(FlatMap::new()), "a:permissive");
    assert_eq!(map.len(), 1);
    assert_eq!(held(&map, "a"), Some("permissive"));
}

#[test]
fn first_useful_replaces_an_error() {
    let strict = Err(ParseError { message: "expected value".to_string() });
    let map = first_useful(strict, "a:permissive,b");
    assert_eq!(map.len(), 1);
    assert_eq!(held(&map, "a"), Some("permissive"));
}

#[test]
fn string_map_survives_writing_and_reading() {
    let fields = vec![
        ("plain".to_string(), JsonValue::String("value".to_string())),
        ("with,comma".to_string(), JsonValue::String("a,b:c".to_string())),
        ("quote\"d".to_string(), JsonValue::String("say \"hi\"\n{}".to_string())),
        ("".to_string(), JsonValue::String("".to_string())),
        ("digits".to_string(), JsonValue::String("007".to_string())),
        ("\u{e9}\u{4e2d}".to_string(), JsonValue::String("\u{1f600}\\".to_string())),
    ];
    let map = str_to_json(&map_to_json(&fields));
    assert_eq!(map.len(), fields.len());
    for (key, value) in &fields {
        match value {
            JsonValue::String(text) => assert_eq!(held(&map, key), Some(text.as_str())),
            _ => unreachable!(),
        }
    }
}

#[test]
fn empty_map_survives_writing_and_reading() {
    let text = map_to_json(&[]);
    assert_eq!(text, "{}");
    assert!(str_to_json(&text).is_empty());
}
