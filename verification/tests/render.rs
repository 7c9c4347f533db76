use e9571_json_lib::json_package;
use e9571_json_lib::list_to_json;
use e9571_json_lib::map_to_json;
use e9571_json_lib::JsonNumber;
use e9571_json_lib::JsonValue;

fn strings(items: &[&str]) -> Vec<String> {
    items.iter().map(|s| s.to_string()).collect()
}

#[test]
fn packing_nothing_gives_the_empty_string() {
    assert_eq!(list_to_json(&[]), "");
}

#[test]
fn packing_joins_between_brackets() {
    assert_eq!(list_to_json(&strings(&["1", "2", "3"])), "[1,2,3]");
}

#[test]
fn packing_one_fragment() {
    assert_eq!(list_to_json(&strings(&["{\"a\":1}"])), "[{\"a\":1}]");
}

#[test]
fn packing_takes_fragments_as_they_are() {
    assert_eq!(list_to_json(&strings(&["a,b", "", "]["])), "[a,b,,][]");
    assert_eq!(list_to_json(&strings(&[""])), "[]");
}

#[test]
fn scalars_are_written_as_json() {
    assert_eq!(json_package(&JsonValue::Null), "null");
    assert_eq!(json_package(&JsonValue::Bool(true)), "true");
    assert_eq!(json_package(&JsonValue::Bool(false)), "false");
    assert_eq!(json_package(&JsonValue::Number(JsonNumber::PosInt(u64::MAX))), "18446744073709551615");
    assert_eq!(json_package(&JsonValue::Number(JsonNumber::NegInt(i64::MIN))), "-9223372036854775808");
    assert_eq!(json_package(&JsonValue::Number(JsonNumber::NegInt(7))), "7");
    assert_eq!(json_package(&JsonValue::String("a\"b\n".to_string())), "\"a\\\"b\\n\"");
}

#[test]
fn decimals_are_written_as_floats() {
    assert_eq!(json_package(&JsonValue::Number(JsonNumber::Decimal("2.5".to_string()))), "2.5");
    assert_eq!(json_package(&JsonValue::Number(JsonNumber::Decimal("1".to_string()))), "1.0");
    assert_eq!(json_package(&JsonValue::Number(JsonNumber::Decimal("-0.001".to_string()))), "-0.001");
}

#[test]
fn decimal_that_denotes_no_number_is_written_as_null() {
    assert_eq!(json_package(&JsonValue::Number(JsonNumber::Decimal("abc".to_string()))), "null");
    assert_eq!(json_package(&JsonValue::Number(JsonNumber::Decimal("inf".to_string()))), "null");
}

#[test]
fn trees_are_written_as_json() {
    let value = JsonValue::Object(vec![
        ("b".to_string(), JsonValue::Array(vec![
            JsonValue::Number(JsonNumber::PosInt(1)),
            JsonValue::Null,
            JsonValue::Object(vec![]),
        ])),
        ("a".to_string(), JsonValue::String("x".to_string())),
    ]);
    assert_eq!(json_package(&value), "{\"a\":\"x\",\"b\":[1,null,{}]}");
    assert_eq!(json_package(&JsonValue::Array(vec![])), "[]");
}

#[test]
fn fields_are_written_as_an_object() {
    let fields = vec![
        ("name".to_string(), JsonValue::String("x".to_string())),
        ("count".to_string(), JsonValue::Number(JsonNumber::PosInt(3))),
        ("flag".to_string(), JsonValue::Bool(false)),
    ];
    assert_eq!(map_to_json(&fields), "{\"count\":3,\"flag\":false,\"name\":\"x\"}");
}

#[test]
fn later_field_overrides_earlier_when_written() {
    let fields = vec![
        ("k".to_string(), JsonValue::Number(JsonNumber::PosInt(1))),
        ("k".to_string(), JsonValue::Number(JsonNumber::PosInt(2))),
    ];
    assert_eq!(map_to_json(&fields), "{\"k\":2}");
    assert_eq!(json_package(&JsonValue::Object(fields)), "{\"k\":2}");
}
