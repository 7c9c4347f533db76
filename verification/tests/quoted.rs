use e9571_json_lib::quoted::pair_from_spans;
use e9571_json_lib::quoted::read_quoted_pairs;
use e9571_json_lib::str_to_json_node;

fn owned(items: &[&str]) -> Vec<String> {
    items.iter().map(|s| s.to_string()).collect()
}

#[test]
fn two_spans_make_a_pair() {
    let pair = pair_from_spans(&owned(&["\"key\"", "\"value\""]));
    assert_eq!(pair, Some(("key".to_string(), "value".to_string())));
}

#[test]
fn every_quote_is_stripped_from_both() {
    let pair = pair_from_spans(&owned(&["\"k\"\"1\"", "v\"\"\""]));
    assert_eq!(pair, Some(("k1".to_string(), "v".to_string())));
    let bare = pair_from_spans(&owned(&["", "\""]));
    assert_eq!(bare, Some(("".to_string(), "".to_string())));
}

#[test]
fn any_other_count_of_spans_makes_none() {
    assert_eq!(pair_from_spans(&owned(&[])), None);
    assert_eq!(pair_from_spans(&owned(&["\"a\""])), None);
    assert_eq!(pair_from_spans(&owned(&["\"a\"", "\"b\"", "\"c\""])), None);
}

#[test]
fn tokens_are_the_quoted_spans_in_order() {
    let reading = read_quoted_pairs("[\"a\",\"b c\"] \"\" tail \"open");
    assert_eq!(reading.rejected, owned(&["\"a\"", "\"b c\"", "\"\""]));
    assert!(reading.map.is_empty());
}

#[test]
fn span_runs_across_lines_to_the_next_quote() {
    let reading = read_quoted_pairs("x\"one\ntwo\"y\"three\"");
    assert_eq!(reading.rejected, owned(&["\"one\ntwo\"", "\"three\""]));
}

#[test]
fn text_without_quotes_has_no_tokens() {
    let reading = read_quoted_pairs("a:1,b:2");
    assert!(reading.map.is_empty());
    assert!(reading.rejected.is_empty());
    assert!(str_to_json_node("").is_empty());
}

#[test]
fn token_of_one_span_gives_no_pair() {
    let map = str_to_json_node("[[\"a\",\"1\"],[\"b\",\"2\"]]");
    assert_eq!(map.len(), 0);
}
