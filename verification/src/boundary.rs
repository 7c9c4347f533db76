//! The calls that leave this crate. Verus takes the contract of each item here
//! on trust; the rest of the crate is proved against them.

use vstd::prelude::*;
use crate::text::split_on;
use crate::text::views;
use crate::value::JsonModel;
use crate::value::JsonNumber;
use crate::value::JsonValue;
use crate::value::object_of;

verus! {

/// `serde_json::Error`, carried as it comes.
#[verifier::external_type_specification]
#[verifier::external_body]
pub struct ExJsonError(serde_json::Error);

/// `serde_json::Value`, the tree that `serde_json` reads and writes.
#[verifier::external_type_specification]
#[verifier::external_body]
pub struct ExJsonValue(serde_json::Value);

/// `serde_json::Number`, a number inside such a tree.
#[verifier::external_type_specification]
#[verifier::external_body]
pub struct ExJsonNumber(serde_json::Number);

/// What `serde_json::from_str` makes of a text: the tree it reads, or `None`
/// where it reports an error. In the tree a number that `as_u64` or `as_i64`
/// gives is whole; any other stands as the expansion that `Display` writes
/// for the float from `as_f64`; the fields of an object come as the map of
/// `serde_json` hands them out, each key once.
pub uninterp spec fn json_document(text: Seq<char>) -> Option<JsonModel>;

/// What `serde_json::to_string` makes of a tree: the text it writes, or the
/// account that the `Display` of its error gives of the failure. Of two
/// fields of an object with one key it is handed the later; a decimal is
/// handed over as the float that `str::parse` reads from the expansion.
pub uninterp spec fn json_rendering(tree: JsonModel) -> Result<Seq<char>, Seq<char>>;

/// The regular expression for a span that runs from one double quote to the
/// next, over any characters, line breaks among them.
pub const QUOTED_SPAN: &'static str = "\"[.\\s\\S]*?\"";

/// Every match of a regular expression in a text, as
/// `e9571_lib1::get_data_preg_list` returns them: whole matches, leftmost
/// first, none overlapping another.
pub uninterp spec fn regex_matches(pattern: Seq<char>, source: Seq<char>) -> Seq<Seq<char>>;

/// `String::push`: appends one character to the end of the string.
#[verifier::external_body]
pub(crate) fn push_char(s: &mut String, c: char)
    ensures
        final(s)@ == old(s)@.push(c),
{
    s.push(c)
}

/// `e9571_lib1::word_split`, which is `str::split` collected into owned
/// strings. With a delimiter of one character the pieces are the stretches
/// of `source` between its occurrences, empty ones included.
#[verifier::external_body]
pub(crate) fn split_text(source: &str, delimiter: &str) -> (pieces: Vec<String>)
    requires
        delimiter@.len() == 1,
    ensures
        views(pieces@) == split_on(source@, delimiter@[0]),
{
    e9571_lib1::e9571_lib1::word_split(source, delimiter)
}

/// `e9571_lib1::get_data_preg_list`: the matches that `regex` finds for
/// `pattern` in `source`, each as an owned string. It panics on a pattern
/// that does not compile, so only [`QUOTED_SPAN`], which does, is let in.
#[verifier::external_body]
pub(crate) fn find_matches(pattern: &str, source: &str) -> (found: Vec<String>)
    requires
        pattern@ == QUOTED_SPAN@,
    ensures
        views(found@) == regex_matches(pattern@, source@),
{
    e9571_lib1::e9571_lib1::get_data_preg_list(pattern, source)
}

/// `serde_json::from_str` at `serde_json::Value`, the tree then converted
/// node for node as a [`JsonValue`].
#[verifier::external_body]
pub(crate) fn parse_document(text: &str) -> (parsed: Result<JsonValue, serde_json::Error>)
    ensures
        match parsed {
            Ok(value) => json_document(text@) == Some(value@),
            Err(_) => json_document(text@) is None,
        },
{
    serde_json::from_str::<serde_json::Value>(text).map(from_tree)
}

/// Converts a tree of `serde_json` into a [`JsonValue`], variant for variant.
#[verifier::external_body]
fn from_tree(tree: serde_json::Value) -> (value: JsonValue)
{
    match tree {
        serde_json::Value::Null => JsonValue::Null,
        serde_json::Value::Bool(b) => JsonValue::Bool(b),
        serde_json::Value::Number(n) => JsonValue::Number(from_tree_number(&n)),
        serde_json::Value::String(s) => JsonValue::String(s),
        serde_json::Value::Array(items) => JsonValue::Array(items.into_iter().map(from_tree).collect()),
        serde_json::Value::Object(fields) => JsonValue::Object(
            fields.into_iter().map(|(key, item)| (key, from_tree(item))).collect(),
        ),
    }
}

/// Converts a number of `serde_json` into a [`JsonNumber`]: a whole number by
/// `as_u64` or `as_i64`, any other by the decimal expansion that `Display`
/// gives the float from `as_f64`.
#[verifier::external_body]
fn from_tree_number(n: &serde_json::Number) -> (number: JsonNumber)
{
    match (n.as_u64(), n.as_i64()) {
        (Some(u), _) => JsonNumber::PosInt(u),
        (None, Some(i)) => JsonNumber::NegInt(i),
        (None, None) => JsonNumber::Decimal(n.as_f64().map(|x| format!("{}", x)).unwrap_or_default()),
    }
}

/// `serde_json::to_string` on the tree that `value` is converted into. An error
/// comes back as the text that its `Display` writes.
#[verifier::external_body]
pub(crate) fn render_document(value: &JsonValue) -> (rendered: Result<String, String>)
    ensures
        match rendered {
            Ok(text) => json_rendering(value@) == Ok::<Seq<char>, Seq<char>>(text@),
            Err(account) => json_rendering(value@) == Err::<Seq<char>, Seq<char>>(account@),
        },
{
    serde_json::to_string(&to_tree(value)).map_err(|error| error.to_string())
}

/// `serde_json::to_string` on the map of `serde_json` that `fields` are
/// collected into, which it writes as it writes an object. An error comes
/// back as the text that its `Display` writes.
#[verifier::external_body]
pub(crate) fn render_fields(fields: &[(String, JsonValue)]) -> (rendered: Result<
    String,
    String,
>)
    ensures
        match rendered {
            Ok(text) => json_rendering(object_of(fields@)) == Ok::<Seq<char>, Seq<char>>(text@),
            Err(account) => json_rendering(object_of(fields@)) == Err::<Seq<char>, Seq<char>>(
                account@,
            ),
        },
{
    serde_json::to_string(
        &fields.iter().map(|(key, item)| (key.clone(), to_tree(item))).collect::<
            serde_json::Map<String, serde_json::Value>,
        >(),
    ).map_err(|error| error.to_string())
}

/// Converts a [`JsonValue`] into a tree of `serde_json`, variant for variant.
/// Collecting an object's fields keeps the later of two with one key.
#[verifier::external_body]
fn to_tree(value: &JsonValue) -> (tree: serde_json::Value)
{
    match value {
        JsonValue::Null => serde_json::Value::Null,
        JsonValue::Bool(b) => serde_json::Value::Bool(*b),
        JsonValue::Number(n) => to_tree_number(n),
        JsonValue::String(s) => serde_json::Value::String(s.clone()),
        JsonValue::Array(items) => serde_json::Value::Array(items.iter().map(to_tree).collect()),
        JsonValue::Object(fields) => serde_json::Value::Object(
            fields.iter().map(|(key, item)| (key.clone(), to_tree(item))).collect(),
        ),
    }
}

/// Converts a [`JsonNumber`] into a tree of `serde_json`. A decimal is read back
/// from its expansion by `str::parse` and handed to
/// `serde_json::Number::from_f64`; where either yields nothing the tree is
/// null, as `serde_json` has it for a float that is no number.
#[verifier::external_body]
fn to_tree_number(n: &JsonNumber) -> (tree: serde_json::Value)
{
    match n {
        JsonNumber::PosInt(u) => serde_json::Value::from(*u),
        JsonNumber::NegInt(i) => serde_json::Value::from(*i),
        JsonNumber::Decimal(text) => text.parse().ok().and_then(serde_json::Number::from_f64)
            .map_or(serde_json::Value::Null, serde_json::Value::Number),
    }
}

} // verus!
