//! Structured values: the tree that JSON text denotes.

use vstd::prelude::*;
use crate::text::integer_text;
use crate::text::signed_text;
use crate::text::unsigned_text;

verus! {

/// A JSON number.
#[derive(Debug, PartialEq, Eq)]
pub enum JsonNumber {
    /// A whole number from zero up.
    PosInt(u64),
    /// A whole number, as a rule below zero.
    NegInt(i64),
    /// Any other number, held as its decimal expansion: the shortest that
    /// tells it from every other float, written without an exponent, such as
    /// `2.5`, `-0.001`, or `1` for a float of whole value.
    Decimal(String),
}

/// A structured value: one node of the tree that a JSON text denotes, with
/// the nodes below it.
#[derive(Debug, PartialEq, Eq)]
pub enum JsonValue {
    Null,
    Bool(bool),
    Number(JsonNumber),
    String(String),
    Array(Vec<JsonValue>),
    /// The fields in the order they are held; of two fields with one key the
    /// later one counts.
    Object(Vec<(String, JsonValue)>),
}

/// What a [`JsonValue`] stands for: the same tree over mathematical integers
/// and sequences of characters.
pub enum JsonModel {
    Null,
    Bool(bool),
    Integer(int),
    Decimal(Seq<char>),
    String(Seq<char>),
    Array(Seq<JsonModel>),
    Object(Seq<(Seq<char>, JsonModel)>),
}

impl View for JsonNumber {
    type V = JsonModel;

    open spec fn view(&self) -> JsonModel {
        match self {
            JsonNumber::PosInt(u) => JsonModel::Integer(*u as int),
            JsonNumber::NegInt(i) => JsonModel::Integer(*i as int),
            JsonNumber::Decimal(text) => JsonModel::Decimal(text@),
        }
    }
}

/// What a structured value stands for, node by node.
pub open spec fn model_of(value: JsonValue) -> JsonModel
    decreases value,
{
    match value {
        JsonValue::Null => JsonModel::Null,
        JsonValue::Bool(b) => JsonModel::Bool(b),
        JsonValue::Number(n) => n@,
        JsonValue::String(s) => JsonModel::String(s@),
        JsonValue::Array(items) => JsonModel::Array(
            Seq::new(
                items.len() as nat,
                |i: int|
                    if 0 <= i < items.len() {
                        model_of(items[i])
                    } else {
                        JsonModel::Null
                    },
            ),
        ),
        JsonValue::Object(fields) => JsonModel::Object(
            Seq::new(
                fields.len() as nat,
                |i: int|
                    if 0 <= i < fields.len() {
                        (fields[i].0@, model_of(fields[i].1))
                    } else {
                        (Seq::empty(), JsonModel::Null)
                    },
            ),
        ),
    }
}

impl View for JsonValue {
    type V = JsonModel;

    open spec fn view(&self) -> JsonModel {
        model_of(*self)
    }
}

/// The object that a list of fields stands for.
pub open spec fn object_of(fields: Seq<(String, JsonValue)>) -> JsonModel {
    JsonModel::Object(fields.map_values(|f: (String, JsonValue)| (f.0@, f.1@)))
}

/// What an object stands for, field by field.
pub proof fn lemma_object_view(value: JsonValue)
    requires
        value is Object,
    ensures
        value@ is Object,
        value@->Object_0.len() == value->Object_0.len(),
        forall|j: int|
            0 <= j < value->Object_0.len() ==> (#[trigger] value@->Object_0[j]) == (
                value->Object_0[j].0@,
                value->Object_0[j].1@,
            ),
{
    reveal_with_fuel(model_of, 2);
}

/// The kind of a structured value, by which its text in a flat map is chosen.
#[derive(Debug, Clone, Copy, PartialEq, Eq, Structural)]
pub enum ValueKind {
    String,
    Integer,
    Decimal,
    Unknown,
}

/// The kind of a value: a string, a whole number, any other number, or
/// unknown for null, a boolean, an array and an object.
pub open spec fn kind_of(value: JsonModel) -> ValueKind {
    match value {
        JsonModel::String(_) => ValueKind::String,
        JsonModel::Integer(_) => ValueKind::Integer,
        JsonModel::Decimal(_) => ValueKind::Decimal,
        _ => ValueKind::Unknown,
    }
}

/// The name under which a kind is reported.
pub open spec fn kind_name(kind: ValueKind) -> Seq<char> {
    match kind {
        ValueKind::String => "string"@,
        ValueKind::Integer => "int"@,
        ValueKind::Decimal => "float64"@,
        ValueKind::Unknown => "unknown"@,
    }
}

/// The name tells the kind: no two kinds are reported under one name.
pub proof fn lemma_kind_name_tells_kind(a: ValueKind, b: ValueKind)
    requires
        kind_name(a) == kind_name(b),
    ensures
        a == b,
{
    reveal_strlit("string");
    reveal_strlit("int");
    reveal_strlit("float64");
    reveal_strlit("unknown");
    assert("string"@.len() == 6 && "int"@.len() == 3);
    assert("float64"@.len() == 7 && "unknown"@.len() == 7);
    assert("float64"@[0] == 'f' && "unknown"@[0] == 'u');
}

/// The text that stands for a value in a flat map: a string as it is, a whole
/// number in base 10, any other number by its decimal expansion, and `0` for
/// a value of unknown kind.
pub open spec fn coerced_text(value: JsonModel) -> Seq<char> {
    match value {
        JsonModel::String(s) => s,
        JsonModel::Integer(i) => integer_text(i),
        JsonModel::Decimal(expansion) => expansion,
        _ => "0"@,
    }
}

/// Classifies a value.
pub fn classify(value: &JsonValue) -> (kind: ValueKind)
    ensures
        kind == kind_of(value@),
{
    match value {
        JsonValue::String(_) => ValueKind::String,
        JsonValue::Number(JsonNumber::PosInt(_)) => ValueKind::Integer,
        JsonValue::Number(JsonNumber::NegInt(_)) => ValueKind::Integer,
        JsonValue::Number(JsonNumber::Decimal(_)) => ValueKind::Decimal,
        _ => ValueKind::Unknown,
    }
}

/// The name of a value's kind: `string`, `int`, `float64` or `unknown`.
pub fn typeof_json(value: &JsonValue) -> (name: &'static str)
    ensures
        name@ == kind_name(kind_of(value@)),
{
    match classify(value) {
        ValueKind::String => "string",
        ValueKind::Integer => "int",
        ValueKind::Decimal => "float64",
        ValueKind::Unknown => "unknown",
    }
}

/// The text that stands for `value` in a flat map.
pub fn coerce(value: &JsonValue) -> (text: String)
    ensures
        text@ == coerced_text(value@),
{
    match value {
        JsonValue::String(s) => s.clone(),
        JsonValue::Number(JsonNumber::PosInt(u)) => unsigned_text(*u),
        JsonValue::Number(JsonNumber::NegInt(i)) => signed_text(*i),
        JsonValue::Number(JsonNumber::Decimal(expansion)) => expansion.clone(),
        _ => "0".to_owned(),
    }
}

} // verus!
