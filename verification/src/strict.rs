//! The strict reading: text as JSON, and the top level of an object as a flat
//! map.

use vstd::prelude::*;
use crate::boundary::json_document;
use crate::boundary::parse_document;
use crate::flat_map::lemma_pairs_map_keys;
use crate::flat_map::lemma_pairs_map_value;
use crate::flat_map::pairs_map;
use crate::flat_map::FlatMap;
use crate::text::integer_text;
use crate::value::coerce;
use crate::value::coerced_text;
use crate::value::kind_of;
use crate::value::lemma_object_view;
use crate::value::JsonModel;
use crate::value::JsonValue;
use crate::value::ValueKind;

verus! {

/// Why a text could not be read as JSON.
#[derive(Debug, PartialEq, Eq)]
pub struct ParseError {
    /// The parser's own account of the failure.
    pub message: String,
}

/// Each field's key with the text that stands for its value.
pub open spec fn coerced_fields(fields: Seq<(Seq<char>, JsonModel)>) -> Seq<
    (Seq<char>, Seq<char>),
> {
    fields.map_values(|f: (Seq<char>, JsonModel)| (f.0, coerced_text(f.1)))
}

/// The flat map of a structured value: for an object, each top-level key with
/// the text that stands for its value; for any other value, nothing. Values
/// are not descended into.
pub open spec fn flattened(value: JsonModel) -> Map<Seq<char>, Seq<char>> {
    match value {
        JsonModel::Object(fields) => pairs_map(coerced_fields(fields)),
        _ => Map::empty(),
    }
}

/// Every field of an object that no later field overrides is recovered under
/// its key: a string verbatim, a whole number in base 10, any other number by
/// its decimal expansion, and a value of unknown kind (null, a boolean, an
/// array, an object) as exactly `0`.
pub proof fn lemma_flattened_field(fields: Seq<(Seq<char>, JsonModel)>, i: int)
    requires
        0 <= i < fields.len(),
        forall|j: int| i < j < fields.len() ==> (#[trigger] fields[j]).0 != fields[i].0,
    ensures
        flattened(JsonModel::Object(fields)).contains_key(fields[i].0),
        flattened(JsonModel::Object(fields))[fields[i].0] == coerced_text(fields[i].1),
        match fields[i].1 {
            JsonModel::String(s) => coerced_text(fields[i].1) == s,
            JsonModel::Integer(n) => coerced_text(fields[i].1) == integer_text(n),
            JsonModel::Decimal(expansion) => coerced_text(fields[i].1) == expansion,
            _ => coerced_text(fields[i].1) == "0"@,
        },
        kind_of(fields[i].1) == ValueKind::Unknown ==> flattened(JsonModel::Object(fields))[fields[i].0]
            == "0"@,
{
    let pairs = coerced_fields(fields);
    assert forall|j: int| i < j < pairs.len() implies (#[trigger] pairs[j]).0 != pairs[i].0 by {
        assert(fields[j].0 != fields[i].0);
    }
    lemma_pairs_map_value(pairs, i);
}

/// The flat map of an object holds no key but those of its fields.
pub proof fn lemma_flattened_keys(fields: Seq<(Seq<char>, JsonModel)>, key: Seq<char>)
    ensures
        flattened(JsonModel::Object(fields)).contains_key(key) <==> exists|i: int|
            0 <= i < fields.len() && #[trigger] fields[i].0 == key,
{
    let pairs = coerced_fields(fields);
    lemma_pairs_map_keys(pairs, key);
    if exists|i: int| 0 <= i < pairs.len() && #[trigger] pairs[i].0 == key {
        let i = choose|i: int| 0 <= i < pairs.len() && #[trigger] pairs[i].0 == key;
        assert(fields[i].0 == key);
    }
    if exists|i: int| 0 <= i < fields.len() && #[trigger] fields[i].0 == key {
        let i = choose|i: int| 0 <= i < fields.len() && #[trigger] fields[i].0 == key;
        assert(pairs[i].0 == key);
    }
}

/// Flattens a structured value: the top-level fields of an object, each value
/// coerced to text; an empty map for a value that is no object.
pub fn flatten(value: &JsonValue) -> (map: FlatMap)
    ensures
        map@ == flattened(value@),
{
    let mut map = FlatMap::new();
    match value {
        JsonValue::Object(fields) => {
            let ghost model = value@->Object_0;
            proof {
                lemma_object_view(*value);
            }
            let mut i: usize = 0;
            while i < fields.len()
                invariant
                    i <= fields.len(),
                    value@ == JsonModel::Object(model),
                    model.len() == fields.len(),
                    forall|j: int|
                        0 <= j < fields.len() ==> model[j] == (
                            (#[trigger] fields[j]).0@,
                            fields[j].1@,
                        ),
                    map@ == pairs_map(coerced_fields(model.take(i as int))),
                decreases fields.len() - i,
            {
                let key = fields[i].0.clone();
                let text = coerce(&fields[i].1);
                proof {
                    let upto = coerced_fields(model.take(i as int + 1));
                    assert(upto.drop_last() =~= coerced_fields(model.take(i as int)));
                    assert(upto.last() == (key@, text@));
                }
                map.insert(key, text);
                i += 1;
            }
            proof {
                assert(model.take(fields.len() as int) =~= model);
            }
        },
        _ => {},
    }
    map
}

/// Reads `text` as JSON and flattens what it denotes. The text is refused
/// exactly where it is not JSON; JSON that is no object gives an empty map.
pub fn json_to_map(text: &str) -> (outcome: Result<FlatMap, ParseError>)
    ensures
        match outcome {
            Ok(map) => json_document(text@) matches Some(document) && map@ == flattened(document),
            Err(_) => json_document(text@) is None,
        },
{
    match parse_document(text) {
        Ok(value) => Ok(flatten(&value)),
        Err(error) => Err(ParseError { message: error.to_string() }),
    }
}

} // verus!
