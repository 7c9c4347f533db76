//! The tolerant reading: strictly where that yields anything, permissively
//! otherwise.

use vstd::prelude::*;
use crate::boundary::json_document;
use crate::flat_map::pairs_map;
use crate::flat_map::FlatMap;
use crate::permissive::lemma_segment_pairs_keys;
use crate::permissive::permissive_map;
use crate::permissive::segments_of;
use crate::permissive::str_interface_to_json;
use crate::strict::coerced_fields;
use crate::strict::flattened;
use crate::strict::lemma_flattened_keys;
use crate::strict::json_to_map;
use crate::strict::ParseError;
use crate::text::split_on;
use crate::value::JsonModel;

verus! {

/// The strict reading where it succeeded and holds at least one key, else the
/// permissive reading.
pub open spec fn first_useful_map(
    strict: Option<Map<Seq<char>, Seq<char>>>,
    permissive: Map<Seq<char>, Seq<char>>,
) -> Map<Seq<char>, Seq<char>> {
    match strict {
        Some(map) => if map == Map::<Seq<char>, Seq<char>>::empty() {
            permissive
        } else {
            map
        },
        None => permissive,
    }
}

/// The tolerant reading of a text.
pub open spec fn tolerant_map(text: Seq<char>) -> Map<Seq<char>, Seq<char>> {
    first_useful_map(
        match json_document(text) {
            Some(document) => Some(flattened(document)),
            None => None,
        },
        permissive_map(text),
    )
}

/// The fields of an object whose values are all strings.
pub open spec fn string_fields(entries: Seq<(Seq<char>, Seq<char>)>) -> Seq<
    (Seq<char>, JsonModel),
> {
    entries.map_values(|e: (Seq<char>, Seq<char>)| (e.0, JsonModel::String(e.1)))
}

/// A text that denotes an object of string values, with at least one field,
/// is read back as exactly those keys and values: the strict reading is
/// taken, and it copies each string verbatim.
pub proof fn lemma_tolerant_recovers_strings(text: Seq<char>, entries: Seq<(Seq<char>, Seq<char>)>)
    requires
        json_document(text) == Some(JsonModel::Object(string_fields(entries))),
        entries.len() > 0,
    ensures
        tolerant_map(text) == pairs_map(entries),
{
    assert(coerced_fields(string_fields(entries)) =~= entries);
    assert(pairs_map(entries).contains_key(entries.last().0));
}

/// No key of the tolerant reading is read in part: each is a top-level key of
/// the object that the text denotes, or the first of exactly two pieces of a
/// segment of the text.
pub proof fn lemma_tolerant_map_keys(text: Seq<char>, key: Seq<char>)
    requires
        tolerant_map(text).contains_key(key),
    ensures
        ({
            ||| json_document(text) matches Some(JsonModel::Object(fields)) && exists|i: int|
                0 <= i < fields.len() && #[trigger] fields[i].0 == key
            ||| exists|i: int|
                0 <= i < segments_of(text).len() && split_on(
                    #[trigger] segments_of(text)[i],
                    ':',
                ).len() == 2 && split_on(segments_of(text)[i], ':')[0] == key
        }),
{
    match json_document(text) {
        Some(JsonModel::Object(fields)) => {
            if flattened(JsonModel::Object(fields)).contains_key(key) {
                lemma_flattened_keys(fields, key);
            } else {
                lemma_segment_pairs_keys(segments_of(text), key);
            }
        },
        _ => {
            lemma_segment_pairs_keys(segments_of(text), key);
        },
    }
}

/// Keeps the outcome of the strict reading where it is a map with at least
/// one key; reads `text` permissively where it is an error or an empty map.
pub fn first_useful(strict: Result<FlatMap, ParseError>, text: &str) -> (map: FlatMap)
    ensures
        map@ == first_useful_map(
            match strict {
                Ok(read) => Some(read@),
                Err(_) => None,
            },
            permissive_map(text@),
        ),
{
    match strict {
        Ok(read) => {
            if read.is_empty() {
                str_interface_to_json(text)
            } else {
                read
            }
        },
        Err(_) => str_interface_to_json(text),
    }
}

/// Reads `text` into a flat map, whatever it holds: as JSON where that gives
/// at least one key, else permissively. There is no text it refuses.
pub fn str_to_json(text: &str) -> (map: FlatMap)
    ensures
        map@ == tolerant_map(text@),
{
    first_useful(json_to_map(text), text)
}

} // verus!
