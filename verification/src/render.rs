//! Writing: structured values as JSON text, and lists of fragments as one
//! bracketed list.

use vstd::prelude::*;
use crate::boundary::json_rendering;
use crate::boundary::render_document;
use crate::boundary::render_fields;
use crate::text::joined;
use crate::text::views;
use crate::value::object_of;
use crate::value::JsonValue;

verus! {

/// The fragments joined by commas between square brackets; nothing at all for
/// no fragments.
pub open spec fn packed(items: Seq<Seq<char>>) -> Seq<char> {
    if items.len() == 0 {
        Seq::empty()
    } else {
        (seq!['['] + joined(items, ',')).push(']')
    }
}

/// The JSON text of `value`; the empty string where it cannot be written.
pub fn json_package(value: &JsonValue) -> (text: String)
    ensures
        text@ == match json_rendering(value@) {
            Ok(written) => written,
            Err(_) => Seq::empty(),
        },
{
    match render_document(value) {
        Ok(written) => written,
        Err(_) => String::new(),
    }
}

/// The JSON text of the object with these fields. Where it cannot be written
/// the text returned is the account of the failure instead, which nothing in
/// the result tells apart from JSON.
pub fn map_to_json(fields: &[(String, JsonValue)]) -> (text: String)
    ensures
        text@ == match json_rendering(object_of(fields@)) {
            Ok(written) => written,
            Err(account) => account,
        },
{
    match render_fields(fields) {
        Ok(written) => written,
        Err(account) => account,
    }
}

/// Packs fragments into one list: `[a,b,c]`. The fragments are taken as they
/// are, neither checked nor escaped. No fragments give the empty string.
pub fn list_to_json(list: &[String]) -> (text: String)
    ensures
        text@ == packed(views(list@)),
{
    if list.len() == 0 {
        return String::new();
    }
    proof {
        reveal_strlit("[");
    }
    let mut text = "[".to_owned();
    let mut i: usize = 0;
    while i < list.len()
        invariant
            i <= list.len(),
            text@ == seq!['['] + joined(views(list@).take(i as int), ','),
        decreases list.len() - i,
    {
        proof {
            reveal_strlit(",");
            let upto = views(list@).take(i as int + 1);
            assert(upto.drop_last() =~= views(list@).take(i as int));
            assert(upto.last() == list[i as int]@);
        }
        if i > 0 {
            text.append(",");
        }
        text.append(list[i].as_str());
        i += 1;
    }
    proof {
        reveal_strlit("]");
        assert(views(list@).take(list.len() as int) =~= views(list@));
    }
    text.append("]");
    text
}

} // verus!
