//! The permissive reading: `key:value` segments separated by commas, with no
//! notion of quoting, nesting or escaping.

use vstd::prelude::*;
use crate::boundary::split_text;
use crate::flat_map::FlatMap;
use crate::text::split_on;
use crate::text::strip_char;
use crate::text::views;
use crate::text::without_char;

verus! {

/// The map that a list of segments builds: each segment that a colon splits
/// into exactly two pieces gives the first piece the second as its value, a
/// later segment over an earlier one; every other segment gives nothing.
pub open spec fn segment_pairs(segments: Seq<Seq<char>>) -> Map<Seq<char>, Seq<char>>
    decreases segments.len(),
{
    if segments.len() == 0 {
        Map::empty()
    } else {
        let before = segment_pairs(segments.drop_last());
        let pieces = split_on(segments.last(), ':');
        if pieces.len() == 2 {
            before.insert(pieces[0], pieces[1])
        } else {
            before
        }
    }
}

/// The segments of a text: every `{` and `}` is taken out, wherever it
/// stands, and the rest is cut at each comma.
pub open spec fn segments_of(text: Seq<char>) -> Seq<Seq<char>> {
    split_on(without_char(without_char(text, '{'), '}'), ',')
}

/// The permissive reading of a text: its segments, read as [`segment_pairs`]
/// says.
pub open spec fn permissive_map(text: Seq<char>) -> Map<Seq<char>, Seq<char>> {
    segment_pairs(segments_of(text))
}

/// No key is read in part: each key of the map is the first of exactly two
/// pieces of some segment.
pub proof fn lemma_segment_pairs_keys(segments: Seq<Seq<char>>, key: Seq<char>)
    requires
        segment_pairs(segments).contains_key(key),
    ensures
        exists|i: int|
            0 <= i < segments.len() && split_on(#[trigger] segments[i], ':').len() == 2
                && split_on(segments[i], ':')[0] == key,
    decreases segments.len(),
{
    let last = segments.len() - 1;
    let pieces = split_on(segments[last], ':');
    if pieces.len() == 2 && pieces[0] == key {
        assert(split_on(segments[last], ':')[0] == key);
    } else {
        let front = segments.drop_last();
        lemma_segment_pairs_keys(front, key);
        let i = choose|i: int|
            0 <= i < front.len() && split_on(#[trigger] front[i], ':').len() == 2 && split_on(
                front[i],
                ':',
            )[0] == key;
        assert(segments[i] == front[i]);
    }
}

/// A segment of exactly two pieces is read, whatever stands around it: unless
/// a later segment sets the same key, the map holds its first piece with its
/// second as the value.
pub proof fn lemma_segment_pairs_value(segments: Seq<Seq<char>>, i: int)
    requires
        0 <= i < segments.len(),
        split_on(segments[i], ':').len() == 2,
        forall|j: int|
            i < j < segments.len() && split_on(#[trigger] segments[j], ':').len() == 2 ==> split_on(
                segments[j],
                ':',
            )[0] != split_on(segments[i], ':')[0],
    ensures
        segment_pairs(segments).contains_key(split_on(segments[i], ':')[0]),
        segment_pairs(segments)[split_on(segments[i], ':')[0]] == split_on(segments[i], ':')[1],
    decreases segments.len(),
{
    let last = segments.len() - 1;
    if i < last {
        let front = segments.drop_last();
        assert(front[i] == segments[i]);
        assert forall|j: int|
            i < j < front.len() && split_on(#[trigger] front[j], ':').len() == 2 implies split_on(
            front[j],
            ':',
        )[0] != split_on(front[i], ':')[0] by {
            assert(front[j] == segments[j]);
        }
        lemma_segment_pairs_value(front, i);
        assert(segments[last] == segments.last());
    }
}

/// Reads `source` permissively. Nothing is trimmed, and a segment that does
/// not split into exactly two pieces is passed over.
pub fn str_interface_to_json(source: &str) -> (map: FlatMap)
    ensures
        map@ == permissive_map(source@),
{
    let opened = strip_char(source, '{');
    let stripped = strip_char(opened.as_str(), '}');
    proof {
        reveal_strlit(",");
    }
    let segments = split_text(stripped.as_str(), ",");
    let mut map = FlatMap::new();
    let mut i: usize = 0;
    while i < segments.len()
        invariant
            i <= segments.len(),
            map@ == segment_pairs(views(segments@).take(i as int)),
        decreases segments.len() - i,
    {
        proof {
            reveal_strlit(":");
        }
        let pieces = split_text(segments[i].as_str(), ":");
        proof {
            let upto = views(segments@).take(i as int + 1);
            assert(upto.drop_last() =~= views(segments@).take(i as int));
            assert(upto.last() == segments[i as int]@);
            assert(views(pieces@).len() == pieces.len());
            if pieces.len() == 2 {
                assert(views(pieces@)[0] == pieces[0]@);
                assert(views(pieces@)[1] == pieces[1]@);
            }
        }
        if pieces.len() == 2 {
            map.insert(pieces[0].clone(), pieces[1].clone());
        }
        i += 1;
    }
    proof {
        assert(views(segments@).take(segments.len() as int) =~= views(segments@));
    }
    map
}

} // verus!
