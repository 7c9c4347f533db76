//! The quoted-pair reading: text made of double-quoted tokens.

use vstd::prelude::*;
use crate::boundary::find_matches;
use crate::boundary::regex_matches;
use crate::boundary::QUOTED_SPAN;
use crate::flat_map::FlatMap;
use crate::text::strip_char;
use crate::text::views;
use crate::text::without_char;

verus! {

/// The pair that the quoted spans of one token give: key and value with
/// every double quote taken out, where there are exactly two spans.
pub open spec fn pair_of(spans: Seq<Seq<char>>) -> Option<(Seq<char>, Seq<char>)> {
    if spans.len() == 2 {
        Some((without_char(spans[0], '"'), without_char(spans[1], '"')))
    } else {
        None
    }
}

/// The quoted spans found inside a token.
pub open spec fn spans_within(token: Seq<char>) -> Seq<Seq<char>> {
    regex_matches(QUOTED_SPAN@, token)
}

/// The map that a list of tokens builds: each token whose spans give a pair
/// adds it, a later token over an earlier one.
pub open spec fn quoted_pairs(tokens: Seq<Seq<char>>) -> Map<Seq<char>, Seq<char>>
    decreases tokens.len(),
{
    if tokens.len() == 0 {
        Map::empty()
    } else {
        let before = quoted_pairs(tokens.drop_last());
        match pair_of(spans_within(tokens.last())) {
            Some(pair) => before.insert(pair.0, pair.1),
            None => before,
        }
    }
}

/// The tokens whose spans give no pair, in order.
pub open spec fn rejected_tokens(tokens: Seq<Seq<char>>) -> Seq<Seq<char>>
    decreases tokens.len(),
{
    if tokens.len() == 0 {
        Seq::empty()
    } else {
        let before = rejected_tokens(tokens.drop_last());
        if pair_of(spans_within(tokens.last())) is None {
            before.push(tokens.last())
        } else {
            before
        }
    }
}

/// What the quoted-pair reading made of a text.
#[derive(Debug)]
pub struct QuotedReading {
    /// The pairs that were read.
    pub map: FlatMap,
    /// The tokens that gave no pair, for the caller to report.
    pub rejected: Vec<String>,
}

/// Turns the quoted spans of one token into a pair, if there are exactly two.
pub fn pair_from_spans(spans: &Vec<String>) -> (pair: Option<(String, String)>)
    ensures
        match pair {
            Some(p) => pair_of(views(spans@)) == Some((p.0@, p.1@)),
            None => pair_of(views(spans@)) is None,
        },
{
    proof {
        assert(views(spans@).len() == spans.len());
    }
    if spans.len() != 2 {
        return None;
    }
    proof {
        assert(views(spans@)[0] == spans[0]@);
        assert(views(spans@)[1] == spans[1]@);
    }
    let key = strip_char(spans[0].as_str(), '"');
    let value = strip_char(spans[1].as_str(), '"');
    Some((key, value))
}

/// Reads `text` as quoted pairs: its quoted spans are the tokens, and each
/// token is searched again for the two spans that make its pair. A token that
/// does not hold exactly two is set aside, and the reading goes on.
pub fn read_quoted_pairs(text: &str) -> (reading: QuotedReading)
    ensures
        reading.map@ == quoted_pairs(spans_within(text@)),
        views(reading.rejected@) == rejected_tokens(spans_within(text@)),
{
    let tokens = find_matches(QUOTED_SPAN, text);
    let mut map = FlatMap::new();
    let mut rejected: Vec<String> = Vec::new();
    let mut i: usize = 0;
    while i < tokens.len()
        invariant
            i <= tokens.len(),
            map@ == quoted_pairs(views(tokens@).take(i as int)),
            views(rejected@) == rejected_tokens(views(tokens@).take(i as int)),
        decreases tokens.len() - i,
    {
        let spans = find_matches(QUOTED_SPAN, tokens[i].as_str());
        let ghost earlier = views(rejected@);
        proof {
            let upto = views(tokens@).take(i as int + 1);
            assert(upto.drop_last() =~= views(tokens@).take(i as int));
            assert(upto.last() == tokens[i as int]@);
        }
        match pair_from_spans(&spans) {
            Some(pair) => {
                map.insert(pair.0, pair.1);
            },
            None => {
                rejected.push(tokens[i].clone());
                assert(views(rejected@) =~= earlier.push(tokens[i as int]@));
            },
        }
        i += 1;
    }
    proof {
        assert(views(tokens@).take(tokens.len() as int) =~= views(tokens@));
    }
    QuotedReading { map, rejected }
}

/// The pairs of the quoted-pair reading of `text`.
pub fn str_to_json_node(text: &str) -> (map: FlatMap)
    ensures
        map@ == quoted_pairs(spans_within(text@)),
{
    read_quoted_pairs(text).map
}

} // verus!
