//! Texts as sequences of characters: taking a character out, cutting at a
//! character and joining again, and whole numbers in base 10.

use vstd::prelude::*;
use crate::boundary::push_char;

verus! {

/// The text of each string of `strings`.
pub open spec fn views(strings: Seq<String>) -> Seq<Seq<char>> {
    strings.map_values(|s: String| s@)
}

/// `s` with every occurrence of `c` taken out, the other characters in order.
pub open spec fn without_char(s: Seq<char>, c: char) -> Seq<char>
    decreases s.len(),
{
    if s.len() == 0 {
        Seq::empty()
    } else if s.last() == c {
        without_char(s.drop_last(), c)
    } else {
        without_char(s.drop_last(), c).push(s.last())
    }
}

/// Removes every occurrence of `c` from `text`.
pub fn strip_char(text: &str, c: char) -> (out: String)
    ensures
        out@ == without_char(text@, c),
{
    let mut out = String::new();
    for ch in it: text.chars()
        invariant
            it.seq() == text@,
            out@ == without_char(text@.take(it.index()), c),
    {
        proof {
            assert(text@.take(it.index() + 1).drop_last() =~= text@.take(it.index()));
        }
        if ch != c {
            push_char(&mut out, ch);
        }
    }
    proof {
        assert(text@.take(text@.len() as int) =~= text@);
    }
    out
}

/// The pieces of `s` between the occurrences of `d`: one more than there are
/// occurrences, empty pieces included.
pub open spec fn split_on(s: Seq<char>, d: char) -> Seq<Seq<char>>
    decreases s.len(),
{
    if s.len() == 0 {
        seq![Seq::empty()]
    } else {
        let before = split_on(s.drop_last(), d);
        if s.last() == d {
            before.push(Seq::empty())
        } else {
            before.drop_last().push(before.last().push(s.last()))
        }
    }
}

/// The fragments one after another, with `separator` between neighbours.
pub open spec fn joined(items: Seq<Seq<char>>, separator: char) -> Seq<char>
    decreases items.len(),
{
    if items.len() == 0 {
        Seq::empty()
    } else if items.len() == 1 {
        items[0]
    } else {
        joined(items.drop_last(), separator).push(separator) + items.last()
    }
}

/// Cutting a text leaves at least one piece.
pub proof fn lemma_split_on_len(s: Seq<char>, d: char)
    ensures
        split_on(s, d).len() >= 1,
    decreases s.len(),
{
    if s.len() > 0 {
        lemma_split_on_len(s.drop_last(), d);
    }
}

/// No piece holds the character the text was cut at.
pub proof fn lemma_split_on_pieces(s: Seq<char>, d: char)
    ensures
        forall|i: int, j: int|
            0 <= i < split_on(s, d).len() && 0 <= j < split_on(s, d)[i].len() ==> #[trigger] split_on(
                s,
                d,
            )[i][j] != d,
    decreases s.len(),
{
    if s.len() > 0 {
        lemma_split_on_len(s.drop_last(), d);
        lemma_split_on_pieces(s.drop_last(), d);
    }
}

/// Joining the pieces with the character the text was cut at gives the text
/// back.
pub proof fn lemma_split_on_joined(s: Seq<char>, d: char)
    ensures
        joined(split_on(s, d), d) == s,
    decreases s.len(),
{
    if s.len() > 0 {
        let before = split_on(s.drop_last(), d);
        lemma_split_on_len(s.drop_last(), d);
        lemma_split_on_joined(s.drop_last(), d);
        if s.last() == d {
            assert(before.push(Seq::empty()).drop_last() =~= before);
            assert(joined(before, d).push(d) + Seq::<char>::empty() =~= s);
        } else {
            let grown = before.drop_last().push(before.last().push(s.last()));
            if before.len() == 1 {
                assert(grown[0] =~= s);
            } else {
                assert(grown.drop_last() =~= before.drop_last());
                assert(joined(before.drop_last(), d).push(d) + before.last().push(s.last())
                    =~= (joined(before.drop_last(), d).push(d) + before.last()).push(s.last()));
                assert(joined(before, d).push(s.last()) =~= s);
            }
        }
    }
}

/// The character of the digit `d`, for `d` from 0 to 9.
pub open spec fn digit_char(d: int) -> char {
    ((d + 48) as u8) as char
}

/// The decimal digits of `n`, most significant first, without leading zeros;
/// `0` for zero.
pub open spec fn decimal_digits(n: nat) -> Seq<char>
    decreases n,
{
    if n < 10 {
        seq![digit_char(n as int)]
    } else {
        decimal_digits(n / 10).push(digit_char((n % 10) as int))
    }
}

/// The base-10 form of a whole number: its digits, after a minus sign where it
/// is below zero.
pub open spec fn integer_text(i: int) -> Seq<char> {
    if i < 0 {
        seq!['-'] + decimal_digits((-i) as nat)
    } else {
        decimal_digits(i as nat)
    }
}

/// Appends the decimal digits of `n` to `out`.
fn push_decimal(out: &mut String, n: u64)
    ensures
        final(out)@ == old(out)@ + decimal_digits(n as nat),
    decreases n,
{
    if n >= 10 {
        push_decimal(out, n / 10);
    }
    let digit: u8 = (n % 10) as u8;
    push_char(out, (digit + 48) as char);
    proof {
        let d = digit_char((n % 10) as int);
        if n >= 10 {
            assert(old(out)@ + decimal_digits((n / 10) as nat).push(d) =~= (old(out)@
                + decimal_digits((n / 10) as nat)).push(d));
        } else {
            assert(old(out)@ + seq![d] =~= old(out)@.push(d));
        }
    }
}

/// The base-10 form of `n`.
pub fn unsigned_text(n: u64) -> (out: String)
    ensures
        out@ == integer_text(n as int),
{
    let mut out = String::new();
    push_decimal(&mut out, n);
    assert(Seq::<char>::empty() + decimal_digits(n as nat) =~= decimal_digits(n as nat));
    out
}

/// The base-10 form of `i`.
pub fn signed_text(i: i64) -> (out: String)
    ensures
        out@ == integer_text(i as int),
{
    if i >= 0 {
        unsigned_text(i as u64)
    } else {
        let mut out = String::new();
        push_char(&mut out, '-');
        let magnitude: u64 = ((-(i + 1)) as u64) + 1;
        push_decimal(&mut out, magnitude);
        assert(Seq::<char>::empty().push('-') =~= seq!['-']);
        out
    }
}

} // verus!
