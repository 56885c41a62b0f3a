//! Byte-level vocabulary of the wire format: which bytes may stand in a
//! name, how a name byte reads as a character, where a name ends, and how a
//! name made of digits reads as a number.
use vstd::prelude::*;

use crate::protocol_defs::{CR, ETX};

verus! {

/// An ASCII letter or digit.
pub open spec fn is_alnum(b: u8) -> bool {
    ||| 0x30 <= b <= 0x39
    ||| 0x41 <= b <= 0x5A
    ||| 0x61 <= b <= 0x7A
}

/// A byte that may stand in a name: an ASCII letter or digit, or a raw digit
/// value `0..=9`.
pub open spec fn is_text_byte(b: u8) -> bool {
    is_alnum(b) || b < 10
}

/// The character a name byte stands for: an ASCII letter or digit stands for
/// itself, a raw value `0..=9` for the digit that writes it.
pub open spec fn char_of(b: u8) -> char {
    if is_alnum(b) {
        b as char
    } else {
        (b + 48) as char
    }
}

/// Every byte of `bytes` may stand in a name.
pub open spec fn all_text(bytes: Seq<u8>) -> bool {
    forall|i: int| 0 <= i < bytes.len() ==> is_text_byte(#[trigger] bytes[i])
}

/// The characters that the bytes of a name stand for.
pub open spec fn text_of(bytes: Seq<u8>) -> Seq<char> {
    bytes.map_values(|b: u8| char_of(b))
}

/// A byte that ends a name: `CR`, or also `ETX` where names form a list.
pub open spec fn is_delim(b: u8, with_etx: bool) -> bool {
    b == CR || (with_etx && b == ETX)
}

/// `p` is the index of the first name-ending byte of `s`.
pub open spec fn is_first_delim(s: Seq<u8>, p: int, with_etx: bool) -> bool {
    &&& 0 <= p < s.len()
    &&& is_delim(s[p], with_etx)
    &&& forall|j: int| 0 <= j < p ==> !is_delim(#[trigger] s[j], with_etx)
}

/// The index of the first name-ending byte of `s`, if it has one.
pub open spec fn first_delim(s: Seq<u8>, with_etx: bool) -> Option<int> {
    if exists|p: int| is_first_delim(s, p, with_etx) {
        Some(choose|p: int| is_first_delim(s, p, with_etx))
    } else {
        None
    }
}

/// An ASCII decimal digit.
pub open spec fn is_digit(c: char) -> bool {
    '0' <= c <= '9'
}

/// The number that a string of decimal digits writes.
pub open spec fn digits_value(cs: Seq<char>) -> nat
    decreases cs.len(),
{
    if cs.len() == 0 {
        0
    } else {
        digits_value(cs.drop_last()) * 10 + ((cs.last() as int) - 48) as nat
    }
}

/// What `str::parse::<usize>` gives for a string without sign characters:
/// the number, where the string is a non-empty run of decimal digits whose
/// value fits in a `usize`.
pub open spec fn parse_usize(cs: Seq<char>) -> Option<usize> {
    if cs.len() > 0 && (forall|i: int| 0 <= i < cs.len() ==> is_digit(#[trigger] cs[i]))
        && digits_value(cs) <= usize::MAX {
        Some(digits_value(cs) as usize)
    } else {
        None
    }
}

/// A first name-ending byte, once found, is the one `first_delim` names.
pub proof fn lemma_first_delim_is(s: Seq<u8>, p: int, with_etx: bool)
    requires
        is_first_delim(s, p, with_etx),
    ensures
        first_delim(s, with_etx) == Some(p),
{
    let q = choose|q: int| is_first_delim(s, q, with_etx);
    assert(is_first_delim(s, q, with_etx));
    if q < p {
        assert(!is_delim(s[q], with_etx));
    } else if p < q {
        assert(!is_delim(s[p], with_etx));
    }
}

/// A string with no name-ending byte has no first one.
pub proof fn lemma_first_delim_none(s: Seq<u8>, with_etx: bool)
    requires
        forall|j: int| 0 <= j < s.len() ==> !is_delim(#[trigger] s[j], with_etx),
    ensures
        first_delim(s, with_etx) is None,
{
    if exists|p: int| is_first_delim(s, p, with_etx) {
        let p = choose|p: int| is_first_delim(s, p, with_etx);
        assert(is_delim(s[p], with_etx));
    }
}

/// The first name-ending byte of `s` is also the first one of any longer
/// string that begins with `s`.
pub proof fn lemma_first_delim_extends(s: Seq<u8>, t: Seq<u8>, with_etx: bool)
    requires
        s.len() <= t.len(),
        s == t.subrange(0, s.len() as int),
        first_delim(s, with_etx) is Some,
    ensures
        first_delim(t, with_etx) == first_delim(s, with_etx),
{
    let p = first_delim(s, with_etx)->0;
    assert(is_first_delim(s, p, with_etx));
    assert forall|j: int| 0 <= j <= p implies t[j] == s[j] by {
        assert(s[j] == t.subrange(0, s.len() as int)[j]);
    }
    lemma_first_delim_is(t, p, with_etx);
}

/// The number that a leading part of a digit string writes is at most the
/// number the whole string writes.
pub proof fn lemma_digits_prefix_le(cs: Seq<char>, k: int)
    requires
        0 <= k <= cs.len(),
    ensures
        digits_value(cs.subrange(0, k)) <= digits_value(cs),
    decreases cs.len(),
{
    if k < cs.len() {
        lemma_digits_prefix_le(cs.drop_last(), k);
        assert(cs.drop_last().subrange(0, k) =~= cs.subrange(0, k));
    } else {
        assert(cs.subrange(0, k) =~= cs);
    }
}

} // verus!
