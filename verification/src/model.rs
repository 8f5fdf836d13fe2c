//! The mathematical model of the buffer operations: what each operation
//! makes of a byte sequence, stated byte by byte.
use vstd::prelude::*;

verus! {

/// Lead byte shared by the two-byte UTF-8 encodings of ä, ö, ü, Ä, Ö, Ü and ß.
pub const LEAD: u8 = 0xc3;

/// `b` is one of the ASCII letters `A` to `Z`.
pub open spec fn is_ascii_upper(b: u8) -> bool {
    0x41 <= b <= 0x5a
}

/// `b` is one of the ASCII letters `a` to `z`.
pub open spec fn is_ascii_lower(b: u8) -> bool {
    0x61 <= b <= 0x7a
}

/// The byte with an ASCII capital turned into its small letter.
pub open spec fn ascii_lower(b: u8) -> u8 {
    if is_ascii_upper(b) {
        (b + 0x20) as u8
    } else {
        b
    }
}

/// The byte with an ASCII small letter turned into its capital.
pub open spec fn ascii_upper(b: u8) -> u8 {
    if is_ascii_lower(b) {
        (b - 0x20) as u8
    } else {
        b
    }
}

/// `t` is the second byte of Ä (0x84), Ö (0x96) or Ü (0x9c).
pub open spec fn is_upper_trail(t: u8) -> bool {
    t == 0x84 || t == 0x96 || t == 0x9c
}

/// `t` is the second byte of ä (0xa4), ö (0xb6) or ü (0xbc).
pub open spec fn is_lower_trail(t: u8) -> bool {
    t == 0xa4 || t == 0xb6 || t == 0xbc
}

/// `t` is the second byte of a character that has an ASCII digraph:
/// one of the six umlauts, or ß (0x9f).
pub open spec fn has_digraph(t: u8) -> bool {
    is_upper_trail(t) || is_lower_trail(t) || t == 0x9f
}

/// The two ASCII bytes that stand for the character whose second byte is `t`:
/// ae, oe, ue, Ae, Oe, Ue and ss.
pub open spec fn digraph(t: u8) -> (u8, u8)
    recommends
        has_digraph(t),
{
    if t == 0xa4 {
        (0x61, 0x65)
    } else if t == 0xb6 {
        (0x6f, 0x65)
    } else if t == 0xbc {
        (0x75, 0x65)
    } else if t == 0x84 {
        (0x41, 0x65)
    } else if t == 0x96 {
        (0x4f, 0x65)
    } else if t == 0x9c {
        (0x55, 0x65)
    } else {
        (0x73, 0x73)
    }
}

/// Byte `i` of `s` after the umlauts were made small and before the ASCII
/// letters are: the second byte of Ä, Ö or Ü, right behind the lead byte,
/// becomes that of ä, ö or ü.
pub open spec fn pair_lowered_at(s: Seq<u8>, i: int) -> u8
    recommends
        0 <= i < s.len(),
{
    if i > 0 && s[i - 1] == LEAD && is_upper_trail(s[i]) {
        (s[i] + 0x20) as u8
    } else {
        s[i]
    }
}

/// Byte `i` of `s` after the umlauts were made capital and before the ASCII
/// letters are: the second byte of ä, ö or ü, right behind the lead byte,
/// becomes that of Ä, Ö or Ü.
pub open spec fn pair_raised_at(s: Seq<u8>, i: int) -> u8
    recommends
        0 <= i < s.len(),
{
    if i > 0 && s[i - 1] == LEAD && is_lower_trail(s[i]) {
        (s[i] - 0x20) as u8
    } else {
        s[i]
    }
}

/// Byte `i` of the lowercase fold of `s`.
pub open spec fn lowercased_at(s: Seq<u8>, i: int) -> u8
    recommends
        0 <= i < s.len(),
{
    ascii_lower(pair_lowered_at(s, i))
}

/// Byte `i` of the uppercase fold of `s`.
pub open spec fn uppercased_at(s: Seq<u8>, i: int) -> u8
    recommends
        0 <= i < s.len(),
{
    ascii_upper(pair_raised_at(s, i))
}

/// The lowercase fold of `s`: ASCII capitals and Ä, Ö, Ü become small, every
/// other byte stays.
pub open spec fn lowercased(s: Seq<u8>) -> Seq<u8> {
    Seq::new(s.len(), |i: int| lowercased_at(s, i))
}

/// The uppercase fold of `s`: ASCII small letters and ä, ö, ü become capital,
/// every other byte stays.
pub open spec fn uppercased(s: Seq<u8>) -> Seq<u8> {
    Seq::new(s.len(), |i: int| uppercased_at(s, i))
}

/// The scan that looks for pairs walks `s` from the left; at a lead byte that
/// is not the last byte it takes two bytes as one unit, elsewhere one.
/// This says that a unit begins at `i`: `i` is not the second byte of a pair.
pub open spec fn is_unit_start(s: Seq<u8>, i: int) -> bool
    decreases i,
{
    i <= 0 || !(is_unit_start(s, i - 1) && s[i - 1] == LEAD)
}

/// Byte `i` of the transliteration of `s`.
pub open spec fn transliterated_at(s: Seq<u8>, i: int) -> u8
    recommends
        0 <= i < s.len(),
{
    if is_unit_start(s, i) {
        if s[i] == LEAD && i + 1 < s.len() && has_digraph(s[i + 1]) {
            digraph(s[i + 1]).0
        } else {
            s[i]
        }
    } else {
        if has_digraph(s[i]) {
            digraph(s[i]).1
        } else {
            s[i]
        }
    }
}

/// The transliteration of `s`: each pair of the lead byte and the second byte
/// of an umlaut or of ß gives way to its digraph, every other byte stays.
pub open spec fn transliterated(s: Seq<u8>) -> Seq<u8> {
    Seq::new(s.len(), |i: int| transliterated_at(s, i))
}

/// Byte `i` is the second byte of a pair without a digraph and not the last
/// byte of `s`. The combined operations step over such a byte.
pub open spec fn is_stepped_over(s: Seq<u8>, i: int) -> bool
    recommends
        0 <= i < s.len(),
{
    !is_unit_start(s, i) && !has_digraph(s[i]) && i + 1 < s.len()
}

/// Byte `i` of the lowercase transliteration of `s`.
pub open spec fn transliterated_lower_at(s: Seq<u8>, i: int) -> u8
    recommends
        0 <= i < s.len(),
{
    if is_stepped_over(s, i) {
        s[i]
    } else {
        ascii_lower(transliterated_at(s, i))
    }
}

/// Byte `i` of the uppercase transliteration of `s`.
pub open spec fn transliterated_upper_at(s: Seq<u8>, i: int) -> u8
    recommends
        0 <= i < s.len(),
{
    if is_stepped_over(s, i) {
        s[i]
    } else {
        ascii_upper(transliterated_at(s, i))
    }
}

/// The lowercase transliteration of `s`: the transliteration with every ASCII
/// capital made small, but for the bytes stepped over.
pub open spec fn transliterated_lower(s: Seq<u8>) -> Seq<u8> {
    Seq::new(s.len(), |i: int| transliterated_lower_at(s, i))
}

/// The uppercase transliteration of `s`: the transliteration with every ASCII
/// small letter made capital, but for the bytes stepped over.
pub open spec fn transliterated_upper(s: Seq<u8>) -> Seq<u8> {
    Seq::new(s.len(), |i: int| transliterated_upper_at(s, i))
}

/// Where a unit begins at `a` and no lead byte stands in `a..b`, a unit
/// begins at every index from `a` to `b`.
pub proof fn lemma_units_without_lead(s: Seq<u8>, a: int, b: int)
    requires
        0 <= a <= b <= s.len(),
        is_unit_start(s, a),
        forall|j: int| a <= j < b ==> s[j] != LEAD,
    ensures
        forall|j: int| a <= j <= b ==> is_unit_start(s, j),
    decreases b - a,
{
    if a < b {
        lemma_units_without_lead(s, a, b - 1);
    }
}

} // verus!
