//! The byte tables: which byte or pair of bytes replaces which.
use vstd::prelude::*;
use crate::model::{ascii_lower, ascii_upper, digraph, has_digraph, is_lower_trail, is_upper_trail};

verus! {

/// Makes an ASCII capital small and hands every other byte back.
pub fn to_ascii_lower(b: u8) -> (r: u8)
    ensures
        r == ascii_lower(b),
{
    if 0x41 <= b && b <= 0x5a {
        b + 0x20
    } else {
        b
    }
}

/// Makes an ASCII small letter capital and hands every other byte back.
pub fn to_ascii_upper(b: u8) -> (r: u8)
    ensures
        r == ascii_upper(b),
{
    if 0x61 <= b && b <= 0x7a {
        b - 0x20
    } else {
        b
    }
}

/// The second byte of the small umlaut that belongs to the capital one whose
/// second byte is `t`.
pub fn lower_partner(t: u8) -> (r: Option<u8>)
    ensures
        is_upper_trail(t) ==> r == Some((t + 0x20) as u8),
        !is_upper_trail(t) ==> r.is_none(),
{
    if t == 0x84 || t == 0x96 || t == 0x9c {
        Some(t + 0x20)
    } else {
        None
    }
}

/// The second byte of the capital umlaut that belongs to the small one whose
/// second byte is `t`.
pub fn upper_partner(t: u8) -> (r: Option<u8>)
    ensures
        is_lower_trail(t) ==> r == Some((t - 0x20) as u8),
        !is_lower_trail(t) ==> r.is_none(),
{
    if t == 0xa4 || t == 0xb6 || t == 0xbc {
        Some(t - 0x20)
    } else {
        None
    }
}

/// The digraph of the character whose second byte is `t`, if it has one.
pub fn digraph_of(t: u8) -> (r: Option<(u8, u8)>)
    ensures
        has_digraph(t) ==> r == Some(digraph(t)),
        !has_digraph(t) ==> r.is_none(),
{
    if t == 0xa4 {
        Some((0x61, 0x65))
    } else if t == 0xb6 {
        Some((0x6f, 0x65))
    } else if t == 0xbc {
        Some((0x75, 0x65))
    } else if t == 0x84 {
        Some((0x41, 0x65))
    } else if t == 0x96 {
        Some((0x4f, 0x65))
    } else if t == 0x9c {
        Some((0x55, 0x65))
    } else if t == 0x9f {
        Some((0x73, 0x73))
    } else {
        None
    }
}

/// The digraph in small letters.
pub fn lower_digraph_of(t: u8) -> (r: Option<(u8, u8)>)
    ensures
        has_digraph(t) ==> r == Some((ascii_lower(digraph(t).0), ascii_lower(digraph(t).1))),
        !has_digraph(t) ==> r.is_none(),
{
    match digraph_of(t) {
        Some((a, b)) => Some((to_ascii_lower(a), to_ascii_lower(b))),
        None => None,
    }
}

/// The digraph in capitals.
pub fn upper_digraph_of(t: u8) -> (r: Option<(u8, u8)>)
    ensures
        has_digraph(t) ==> r == Some((ascii_upper(digraph(t).0), ascii_upper(digraph(t).1))),
        !has_digraph(t) ==> r.is_none(),
{
    match digraph_of(t) {
        Some((a, b)) => Some((to_ascii_upper(a), to_ascii_upper(b))),
        None => None,
    }
}

} // verus!
