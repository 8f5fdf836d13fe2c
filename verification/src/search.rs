//! The search for the lead byte.
use vstd::prelude::*;
use crate::model::LEAD;

verus! {

/// What is taken on trust of `memchr::memchr`: it returns the index of the
/// first byte of `haystack` that equals `needle`, or `None` where no byte does.
pub assume_specification[ memchr::memchr ](needle: u8, haystack: &[u8]) -> (r: Option<usize>)
    ensures
        match r {
            Some(k) => k < haystack@.len() && haystack@[k as int] == needle && forall|j: int|
                0 <= j < k ==> haystack@[j] != needle,
            None => forall|j: int| 0 <= j < haystack@.len() ==> haystack@[j] != needle,
        },
;

/// The index of the first lead byte of `buf` in `from..to`, if there is one.
pub fn find_lead(buf: &[u8], from: usize, to: usize) -> (r: Option<usize>)
    requires
        from <= to <= buf@.len(),
    ensures
        match r {
            Some(k) => from <= k < to && buf@[k as int] == LEAD && forall|j: int|
                from <= j < k ==> buf@[j] != LEAD,
            None => forall|j: int| from <= j < to ==> buf@[j] != LEAD,
        },
{
    let window = &buf[from..to];
    match memchr::memchr(LEAD, window) {
        Some(k) => {
            assert(forall|j: int| from <= j < from + k ==> buf@[j] == window@[j - from]);
            Some(from + k)
        },
        None => {
            assert(forall|j: int| from <= j < to ==> buf@[j] == window@[j - from]);
            None
        },
    }
}

} // verus!
