//! The operations on a buffer, in place.
use vstd::prelude::*;
use vstd::utf8::valid_utf8;
use crate::model::{
    ascii_lower, ascii_upper, has_digraph, is_unit_start, lemma_units_without_lead, lowercased,
    lowercased_at, pair_lowered_at, pair_raised_at, transliterated, transliterated_at,
    transliterated_lower, transliterated_lower_at, transliterated_upper, transliterated_upper_at,
    uppercased, uppercased_at, LEAD,
};
use crate::search::find_lead;
use crate::table::{
    digraph_of, lower_digraph_of, lower_partner, to_ascii_lower, to_ascii_upper, upper_digraph_of,
    upper_partner,
};
use crate::validity::{
    law_lowercased_valid_utf8, law_transliterated_lower_valid_utf8,
    law_transliterated_upper_valid_utf8, law_transliterated_valid_utf8, law_uppercased_valid_utf8,
};

verus! {

/// In-place string processing for the German umlauts ä, ö, ü, Ä, Ö, Ü and for ß.
///
/// No operation changes the length of the buffer: each replaces bytes where
/// they stand. The capital ß takes three bytes and is left as it is.
///
/// The operations are meant for UTF-8 text. On any other bytes they still
/// end, stay inside the buffer and give what the contracts say.
pub trait UmlautsInplaceExt {
    /// The bytes that the buffer holds.
    spec fn bytes(&self) -> Seq<u8>;

    /// Makes ASCII capitals and the umlauts Ä, Ö, Ü small.
    fn make_utf8_umlauts_lowercase(&mut self)
        ensures
            final(self).bytes() == lowercased(old(self).bytes()),
            final(self).bytes().len() == old(self).bytes().len(),
            valid_utf8(old(self).bytes()) ==> valid_utf8(final(self).bytes()),
    ;

    /// Makes ASCII small letters and the umlauts ä, ö, ü capital.
    fn make_utf8_umlauts_uppercase(&mut self)
        ensures
            final(self).bytes() == uppercased(old(self).bytes()),
            final(self).bytes().len() == old(self).bytes().len(),
            valid_utf8(old(self).bytes()) ==> valid_utf8(final(self).bytes()),
    ;

    /// Replaces the umlauts and ß by their digraphs: ae, oe, ue, Ae, Oe, Ue, ss.
    fn make_utf8_umlauts_to_ascii(&mut self)
        ensures
            final(self).bytes() == transliterated(old(self).bytes()),
            final(self).bytes().len() == old(self).bytes().len(),
            valid_utf8(old(self).bytes()) ==> valid_utf8(final(self).bytes()),
    ;

    /// Replaces the umlauts and ß by their digraphs in small letters, and makes
    /// ASCII capitals small.
    fn make_utf8_umlauts_to_lowercase_ascii(&mut self)
        ensures
            final(self).bytes() == transliterated_lower(old(self).bytes()),
            final(self).bytes().len() == old(self).bytes().len(),
            valid_utf8(old(self).bytes()) ==> valid_utf8(final(self).bytes()),
    ;

    /// Replaces the umlauts and ß by their digraphs in capitals, and makes ASCII
    /// small letters capital.
    fn make_utf8_umlauts_to_uppercase_ascii(&mut self)
        ensures
            final(self).bytes() == transliterated_upper(old(self).bytes()),
            final(self).bytes().len() == old(self).bytes().len(),
            valid_utf8(old(self).bytes()) ==> valid_utf8(final(self).bytes()),
    ;
}

impl UmlautsInplaceExt for [u8] {
    open spec fn bytes(&self) -> Seq<u8> {
        self@
    }

    fn make_utf8_umlauts_lowercase(&mut self) {
        let n = self.len();
        if n > 0 {
            let last = n - 1;
            // Every byte but the last has a byte behind it to look at.
            let mut i: usize = 0;
            while i < last
                invariant
                    n == self@.len(),
                    n == old(self)@.len(),
                    last == n - 1,
                    i <= last,
                    forall|j: int| 0 <= j < i ==> self@[j] == lowercased_at(old(self)@, j),
                    self@[i as int] == pair_lowered_at(old(self)@, i as int),
                    forall|j: int| i < j < n ==> self@[j] == old(self)@[j],
                decreases last - i,
            {
                let c = self[i];
                if 0x41 <= c && c <= 0x5a {
                    self[i] = to_ascii_lower(c);
                } else if c == LEAD {
                    if let Some(t) = lower_partner(self[i + 1]) {
                        self[i + 1] = t;
                    }
                }
                i += 1;
            }
            // The last byte can only be a letter of its own.
            let c = self[last];
            self[last] = to_ascii_lower(c);
        }
        proof {
            assert(self@ =~= lowercased(old(self)@));
            if valid_utf8(old(self)@) {
                law_lowercased_valid_utf8(old(self)@);
            }
        }
    }

    fn make_utf8_umlauts_uppercase(&mut self) {
        let n = self.len();
        if n > 0 {
            let last = n - 1;
            // Every byte but the last has a byte behind it to look at.
            let mut i: usize = 0;
            while i < last
                invariant
                    n == self@.len(),
                    n == old(self)@.len(),
                    last == n - 1,
                    i <= last,
                    forall|j: int| 0 <= j < i ==> self@[j] == uppercased_at(old(self)@, j),
                    self@[i as int] == pair_raised_at(old(self)@, i as int),
                    forall|j: int| i < j < n ==> self@[j] == old(self)@[j],
                decreases last - i,
            {
                let c = self[i];
                if 0x61 <= c && c <= 0x7a {
                    self[i] = to_ascii_upper(c);
                } else if c == LEAD {
                    if let Some(t) = upper_partner(self[i + 1]) {
                        self[i + 1] = t;
                    }
                }
                i += 1;
            }
            // The last byte can only be a letter of its own.
            let c = self[last];
            self[last] = to_ascii_upper(c);
        }
        proof {
            assert(self@ =~= uppercased(old(self)@));
            if valid_utf8(old(self)@) {
                law_uppercased_valid_utf8(old(self)@);
            }
        }
    }

    fn make_utf8_umlauts_to_ascii(&mut self) {
        let n = self.len();
        if n > 1 {
            let last = n - 1;
            // The search starts behind what was looked at, so it moves forward
            // whatever it finds. Behind a digraph it starts at the digraph's
            // second byte, which is no lead byte.
            let mut i: usize = 0;
            while i < last
                invariant
                    n == self@.len(),
                    n == old(self)@.len(),
                    last == n - 1,
                    i <= n,
                    forall|j: int| 0 <= j < i ==> self@[j] == transliterated_at(old(self)@, j),
                    forall|j: int| i < j < n ==> self@[j] == old(self)@[j],
                    i < n ==> (if is_unit_start(old(self)@, i as int) {
                        self@[i as int] == old(self)@[i as int]
                    } else {
                        &&& self@[i as int] == transliterated_at(old(self)@, i as int)
                        &&& self@[i as int] != LEAD
                    }),
                ensures
                    n == self@.len(),
                    forall|j: int| 0 <= j < n ==> self@[j] == transliterated_at(old(self)@, j),
                decreases n - i,
            {
                let ghost unit: int = if is_unit_start(old(self)@, i as int) {
                    i as int
                } else {
                    i + 1
                };
                match find_lead(self, i, last) {
                    Some(lead) => {
                        proof {
                            lemma_units_without_lead(old(self)@, unit, lead as int);
                            assert(is_unit_start(old(self)@, lead as int));
                            assert(!is_unit_start(old(self)@, lead + 1));
                        }
                        match digraph_of(self[lead + 1]) {
                            Some((first, second)) => {
                                self[lead] = first;
                                self[lead + 1] = second;
                                i = lead + 1;
                            },
                            None => {
                                i = lead + 2;
                            },
                        }
                    },
                    None => {
                        proof {
                            lemma_units_without_lead(old(self)@, unit, last as int);
                        }
                        break ;
                    },
                }
            }
        }
        proof {
            assert(self@ =~= transliterated(old(self)@));
            if valid_utf8(old(self)@) {
                law_transliterated_valid_utf8(old(self)@);
            }
        }
    }

    fn make_utf8_umlauts_to_lowercase_ascii(&mut self) {
        let n = self.len();
        if n > 0 {
            let last = n - 1;
            let mut i: usize = 0;
            while i < last
                invariant
                    n == self@.len(),
                    n == old(self)@.len(),
                    last == n - 1,
                    i <= n,
                    forall|j: int|
                        0 <= j < i && j < last ==> self@[j] == transliterated_lower_at(
                            old(self)@,
                            j,
                        ),
                    forall|j: int| i < j < n ==> self@[j] == old(self)@[j],
                    i < n ==> (if is_unit_start(old(self)@, i as int) {
                        self@[i as int] == old(self)@[i as int]
                    } else {
                        &&& self@[i as int] == transliterated_lower_at(old(self)@, i as int)
                        &&& self@[i as int] != LEAD
                        &&& ascii_lower(self@[i as int]) == self@[i as int]
                    }),
                    i == n ==> {
                        &&& self@[last as int] == old(self)@[last as int]
                        &&& !is_unit_start(old(self)@, last as int)
                        &&& !has_digraph(old(self)@[last as int])
                    },
                decreases n - i,
            {
                proof {
                    assert(is_unit_start(old(self)@, i as int) && old(self)@[i as int] == LEAD
                        <==> !is_unit_start(old(self)@, i + 1));
                }
                if self[i] == LEAD {
                    match lower_digraph_of(self[i + 1]) {
                        Some((first, second)) => {
                            self[i] = first;
                            self[i + 1] = second;
                            i += 1;
                        },
                        None => {
                            i += 2;
                        },
                    }
                } else {
                    let c = self[i];
                    self[i] = to_ascii_lower(c);
                    i += 1;
                }
            }
            // Where the loop stepped over the last byte, or stopped in front
            // of it, the byte is folded here; a digraph's second byte is small
            // already.
            let c = self[last];
            self[last] = to_ascii_lower(c);
        }
        proof {
            assert(self@ =~= transliterated_lower(old(self)@));
            if valid_utf8(old(self)@) {
                law_transliterated_lower_valid_utf8(old(self)@);
            }
        }
    }

    fn make_utf8_umlauts_to_uppercase_ascii(&mut self) {
        let n = self.len();
        if n > 0 {
            let last = n - 1;
            let mut i: usize = 0;
            while i < last
                invariant
                    n == self@.len(),
                    n == old(self)@.len(),
                    last == n - 1,
                    i <= n,
                    forall|j: int|
                        0 <= j < i && j < last ==> self@[j] == transliterated_upper_at(
                            old(self)@,
                            j,
                        ),
                    forall|j: int| i < j < n ==> self@[j] == old(self)@[j],
                    i < n ==> (if is_unit_start(old(self)@, i as int) {
                        self@[i as int] == old(self)@[i as int]
                    } else {
                        &&& self@[i as int] == transliterated_upper_at(old(self)@, i as int)
                        &&& self@[i as int] != LEAD
                        &&& ascii_upper(self@[i as int]) == self@[i as int]
                    }),
                    i == n ==> {
                        &&& self@[last as int] == old(self)@[last as int]
                        &&& !is_unit_start(old(self)@, last as int)
                        &&& !has_digraph(old(self)@[last as int])
                    },
                decreases n - i,
            {
                proof {
                    assert(is_unit_start(old(self)@, i as int) && old(self)@[i as int] == LEAD
                        <==> !is_unit_start(old(self)@, i + 1));
                }
                if self[i] == LEAD {
                    match upper_digraph_of(self[i + 1]) {
                        Some((first, second)) => {
                            self[i] = first;
                            self[i + 1] = second;
                            i += 1;
                        },
                        None => {
                            i += 2;
                        },
                    }
                } else {
                    let c = self[i];
                    self[i] = to_ascii_upper(c);
                    i += 1;
                }
            }
            // Where the loop stepped over the last byte, or stopped in front
            // of it, the byte is folded here; a digraph's second byte is
            // capital already.
            let c = self[last];
            self[last] = to_ascii_upper(c);
        }
        proof {
            assert(self@ =~= transliterated_upper(old(self)@));
            if valid_utf8(old(self)@) {
                law_transliterated_upper_valid_utf8(old(self)@);
            }
        }
    }
}

} // verus!
