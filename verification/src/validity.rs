//! The operations keep valid UTF-8 valid.
use vstd::prelude::*;
use vstd::utf8::{
    is_continuation_byte, length_of_first_scalar, pop_first_scalar, valid_first_scalar, valid_utf8,
};
use crate::laws::{leads_are_followed, lemma_unit_starts_when_followed};
use crate::model::{
    lowercased, transliterated, transliterated_lower, transliterated_upper, uppercased, LEAD,
};

verus! {

/// What a rewrite may do to byte `i` of `x` so that units stay units: an
/// ASCII byte stays ASCII; a pair that begins with the lead byte keeps the lead
/// byte and a continuation byte, or becomes two ASCII bytes; any other byte
/// stays as it is.
spec fn keeps_unit_at(x: Seq<u8>, y: Seq<u8>, i: int) -> bool {
    if x[i] < 0x80 {
        y[i] < 0x80
    } else if x[i] == LEAD {
        i + 1 < x.len() ==> (y[i] == LEAD && is_continuation_byte(y[i + 1])) || (y[i] < 0x80 && y[i
            + 1] < 0x80)
    } else if i > 0 && x[i - 1] == LEAD {
        true
    } else {
        y[i] == x[i]
    }
}

/// `y` rewrites `x` unit by unit.
spec fn keeps_units(x: Seq<u8>, y: Seq<u8>) -> bool {
    &&& y.len() == x.len()
    &&& forall|i: int| 0 <= i < x.len() ==> keeps_unit_at(x, y, i)
}

proof fn lemma_ascii_scalar(b: u8)
    requires
        b < 0x80,
    ensures
        ((b & 0x7f) as u32) < 0xd800,
{
    assert(b < 0x80 ==> ((b & 0x7f) as u32) < 0xd800) by (bit_vector);
}

proof fn lemma_lead_scalar(t: u8)
    requires
        is_continuation_byte(t),
    ensures
        0x80 <= ((((0xc3u8 & 0x1f) as u32) << 6) | ((t & 0x3f) as u32)) < 0xd800,
{
    assert(0x80 <= t <= 0xbf ==> 0x80 <= ((((0xc3u8 & 0x1f) as u32) << 6) | ((t & 0x3f) as u32))
        < 0xd800) by (bit_vector);
}

/// In valid UTF-8 every lead byte has its continuation byte behind it.
pub proof fn lemma_valid_utf8_leads_are_followed(x: Seq<u8>)
    requires
        valid_utf8(x),
    ensures
        leads_are_followed(x),
    decreases x.len(),
{
    if x.len() > 0 {
        let n = length_of_first_scalar(x);
        let rest = pop_first_scalar(x);
        lemma_valid_utf8_leads_are_followed(rest);
        assert forall|i: int| 0 <= i < x.len() - 1 && x[i] == LEAD implies is_continuation_byte(
            #[trigger] x[i + 1],
        ) by {
            if i >= n {
                assert(rest[(i - n) + 1] == x[i + 1]);
            }
        }
    }
}

/// A unit-by-unit rewrite of valid UTF-8 is valid UTF-8.
proof fn lemma_keeps_units_valid(x: Seq<u8>, y: Seq<u8>)
    requires
        valid_utf8(x),
        keeps_units(x, y),
    ensures
        valid_utf8(y),
    decreases x.len(),
{
    if x.len() > 0 {
        let n = length_of_first_scalar(x);
        let len = x.len() as int;
        let rest = pop_first_scalar(x);
        assert(keeps_unit_at(x, y, 0));
        let tail = y.subrange(n, len);
        assert(keeps_units(rest, tail)) by {
            assert forall|j: int| 0 <= j < rest.len() implies keeps_unit_at(rest, tail, j) by {
                assert(keeps_unit_at(x, y, n + j));
            }
        }
        lemma_keeps_units_valid(rest, tail);
        if x[0] < 0x80 {
            lemma_ascii_scalar(y[0]);
            assert(pop_first_scalar(y) =~= tail);
        } else if x[0] == LEAD {
            if y[0] == LEAD {
                lemma_lead_scalar(y[1]);
                assert(pop_first_scalar(y) =~= tail);
            } else {
                lemma_ascii_scalar(y[0]);
                lemma_ascii_scalar(y[1]);
                let mid = pop_first_scalar(y);
                assert(pop_first_scalar(mid) =~= tail);
                assert(valid_utf8(mid));
            }
        } else {
            if n >= 2 {
                assert(keeps_unit_at(x, y, 1));
            }
            if n >= 3 {
                assert(keeps_unit_at(x, y, 2));
            }
            if n >= 4 {
                assert(keeps_unit_at(x, y, 3));
            }
            assert(pop_first_scalar(y) =~= tail);
        }
    }
}

proof fn lemma_lowercased_keeps_units(x: Seq<u8>)
    requires
        leads_are_followed(x),
    ensures
        keeps_units(x, lowercased(x)),
{
    let y = lowercased(x);
    assert forall|i: int| 0 <= i < x.len() implies keeps_unit_at(x, y, i) by {
        if x[i] == LEAD && i + 1 < x.len() {
            assert(is_continuation_byte(x[i + 1]));
        }
    }
}

proof fn lemma_uppercased_keeps_units(x: Seq<u8>)
    requires
        leads_are_followed(x),
    ensures
        keeps_units(x, uppercased(x)),
{
    let y = uppercased(x);
    assert forall|i: int| 0 <= i < x.len() implies keeps_unit_at(x, y, i) by {
        if x[i] == LEAD && i + 1 < x.len() {
            assert(is_continuation_byte(x[i + 1]));
        }
    }
}

proof fn lemma_transliterated_keeps_units(x: Seq<u8>)
    requires
        leads_are_followed(x),
    ensures
        keeps_units(x, transliterated(x)),
        keeps_units(x, transliterated_lower(x)),
        keeps_units(x, transliterated_upper(x)),
{
    assert forall|i: int| 0 <= i < x.len() implies keeps_unit_at(x, transliterated(x), i)
        && keeps_unit_at(x, transliterated_lower(x), i) && keeps_unit_at(
        x,
        transliterated_upper(x),
        i,
    ) by {
        lemma_unit_starts_when_followed(x, i);
        if i + 1 < x.len() {
            lemma_unit_starts_when_followed(x, i + 1);
            if x[i] == LEAD {
                assert(is_continuation_byte(x[i + 1]));
            }
        }
    }
}

/// The lowercase fold of valid UTF-8 is valid UTF-8.
pub proof fn law_lowercased_valid_utf8(x: Seq<u8>)
    requires
        valid_utf8(x),
    ensures
        valid_utf8(lowercased(x)),
{
    lemma_valid_utf8_leads_are_followed(x);
    lemma_lowercased_keeps_units(x);
    lemma_keeps_units_valid(x, lowercased(x));
}

/// The uppercase fold of valid UTF-8 is valid UTF-8.
pub proof fn law_uppercased_valid_utf8(x: Seq<u8>)
    requires
        valid_utf8(x),
    ensures
        valid_utf8(uppercased(x)),
{
    lemma_valid_utf8_leads_are_followed(x);
    lemma_uppercased_keeps_units(x);
    lemma_keeps_units_valid(x, uppercased(x));
}

/// The transliteration of valid UTF-8 is valid UTF-8.
pub proof fn law_transliterated_valid_utf8(x: Seq<u8>)
    requires
        valid_utf8(x),
    ensures
        valid_utf8(transliterated(x)),
{
    lemma_valid_utf8_leads_are_followed(x);
    lemma_transliterated_keeps_units(x);
    lemma_keeps_units_valid(x, transliterated(x));
}

/// The lowercase transliteration of valid UTF-8 is valid UTF-8.
pub proof fn law_transliterated_lower_valid_utf8(x: Seq<u8>)
    requires
        valid_utf8(x),
    ensures
        valid_utf8(transliterated_lower(x)),
{
    lemma_valid_utf8_leads_are_followed(x);
    lemma_transliterated_keeps_units(x);
    lemma_keeps_units_valid(x, transliterated_lower(x));
}

/// The uppercase transliteration of valid UTF-8 is valid UTF-8.
pub proof fn law_transliterated_upper_valid_utf8(x: Seq<u8>)
    requires
        valid_utf8(x),
    ensures
        valid_utf8(transliterated_upper(x)),
{
    lemma_valid_utf8_leads_are_followed(x);
    lemma_transliterated_keeps_units(x);
    lemma_keeps_units_valid(x, transliterated_upper(x));
}

} // verus!
