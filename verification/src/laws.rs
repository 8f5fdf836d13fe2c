//! What holds of the operations taken together.
use vstd::prelude::*;
use vstd::utf8::is_continuation_byte;
use crate::model::{
    is_unit_start, lowercased, transliterated, transliterated_lower, transliterated_upper,
    uppercased, LEAD,
};

verus! {

/// Every lead byte that is not the last byte of `s` has a continuation byte
/// behind it. Every valid UTF-8 text is of this kind.
pub open spec fn leads_are_followed(s: Seq<u8>) -> bool {
    forall|i: int| 0 <= i < s.len() - 1 && s[i] == LEAD ==> is_continuation_byte(#[trigger] s[i + 1])
}

/// Folding to lowercase a second time changes nothing.
pub proof fn law_lowercase_idempotent(s: Seq<u8>)
    ensures
        lowercased(lowercased(s)) == lowercased(s),
{
    assert(lowercased(lowercased(s)) =~= lowercased(s));
}

/// Folding to uppercase a second time changes nothing.
pub proof fn law_uppercase_idempotent(s: Seq<u8>)
    ensures
        uppercased(uppercased(s)) == uppercased(s),
{
    assert(uppercased(uppercased(s)) =~= uppercased(s));
}

/// The lowercase fold loses nothing that the uppercase fold needs: folding to
/// uppercase behind it gives the uppercase fold of the text itself.
pub proof fn law_uppercase_after_lowercase(s: Seq<u8>)
    ensures
        uppercased(lowercased(s)) == uppercased(s),
{
    assert(uppercased(lowercased(s)) =~= uppercased(s));
}

/// The uppercase fold loses nothing that the lowercase fold needs: folding to
/// lowercase behind it gives the lowercase fold of the text itself.
pub proof fn law_lowercase_after_uppercase(s: Seq<u8>)
    ensures
        lowercased(uppercased(s)) == lowercased(s),
{
    assert(lowercased(uppercased(s)) =~= lowercased(s));
}

/// In a text whose lead bytes are followed, a unit begins at every index but
/// those right behind a lead byte.
pub proof fn lemma_unit_starts_when_followed(s: Seq<u8>, i: int)
    requires
        leads_are_followed(s),
        0 <= i < s.len(),
    ensures
        is_unit_start(s, i) == !(i > 0 && s[i - 1] == LEAD),
{
    if i > 0 && s[i - 1] == LEAD {
        if i > 1 && s[i - 2] == LEAD {
            assert(is_continuation_byte(s[(i - 2) + 1]));
        }
        assert(is_unit_start(s, i - 1));
    }
}

/// Transliterating to lowercase in one pass gives what transliterating and
/// then folding to lowercase gives, on every text whose lead bytes are
/// followed, so on all valid UTF-8. Elsewhere the two may differ: the one pass
/// steps over the byte behind a lead byte, the fold does not.
pub proof fn law_lowercase_of_transliteration(s: Seq<u8>)
    requires
        leads_are_followed(s),
    ensures
        transliterated_lower(s) == lowercased(transliterated(s)),
{
    let t = transliterated(s);
    assert forall|i: int| 0 <= i < s.len() implies transliterated_lower(s)[i] == lowercased(t)[i] by {
        lemma_unit_starts_when_followed(s, i);
        if i > 0 {
            lemma_unit_starts_when_followed(s, i - 1);
            if s[i - 1] == LEAD {
                assert(is_continuation_byte(s[(i - 1) + 1]));
            }
        }
    }
    assert(transliterated_lower(s) =~= lowercased(t));
}

/// Transliterating to uppercase in one pass gives what transliterating and
/// then folding to uppercase gives, on every text whose lead bytes are
/// followed, so on all valid UTF-8.
pub proof fn law_uppercase_of_transliteration(s: Seq<u8>)
    requires
        leads_are_followed(s),
    ensures
        transliterated_upper(s) == uppercased(transliterated(s)),
{
    let t = transliterated(s);
    assert forall|i: int| 0 <= i < s.len() implies transliterated_upper(s)[i] == uppercased(t)[i] by {
        lemma_unit_starts_when_followed(s, i);
        if i > 0 {
            lemma_unit_starts_when_followed(s, i - 1);
            if s[i - 1] == LEAD {
                assert(is_continuation_byte(s[(i - 1) + 1]));
            }
        }
    }
    assert(transliterated_upper(s) =~= uppercased(t));
}

} // verus!
