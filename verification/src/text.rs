//! The operations on a `String`.
//!
//! A `String` must hold valid UTF-8 at all times, so no operation writes into
//! it. Each takes the bytes out, works on them as on any buffer, and puts them
//! back. That they are valid UTF-8 again is proved here, so no caller has to
//! see to it.
use vstd::prelude::*;
use vstd::utf8::{decode_utf8, encode_utf8, valid_utf8};
use crate::inplace::UmlautsInplaceExt;
use crate::model::{
    lowercased, transliterated, transliterated_lower, transliterated_upper, uppercased,
};

verus! {

/// The error of `String::from_utf8`; nothing is known of what it holds.
#[verifier::external_type_specification]
#[verifier::external_body]
pub struct ExFromUtf8Error(std::string::FromUtf8Error);

/// What is taken on trust of `String::into_bytes`: the vector holds the
/// UTF-8 encoding of the string's characters.
pub assume_specification[ String::into_bytes ](text: String) -> (bytes: Vec<u8>)
    ensures
        bytes@ == encode_utf8(text@),
;

/// What is taken on trust of `String::from_utf8`: it succeeds on valid UTF-8,
/// as `vstd::utf8::valid_utf8` defines it, and on nothing else, and the string
/// it returns is encoded by the bytes given.
pub assume_specification[ String::from_utf8 ](bytes: Vec<u8>) -> (r: Result<
    String,
    std::string::FromUtf8Error,
>)
    ensures
        r is Ok <==> valid_utf8(bytes@),
        r matches Ok(text) ==> encode_utf8(text@) == bytes@,
;

/// Takes the bytes out of `text` and leaves it empty.
fn take_bytes(text: &mut String) -> (bytes: Vec<u8>)
    ensures
        bytes@ == encode_utf8(old(text)@),
        valid_utf8(bytes@),
{
    broadcast use vstd::utf8::encode_utf8_valid_utf8;

    let mut taken = String::new();
    core::mem::swap(text, &mut taken);
    taken.into_bytes()
}

/// Makes `text` the string that `bytes` encode.
fn put_bytes(text: &mut String, bytes: Vec<u8>)
    requires
        valid_utf8(bytes@),
    ensures
        encode_utf8(final(text)@) == bytes@,
        final(text)@ == decode_utf8(bytes@),
{
    broadcast use vstd::utf8::encode_utf8_decode_utf8;

    if let Ok(filled) = String::from_utf8(bytes) {
        *text = filled;
    }
}

impl UmlautsInplaceExt for String {
    open spec fn bytes(&self) -> Seq<u8> {
        encode_utf8(self@)
    }

    fn make_utf8_umlauts_lowercase(&mut self)
        ensures
            final(self)@ == decode_utf8(lowercased(encode_utf8(old(self)@))),
    {
        let mut bytes = take_bytes(self);
        bytes.as_mut_slice().make_utf8_umlauts_lowercase();
        put_bytes(self, bytes);
    }

    fn make_utf8_umlauts_uppercase(&mut self)
        ensures
            final(self)@ == decode_utf8(uppercased(encode_utf8(old(self)@))),
    {
        let mut bytes = take_bytes(self);
        bytes.as_mut_slice().make_utf8_umlauts_uppercase();
        put_bytes(self, bytes);
    }

    fn make_utf8_umlauts_to_ascii(&mut self)
        ensures
            final(self)@ == decode_utf8(transliterated(encode_utf8(old(self)@))),
    {
        let mut bytes = take_bytes(self);
        bytes.as_mut_slice().make_utf8_umlauts_to_ascii();
        put_bytes(self, bytes);
    }

    fn make_utf8_umlauts_to_lowercase_ascii(&mut self)
        ensures
            final(self)@ == decode_utf8(transliterated_lower(encode_utf8(old(self)@))),
    {
        let mut bytes = take_bytes(self);
        bytes.as_mut_slice().make_utf8_umlauts_to_lowercase_ascii();
        put_bytes(self, bytes);
    }

    fn make_utf8_umlauts_to_uppercase_ascii(&mut self)
        ensures
            final(self)@ == decode_utf8(transliterated_upper(encode_utf8(old(self)@))),
    {
        let mut bytes = take_bytes(self);
        bytes.as_mut_slice().make_utf8_umlauts_to_uppercase_ascii();
        put_bytes(self, bytes);
    }
}

} // verus!
