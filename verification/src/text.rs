//! The 8-bit Latin-1 codec used for the wire's name fields, and the UTF-8
//! decoding used for the daemon-assigned private name.
//!
//! The calls into the outside codec stand behind trusted wrappers; everything
//! above them reasons over the character-per-byte model stated here.

use encoding::all::ISO_8859_1;
use encoding::{DecoderTrap, EncoderTrap, Encoding};
use vstd::prelude::*;

verus! {

/// True when every character of `s` fits the 8-bit Latin-1 range.
pub open spec fn latin1_encodable(s: Seq<char>) -> bool {
    forall|i: int| 0 <= i < s.len() ==> (s[i] as u32) < 256
}

/// The Latin-1 bytes of `s`: each character becomes the byte of its code.
pub open spec fn latin1_seq(s: Seq<char>) -> Seq<u8> {
    s.map(|_i: int, c: char| (c as u32) as u8)
}

/// The characters read from Latin-1 bytes: each byte becomes the character
/// of its value.
pub open spec fn latin1_chars(b: Seq<u8>) -> Seq<char> {
    b.map(|_i: int, x: u8| x as char)
}

/// Relies on `encoding`'s `ISO_8859_1` encoder with `EncoderTrap::Strict`:
/// each character below 0x100 becomes one byte of the same value, and any
/// character above that range makes the call fail.
#[verifier::external_body]
pub(crate) fn latin1_encode(s: &str) -> (r: Option<Vec<u8>>)
    ensures
        r is Some <==> latin1_encodable(s@),
        r is Some ==> r->0@ == latin1_seq(s@),
{
    ISO_8859_1.encode(s, EncoderTrap::Strict).ok()
}

/// Relies on `encoding`'s `ISO_8859_1` decoder with `DecoderTrap::Strict`:
/// every byte maps to the character of the same value, and no byte sequence
/// makes the call fail.
#[verifier::external_body]
pub(crate) fn latin1_decode(b: &[u8]) -> (r: String)
    ensures
        r@ == latin1_chars(b@),
{
    match ISO_8859_1.decode(b, DecoderTrap::Strict) {
        Ok(s) => s,
        Err(_) => String::new(),
    }
}

/// Relies on `String::from_utf8`: it succeeds exactly on valid UTF-8 input
/// and then carries the characters those bytes encode.
#[verifier::external_body]
pub(crate) fn utf8_decode(b: &[u8]) -> (r: Option<String>)
    ensures
        r is Some <==> vstd::utf8::valid_utf8(b@),
        r is Some ==> r->0@ == vstd::utf8::decode_utf8(b@),
{
    match String::from_utf8(b.to_vec()) {
        Ok(s) => Some(s),
        Err(_) => None,
    }
}

/// Decoding the Latin-1 bytes of an encodable character sequence yields the
/// sequence back.
pub proof fn lemma_latin1_round_trip(s: Seq<char>)
    requires
        latin1_encodable(s),
    ensures
        latin1_chars(latin1_seq(s)) == s,
{
    assert forall|i: int| 0 <= i < s.len() implies latin1_chars(latin1_seq(s))[i] == s[i] by {
        let c = s[i];
        let u: u32 = c as u32;
        let b: u8 = u as u8;
        assert(b as u32 == u);
        vstd::utf8::char_u32_cast(c, u);
        assert(b as char == c);
    }
    assert(latin1_chars(latin1_seq(s)) =~= s);
}

} // verus!
