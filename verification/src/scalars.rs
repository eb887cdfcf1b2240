//! Texts and signed numbers in the fields of a message.

use crate::wire::DecodeError;
use vstd::prelude::*;
use vstd::slice::slice_to_vec;
use vstd::utf8::{decode_utf8, encode_utf8, valid_utf8};

verus! {

/// The text that a byte string spells.
pub open spec fn text_in(bytes: Seq<u8>) -> Result<Seq<char>, DecodeError> {
    if valid_utf8(bytes) {
        Ok(decode_utf8(bytes))
    } else {
        Err(DecodeError::InvalidUtf8)
    }
}

/// The bytes of an optional text.
pub open spec fn utf8_of(text: Option<Seq<char>>) -> Option<Seq<u8>> {
    match text {
        Some(text) => Some(encode_utf8(text)),
        None => None,
    }
}

/// `String::from_utf8` gives the text that bytes spell where they are valid UTF-8, and fails where
/// they are not.
#[verifier::external_body]
fn string_from_utf8(bytes: Vec<u8>) -> (text: Option<String>)
    ensures
        match text {
            Some(text) => valid_utf8(bytes@) && text@ == decode_utf8(bytes@),
            None => !valid_utf8(bytes@),
        },
{
    String::from_utf8(bytes).ok()
}

/// Reads a text.
pub fn read_text(bytes: &[u8]) -> (result: Result<String, DecodeError>)
    ensures
        match (result, text_in(bytes@)) {
            (Ok(text), Ok(chars)) => text@ == chars,
            (Err(a), Err(b)) => a == b,
            _ => false,
        },
{
    match string_from_utf8(slice_to_vec(bytes)) {
        Some(text) => Ok(text),
        None => Err(DecodeError::InvalidUtf8),
    }
}

/// The bytes of a text.
pub fn text_bytes(text: &String) -> (bytes: Vec<u8>)
    ensures
        bytes@ == encode_utf8(text@),
{
    slice_to_vec(text.as_str().as_bytes())
}

/// Reading the bytes of a text gives it back, and only the empty text has none.
pub proof fn lemma_text_round_trip(text: Seq<char>)
    ensures
        text_in(encode_utf8(text)) == Ok::<Seq<char>, DecodeError>(text),
        encode_utf8(text).len() == 0 ==> text == Seq::<char>::empty(),
{
    vstd::utf8::encode_utf8_valid_utf8(text);
    vstd::utf8::encode_utf8_decode_utf8(text);
    if encode_utf8(text).len() == 0 {
        assert(encode_utf8(text) =~= Seq::<u8>::empty());
        assert(decode_utf8(Seq::<u8>::empty()) =~= Seq::<char>::empty());
    }
}

/// A signed number as it is written: a negative one counts down from the end of 64 bits.
pub open spec fn signed_bits(value: i64) -> u64 {
    if value >= 0 {
        value as u64
    } else {
        (0x1_0000_0000_0000_0000 + value) as u64
    }
}

/// The signed number that is written as `bits`.
pub open spec fn signed_of(bits: u64) -> i64 {
    if bits < 0x8000_0000_0000_0000 {
        bits as i64
    } else {
        (bits - 0x1_0000_0000_0000_0000) as i64
    }
}

/// The signed number of 32 bits that is written as `bits`, of which only the low half counts.
pub open spec fn small_signed_of(bits: u64) -> i32 {
    let low = bits as int % 0x1_0000_0000;
    if low < 0x8000_0000 {
        low as i32
    } else {
        (low - 0x1_0000_0000) as i32
    }
}

/// How a signed number is written.
pub fn to_signed_bits(value: i64) -> (bits: u64)
    ensures
        bits == signed_bits(value),
{
    if value >= 0 {
        value as u64
    } else {
        0xffff_ffff_ffff_ffff - (-(value + 1)) as u64
    }
}

/// Reads a signed number.
pub fn from_signed_bits(bits: u64) -> (value: i64)
    ensures
        value == signed_of(bits),
{
    if bits < 0x8000_0000_0000_0000 {
        bits as i64
    } else {
        -1 - (0xffff_ffff_ffff_ffff - bits) as i64
    }
}

/// Reads a signed number of 32 bits.
pub fn from_small_signed_bits(bits: u64) -> (value: i32)
    ensures
        value == small_signed_of(bits),
{
    let low: u64 = bits % 0x1_0000_0000;
    if low < 0x8000_0000 {
        low as i32
    } else {
        -1 - (0xffff_ffff - low) as i32
    }
}

/// Reading a signed number as it is written gives it back, and only zero is written as zero.
pub proof fn lemma_signed_round_trip(value: i64)
    ensures
        signed_of(signed_bits(value)) == value,
        signed_bits(value) == 0 <==> value == 0,
{
}

/// Reading a signed number of 32 bits as it is written gives it back.
pub proof fn lemma_small_signed_round_trip(value: i32)
    ensures
        small_signed_of(signed_bits(value as i64)) == value,
        signed_bits(value as i64) == 0 <==> value == 0,
{
}

} // verus!
