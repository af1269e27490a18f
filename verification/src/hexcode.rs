//! Hexadecimal text, as the payload field of a wire line carries it.
//!
//! The conversion itself is done by the `hex` crate. This module says, over
//! sequences of bytes, what that crate computes, and proves that decoding undoes
//! encoding.

use vstd::prelude::*;

verus! {

/// The value of one hexadecimal digit, given as an ASCII byte; `None` for any
/// other byte. Both cases of the letters are digits.
pub open spec fn hex_digit_value(c: u8) -> Option<u8> {
    if 0x30 <= c <= 0x39 {
        Some((c - 0x30) as u8)
    } else if 0x41 <= c <= 0x46 {
        Some((c - 0x41 + 10) as u8)
    } else if 0x61 <= c <= 0x66 {
        Some((c - 0x61 + 10) as u8)
    } else {
        None
    }
}

/// A text is hexadecimal when its length is even and every byte is a digit.
pub open spec fn is_hex_text(text: Seq<u8>) -> bool {
    &&& text.len() % 2 == 0
    &&& forall|i: int| 0 <= i < text.len() ==> (#[trigger] hex_digit_value(text[i])) is Some
}

/// The byte that two digits stand for, high digit first.
pub open spec fn hex_pair_value(high: u8, low: u8) -> u8 {
    (16 * hex_digit_value(high).unwrap() + hex_digit_value(low).unwrap()) as u8
}

/// The bytes that a hexadecimal text stands for.
pub open spec fn hex_bytes(text: Seq<u8>) -> Seq<u8> {
    Seq::new((text.len() / 2) as nat, |i: int| hex_pair_value(text[2 * i], text[2 * i + 1]))
}

/// The upper-case digit of a value below 16.
pub open spec fn hex_upper_digit(value: u8) -> u8 {
    if value < 10 {
        (0x30 + value) as u8
    } else {
        (0x41 + (value - 10)) as u8
    }
}

/// The upper-case hexadecimal text of a sequence of bytes: two digits a byte,
/// high digit first.
pub open spec fn hex_upper_text(bytes: Seq<u8>) -> Seq<u8> {
    Seq::new(
        2 * bytes.len(),
        |i: int|
            if i % 2 == 0 {
                hex_upper_digit(bytes[i / 2] / 16)
            } else {
                hex_upper_digit(bytes[i / 2] % 16)
            },
    )
}

/// The error of `hex::decode`. Nothing is read from it: any error means
/// that the text is not hexadecimal.
#[verifier::external_type_specification]
#[verifier::external_body]
pub struct ExFromHexError(hex::FromHexError);

/// `hex::decode` on a slice of bytes.
///
/// Trusted: the crate rejects a text of odd length and a text with a byte that
/// is no hexadecimal digit, and nothing else; of an accepted text it returns one
/// byte for every two digits, the first digit of a pair being the high half.
#[verifier::external_body]
pub(crate) fn decode_hex(text: &[u8]) -> (result: Result<Vec<u8>, hex::FromHexError>)
    ensures
        result is Ok <==> is_hex_text(text@),
        result matches Ok(bytes) ==> bytes@ == hex_bytes(text@),
{
    hex::decode(text)
}

/// `hex::encode_upper` on a slice of bytes, the text handed back as bytes.
///
/// Trusted: the crate writes two upper-case digits for every byte, the high
/// half first. A text too long for a `String` is left out: the crate would
/// panic on it.
#[verifier::external_body]
pub(crate) fn encode_hex_upper(bytes: &[u8]) -> (text: Vec<u8>)
    requires
        2 * bytes@.len() <= isize::MAX,
    ensures
        text@ == hex_upper_text(bytes@),
{
    hex::encode_upper(bytes).into_bytes()
}

/// Every upper-case digit is a hexadecimal digit with the value it was made of.
pub proof fn lemma_upper_digit_value(value: u8)
    requires
        value < 16,
    ensures
        hex_digit_value(hex_upper_digit(value)) == Some(value),
        hex_upper_digit(value) < 0x80,
        hex_upper_digit(value) != 0x3b,
{
}

/// The text of any bytes is hexadecimal, and stands for those bytes.
pub proof fn lemma_hex_round_trip(bytes: Seq<u8>)
    ensures
        is_hex_text(hex_upper_text(bytes)),
        hex_bytes(hex_upper_text(bytes)) == bytes,
{
    let text = hex_upper_text(bytes);
    assert forall|i: int| 0 <= i < text.len() implies (#[trigger] hex_digit_value(text[i])) is Some by {
        lemma_upper_digit_value(bytes[i / 2] / 16);
        lemma_upper_digit_value(bytes[i / 2] % 16);
    }
    assert forall|i: int| 0 <= i < bytes.len() implies hex_bytes(text)[i] == bytes[i] by {
        lemma_upper_digit_value(bytes[i] / 16);
        lemma_upper_digit_value(bytes[i] % 16);
        assert(text[2 * i] == hex_upper_digit(bytes[i] / 16));
        assert(text[2 * i + 1] == hex_upper_digit(bytes[i] % 16));
    }
    assert(hex_bytes(text) =~= bytes);
}

} // verus!
