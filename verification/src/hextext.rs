//! Bytes as hexadecimal text, and back.

use vstd::prelude::*;
use crate::error::BitcoinError;

verus! {

/// `hex::FromHexError`, the reason `hex::decode` gives for a failure. It is
/// carried through unread.
#[verifier::external_type_specification]
#[verifier::external_body]
pub struct ExFromHexError(hex::FromHexError);

/// The lowercase hexadecimal digit for a number below 16.
pub open spec fn hex_digit(n: int) -> char
    recommends
        0 <= n < 16,
{
    if n < 10 {
        (0x30 + n) as char
    } else {
        (0x57 + n) as char
    }
}

/// The number that a hexadecimal digit of either case stands for, or `None`
/// for any other character.
pub open spec fn hex_value(c: char) -> Option<int> {
    let n = c as int;
    if 0x30 <= n <= 0x39 {
        Some(n - 0x30)
    } else if 0x61 <= n <= 0x66 {
        Some(n - 0x57)
    } else if 0x41 <= n <= 0x46 {
        Some(n - 0x37)
    } else {
        None
    }
}

/// The bytes as lowercase hexadecimal text: two digits for each byte, the
/// high half first.
pub open spec fn hex_text(bytes: Seq<u8>) -> Seq<char> {
    Seq::new(
        2 * bytes.len(),
        |i: int|
            hex_digit(
                if i % 2 == 0 {
                    bytes[i / 2] as int / 16
                } else {
                    bytes[i / 2] as int % 16
                },
            ),
    )
}

/// Every character is a hexadecimal digit and there is an even number of
/// them.
pub open spec fn is_hex_text(text: Seq<char>) -> bool {
    &&& text.len() % 2 == 0
    &&& forall|i: int| 0 <= i < text.len() ==> (#[trigger] hex_value(text[i])) is Some
}

/// The bytes that hexadecimal text stands for, two digits of either case
/// for each byte, or `None` where the text is not hexadecimal.
pub open spec fn hex_bytes(text: Seq<char>) -> Option<Seq<u8>> {
    if is_hex_text(text) {
        Some(
            Seq::new(
                text.len() / 2,
                |i: int|
                    (hex_value(text[2 * i]).unwrap() * 16 + hex_value(
                        text[2 * i + 1],
                    ).unwrap()) as u8,
            ),
        )
    } else {
        None
    }
}

/// The hexadecimal text of any bytes reads back as those bytes.
pub proof fn lemma_hex_round_trip(bytes: Seq<u8>)
    ensures
        hex_text(bytes).len() == 2 * bytes.len(),
        hex_bytes(hex_text(bytes)) == Some(bytes),
{
    assert forall|n: int| 0 <= n < 16 implies #[trigger] hex_value(hex_digit(n)) == Some(n) by {}
    assert(is_hex_text(hex_text(bytes)));
    assert(hex_bytes(hex_text(bytes)).unwrap() =~= bytes);
}

/// Calls `hex::encode`, which writes each byte as two characters taken from
/// `0123456789abcdef`, the one for the high four bits first.
#[verifier::external_body]
pub(crate) fn hex_encode(bytes: &[u8]) -> (text: String)
    ensures
        text@ == hex_text(bytes@),
{
    hex::encode(bytes)
}

/// Calls `hex::decode`, which fails on text of odd length and on any
/// character other than `0`-`9`, `a`-`f` and `A`-`F`, and else joins each
/// pair of digits into one byte, the first digit being the high half.
#[verifier::external_body]
pub(crate) fn hex_decode(text: &str) -> (decoded: Result<Vec<u8>, hex::FromHexError>)
    ensures
        match hex_bytes(text@) {
            Some(bytes) => decoded matches Ok(found) && found@ == bytes,
            None => decoded is Err,
        },
{
    hex::decode(text)
}

/// The bytes as lowercase hexadecimal text.
pub fn to_hex(bytes: &[u8]) -> (text: String)
    ensures
        text@ == hex_text(bytes@),
{
    hex_encode(bytes)
}

/// The bytes that `text` stands for. Fails with `InvalidFormat` exactly
/// where `text` is not hexadecimal.
pub fn from_hex(text: &str) -> (decoded: Result<Vec<u8>, BitcoinError>)
    ensures
        match hex_bytes(text@) {
            Some(bytes) => decoded matches Ok(found) && found@ == bytes,
            None => decoded == Err::<Vec<u8>, BitcoinError>(BitcoinError::InvalidFormat),
        },
{
    match hex_decode(text) {
        Ok(found) => Ok(found),
        Err(_) => Err(BitcoinError::InvalidFormat),
    }
}

} // verus!
