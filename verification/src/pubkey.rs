use vstd::prelude::*;

use solana_sdk::pubkey::Pubkey;
use std::str::FromStr;

verus! {

/// A Solana public key held as its 32 raw bytes.
#[derive(Clone, Copy, Debug, PartialEq, Eq)]
pub struct WrappedPubkey(pub [u8; 32]);

impl WrappedPubkey {
    /// The key whose bytes are `bytes`.
    pub fn from_bytes(bytes: [u8; 32]) -> (key: Self)
        ensures
            key.0 == bytes,
    {
        Self(bytes)
    }
}

impl Default for WrappedPubkey {
    /// The all-zero key.
    fn default() -> (key: Self)
        ensures
            key.0@ == Seq::new(32, |i: int| 0u8),
    {
        WrappedPubkey([0u8; 32])
    }
}

/// The value of a base58 digit (alphabet
/// `123456789ABCDEFGHJKLMNPQRSTUVWXYZabcdefghijkmnopqrstuvwxyz`), or -1 for a
/// character outside the alphabet.
pub open spec fn base58_digit(c: char) -> int {
    let x = c as int;
    if 49 <= x <= 57 {
        x - 49
    } else if 65 <= x <= 72 {
        x - 56
    } else if 74 <= x <= 78 {
        x - 57
    } else if 80 <= x <= 90 {
        x - 58
    } else if 97 <= x <= 107 {
        x - 64
    } else if 109 <= x <= 122 {
        x - 65
    } else {
        -1
    }
}

/// Every character of `text` is a base58 digit.
pub open spec fn is_base58_text(text: Seq<char>) -> bool {
    forall|i: int| 0 <= i < text.len() ==> base58_digit(#[trigger] text[i]) >= 0
}

/// The number that base58 text denotes, most significant digit first.
pub open spec fn base58_value(text: Seq<char>) -> nat
    decreases text.len(),
{
    if text.len() == 0 {
        0
    } else {
        base58_value(text.drop_last()) * 58 + base58_digit(text.last()) as nat
    }
}

/// The number of `1` characters that `text` starts with.
pub open spec fn leading_ones(text: Seq<char>) -> nat
    decreases text.len(),
{
    if text.len() > 0 && text[0] == '1' {
        1 + leading_ones(text.drop_first())
    } else {
        0
    }
}

/// The number of bytes that `v` takes without leading zero bytes.
pub open spec fn significant_bytes(v: nat) -> nat
    decreases v,
{
    if v == 0 {
        0
    } else {
        1 + significant_bytes(v / 256)
    }
}

/// The number that bytes denote, most significant byte first.
pub open spec fn big_endian_value(bytes: Seq<u8>) -> nat
    decreases bytes.len(),
{
    if bytes.len() == 0 {
        0
    } else {
        big_endian_value(bytes.drop_last()) * 256 + bytes.last() as nat
    }
}

/// Whether `text` is the base58 form of a 32-byte Solana address: at most 44
/// base58 digits whose value fits in 32 bytes, with one leading `1` for each
/// leading zero byte of those 32 bytes.
pub open spec fn is_address_text(text: Seq<char>) -> bool {
    &&& text.len() <= 44
    &&& is_base58_text(text)
    &&& leading_ones(text) + significant_bytes(base58_value(text)) == 32
}

/// Decodes base58 text into an address by `solana_sdk::pubkey::Pubkey::from_str`.
///
/// Claimed of the outside function: it succeeds exactly on address text (it
/// refuses text longer than 44 bytes, characters outside the alphabet, values
/// that do not fit in 32 bytes, and a count of leading `1`s other than the
/// count of leading zero bytes), and the 32 bytes it gives denote, big-endian,
/// the base58 value of the text.
#[verifier::external_body]
pub(crate) fn decode_base58_address(text: &str) -> (key: Option<WrappedPubkey>)
    ensures
        key is Some <==> is_address_text(text@),
        key matches Some(k) ==> big_endian_value(k.0@) == base58_value(text@),
{
    match Pubkey::from_str(text) {
        Ok(p) => Some(WrappedPubkey(p.to_bytes())),
        Err(_) => None,
    }
}

} // verus!
