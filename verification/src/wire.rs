use vstd::prelude::*;

use base64::Engine;

verus! {

/// The character of the standard base64 alphabet for the 6-bit value `v`:
/// `A`..`Z`, `a`..`z`, `0`..`9`, `+`, `/`.
pub open spec fn base64_digit(v: int) -> char {
    if v < 26 {
        (65 + v) as char
    } else if v < 52 {
        (97 + (v - 26)) as char
    } else if v < 62 {
        (48 + (v - 52)) as char
    } else if v == 62 {
        '+'
    } else {
        '/'
    }
}

/// The standard (RFC 4648, padded) base64 text of `bytes`: each group of
/// three bytes becomes four characters of six bits each, and a last group of
/// one or two bytes is completed with `=`.
pub open spec fn base64_standard(bytes: Seq<u8>) -> Seq<char>
    decreases bytes.len(),
{
    if bytes.len() == 0 {
        Seq::empty()
    } else if bytes.len() == 1 {
        let b0 = bytes[0] as int;
        seq![base64_digit(b0 / 4), base64_digit((b0 % 4) * 16), '=', '=']
    } else if bytes.len() == 2 {
        let b0 = bytes[0] as int;
        let b1 = bytes[1] as int;
        seq![base64_digit(b0 / 4), base64_digit((b0 % 4) * 16 + b1 / 16), base64_digit((b1 % 16) * 4), '=']
    } else {
        let b0 = bytes[0] as int;
        let b1 = bytes[1] as int;
        let b2 = bytes[2] as int;
        seq![
            base64_digit(b0 / 4),
            base64_digit((b0 % 4) * 16 + b1 / 16),
            base64_digit((b1 % 16) * 4 + b2 / 64),
            base64_digit(b2 % 64),
        ] + base64_standard(bytes.skip(3))
    }
}

/// The length of the padded base64 text of `n` bytes: four characters for
/// every started group of three bytes.
pub open spec fn base64_padded_len(n: nat) -> nat {
    4 * ((n + 2) / 3)
}

/// The base64 text of `bytes` has `base64_padded_len` characters.
pub proof fn lemma_base64_len(bytes: Seq<u8>)
    ensures
        base64_standard(bytes).len() == base64_padded_len(bytes.len()),
    decreases bytes.len(),
{
    if bytes.len() >= 3 {
        lemma_base64_len(bytes.skip(3));
    }
}

/// Encodes `bytes` by `base64::engine::general_purpose::STANDARD.encode`.
///
/// Claimed of the outside function: the text is the standard padded base64
/// encoding of the bytes (the `STANDARD` engine: standard alphabet, with
/// padding). The crate panics where the encoded length does not fit in
/// `usize`, which `requires` leaves out.
#[verifier::external_body]
fn base64_encode_standard(bytes: &[u8]) -> (text: String)
    requires
        4 * (bytes@.len() / 3 + 1) <= usize::MAX,
    ensures
        text@ == base64_standard(bytes@),
{
    base64::engine::general_purpose::STANDARD.encode(bytes)
}

/// The text that a serialized (wire-format) transaction is sent as in a
/// `sendTransaction` request with `"encoding": "base64"`.
pub fn transaction_payload(wire_tx: &[u8]) -> (payload: String)
    requires
        4 * (wire_tx@.len() / 3 + 1) <= usize::MAX,
    ensures
        payload@ == base64_standard(wire_tx@),
        payload@.len() == base64_padded_len(wire_tx@.len()),
{
    proof {
        lemma_base64_len(wire_tx@);
    }
    base64_encode_standard(wire_tx)
}

} // verus!
