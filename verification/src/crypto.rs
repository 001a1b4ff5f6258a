//! Digests for webhook signatures: HMAC-SHA256 and SHA-256 from the `hmac`
//! and `sha2` crates, and lower-case hex from the `hex` crate.

use vstd::prelude::*;
use hmac::{Hmac, Mac};
use sha2::{Digest, Sha256};

verus! {

/// HMAC-SHA256 of `message` under `key`, as `hmac::Hmac<sha2::Sha256>`
/// computes it.
pub uninterp spec fn hmac_sha256_spec(key: Seq<u8>, message: Seq<u8>) -> Seq<u8>;

/// SHA-256 of `data`, as `sha2::Sha256` computes it.
pub uninterp spec fn sha256_spec(data: Seq<u8>) -> Seq<u8>;

/// The lower-case hex digit of a nibble.
pub open spec fn hex_digit(d: nat) -> char {
    if d < 10 {
        (d + 48) as char
    } else {
        (d + 87) as char
    }
}

/// Each byte as two lower-case hex digits, high nibble first.
pub open spec fn hex_lower(bytes: Seq<u8>) -> Seq<char>
    decreases bytes.len(),
{
    if bytes.len() == 0 {
        Seq::empty()
    } else {
        hex_lower(bytes.drop_last()) + seq![
            hex_digit((bytes.last() / 16) as nat),
            hex_digit((bytes.last() % 16) as nat),
        ]
    }
}

/// Whether `c` is a lower-case hex digit.
pub open spec fn is_hex_lower_char(c: char) -> bool {
    ('0' <= c && c <= '9') || ('a' <= c && c <= 'f')
}

/// Lower-case hex holds two digits per byte, each a lower-case hex digit.
pub proof fn lemma_hex_lower_chars(bytes: Seq<u8>)
    ensures
        hex_lower(bytes).len() == 2 * bytes.len(),
        forall|i: int| 0 <= i < hex_lower(bytes).len() ==> is_hex_lower_char(#[trigger] hex_lower(bytes)[i]),
    decreases bytes.len(),
{
    if bytes.len() > 0 {
        lemma_hex_lower_chars(bytes.drop_last());
        let b = bytes.last();
        let hi = (b / 16) as nat;
        let lo = (b % 16) as nat;
        assert(is_hex_lower_char(hex_digit(hi)));
        assert(is_hex_lower_char(hex_digit(lo)));
        let prev = hex_lower(bytes.drop_last());
        let s = hex_lower(bytes);
        assert(s == prev + seq![hex_digit(hi), hex_digit(lo)]);
        assert forall|i: int| 0 <= i < s.len() implies is_hex_lower_char(#[trigger] s[i]) by {
            if i < prev.len() {
                assert(s[i] == prev[i]);
            }
        }
    }
}

/// Computes HMAC-SHA256 through `hmac::Hmac<sha2::Sha256>`:
/// `new_from_slice(key)`, `update(message)`, `finalize().into_bytes()`.
/// Claimed: the result is the HMAC named `hmac_sha256_spec` of the key and
/// message, 32 bytes long, and the key is always accepted (HMAC's
/// `new_from_slice` takes a key of any length and never returns its error).
#[verifier::external_body]
pub(crate) fn hmac_sha256(key: &[u8], message: &[u8]) -> (r: Result<Vec<u8>, String>)
    ensures
        r is Ok,
        r matches Ok(v) ==> v@ == hmac_sha256_spec(key@, message@) && v@.len() == 32,
{
    match <Hmac<Sha256> as Mac>::new_from_slice(key) {
        Ok(mac) => Ok(mac.chain_update(message).finalize().into_bytes().to_vec()),
        Err(error) => Err(error.to_string()),
    }
}

/// Computes SHA-256 through `sha2::Sha256::digest`. Claimed: the result is the
/// digest named `sha256_spec` of the data, 32 bytes long.
#[verifier::external_body]
pub(crate) fn sha256_digest(data: &[u8]) -> (r: Vec<u8>)
    ensures
        r@ == sha256_spec(data@),
        r@.len() == 32,
{
    Sha256::digest(data).to_vec()
}

/// Encodes bytes through `hex::encode`. Claimed: each byte becomes two
/// lower-case hex digits, high nibble first, in order (the crate's
/// `HEX_CHARS_LOWER` table).
#[verifier::external_body]
pub(crate) fn hex_encode(bytes: &[u8]) -> (r: String)
    ensures
        r@ == hex_lower(bytes@),
{
    hex::encode(bytes)
}

} // verus!
