//! The fingerprint engine: a cryptographic digest of the content and the
//! short public identifier cut from a text encoding of it.

use vstd::prelude::*;
use crate::config::IdEncoding;
use crate::hexcode::{hex_of, is_hex_byte, encode_hex, lemma_hex_of_len, lemma_hex_of_is_hex};

verus! {

/// The 32-byte cryptographic digest of a byte sequence, as blake3
/// computes it: a pure function of the content alone.
pub uninterp spec fn blake3_of(b: Seq<u8>) -> Seq<u8>;

/// The base-58 text encoding of a byte sequence, as bs58 computes it
/// with its default alphabet: a pure function of the content alone.
pub uninterp spec fn base58_of(b: Seq<u8>) -> Seq<u8>;

/// The standard padded base-64 text encoding of a byte sequence.
pub uninterp spec fn base64_of(b: Seq<u8>) -> Seq<u8>;

/// Whether a byte is a symbol of the base-58 alphabet, which leaves out
/// the easily confused `0`, `I`, `O` and `l`.
pub open spec fn is_base58_byte(c: u8) -> bool {
    (49 <= c <= 57) || (65 <= c <= 72) || (74 <= c <= 78) || (80 <= c <= 90) || (97 <= c <= 107)
        || (109 <= c <= 122)
}

/// Whether a byte may appear in an identifier under the given encoding.
pub open spec fn is_id_byte(enc: IdEncoding, c: u8) -> bool {
    match enc {
        IdEncoding::Hex => is_hex_byte(c),
        IdEncoding::Base58 => is_base58_byte(c),
    }
}

/// Relies on `blake3::hash` and its conversion to `[u8; 32]`: the digest
/// is a pure function of the input bytes.
#[verifier::external_body]
fn blake3_digest(b: &Vec<u8>) -> (r: [u8; 32])
    ensures
        r@ == blake3_of(b@),
{
    blake3::hash(b.as_slice()).into()
}

/// Relies on `bs58::encode` with its default (Bitcoin) alphabet. The
/// encoding is a pure function of the input; every output byte is a
/// symbol of that 58-character alphabet; and the output is at least as
/// long as the input, since each leading zero byte becomes one symbol
/// and the remaining bytes, read as a base-256 number, need at least as
/// many base-58 digits as they have base-256 digits.
#[verifier::external_body]
fn base58_encode(b: &Vec<u8>) -> (r: Vec<u8>)
    ensures
        r@ == base58_of(b@),
        r@.len() >= b@.len(),
        forall|i: int| 0 <= i < r@.len() ==> is_base58_byte(#[trigger] r@[i]),
{
    bs58::encode(b.as_slice()).into_vec()
}

/// Relies on base64's `STANDARD` engine: padded standard base-64, which
/// writes four output bytes for every started group of three input
/// bytes, as a pure function of the input.
#[verifier::external_body]
pub(crate) fn base64_encode(b: &Vec<u8>) -> (r: Vec<u8>)
    ensures
        r@ == base64_of(b@),
        r@.len() == 4 * ((b@.len() + 2) / 3),
{
    base64::Engine::encode(&base64::engine::general_purpose::STANDARD, b.as_slice()).into_bytes()
}

/// The full fingerprint of content bytes.
pub fn fingerprint(b: &Vec<u8>) -> (r: [u8; 32])
    ensures
        r@ == blake3_of(b@),
{
    blake3_digest(b)
}

/// Copies a fingerprint into a vector.
pub fn hash_to_vec(h: &[u8; 32]) -> (r: Vec<u8>)
    ensures
        r@ == h@,
{
    let mut r: Vec<u8> = Vec::new();
    let mut i: usize = 0;
    while i < 32
        invariant
            i <= 32,
            r@ == h@.take(i as int),
        decreases 32 - i,
    {
        r.push(h[i]);
        i = i + 1;
        proof {
            assert(r@ =~= h@.take(i as int));
        }
    }
    proof {
        assert(h@.take(32) =~= h@);
    }
    r
}

/// The text encoding of a digest under the configured identifier
/// encoding.
pub open spec fn text_encoding(enc: IdEncoding, h: Seq<u8>) -> Seq<u8> {
    match enc {
        IdEncoding::Hex => hex_of(h),
        IdEncoding::Base58 => base58_of(h),
    }
}

/// The identifier cut from a digest: the first `len` symbols of its
/// text encoding.
pub open spec fn identifier_of_hash(enc: IdEncoding, h: Seq<u8>, len: int) -> Seq<u8> {
    text_encoding(enc, h).take(len)
}

/// Shortens a full fingerprint to the public identifier: exactly `len`
/// symbols, all from the configured alphabet.
pub fn shorten(hash: &[u8; 32], enc: IdEncoding, len: usize) -> (r: Vec<u8>)
    requires
        1 <= len <= 32,
    ensures
        r@ == identifier_of_hash(enc, hash@, len as int),
        r@.len() == len,
        forall|i: int| 0 <= i < r@.len() ==> is_id_byte(enc, #[trigger] r@[i]),
{
    let full = hash_to_vec(hash);
    let mut enc_text = match enc {
        IdEncoding::Hex => {
            proof {
                lemma_hex_of_len(full@);
                lemma_hex_of_is_hex(full@);
            }
            encode_hex(&full)
        },
        IdEncoding::Base58 => base58_encode(&full),
    };
    enc_text.truncate(len);
    enc_text
}

/// The fingerprint is deterministic: hashing equal byte sequences, in
/// whatever call or process, names equal digests, so repeated uploads of
/// the same content always meet the same identifier.
pub proof fn lemma_fingerprint_deterministic(b1: Seq<u8>, b2: Seq<u8>)
    requires
        b1 == b2,
    ensures
        blake3_of(b1) == blake3_of(b2),
{
}

} // verus!
