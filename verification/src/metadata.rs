//! The small metadata record stored beside each entry: the full
//! fingerprint for integrity verification and the detected MIME type,
//! framed as the fingerprint in lowercase hexadecimal, one space, and the
//! MIME bytes.

use vstd::prelude::*;
use crate::bytevec::push_all;
use crate::digest::hash_to_vec;
use crate::hexcode::{
    hex_of, unhex, is_hex_byte, encode_hex, decode_hex, lemma_hex_of_len, lemma_hex_of_is_hex,
    lemma_unhex_hex_of,
};
use vstd::array::ArrayAdditionalExecFns;
use vstd::slice::{slice_subrange, slice_to_vec};

verus! {

/// Metadata attached to a stored entry.
#[derive(Debug)]
pub struct FileMetadata {
    /// The full, untruncated fingerprint of the content.
    pub hash: [u8; 32],
    /// The detected presentation MIME type.
    pub mime: Vec<u8>,
}

impl FileMetadata {
    /// Builds a metadata record from a fingerprint and a MIME type.
    pub fn new(hash: [u8; 32], mime: Vec<u8>) -> (m: Self)
        ensures
            m.hash == hash,
            m.mime == mime,
    {
        FileMetadata { hash, mime }
    }

    /// The detected MIME type.
    pub fn mime(&self) -> (r: &Vec<u8>)
        ensures
            r@ == self.mime@,
    {
        &self.mime
    }
}

/// The framed metadata bytes: 64 hexadecimal digits of the fingerprint,
/// one space, then the MIME bytes.
pub open spec fn meta_encode_spec(hash: Seq<u8>, mime: Seq<u8>) -> Seq<u8> {
    hex_of(hash) + seq![32u8] + mime
}

/// The parse of framed metadata bytes: at least 65 bytes, 64 lowercase
/// hexadecimal digits, then a space; everything after the space is the
/// MIME type. Any other shape is corrupt and fails to parse.
pub open spec fn meta_parse_spec(b: Seq<u8>) -> Option<(Seq<u8>, Seq<u8>)> {
    if b.len() >= 65 && b[64] == 32 && (forall|i: int| 0 <= i < 64 ==> is_hex_byte(#[trigger] b[i])) {
        Some((unhex(b.take(64)), b.skip(65)))
    } else {
        None
    }
}

/// Parsing undoes encoding: a record framed from a 32-byte fingerprint
/// and any MIME bytes is read back unchanged.
pub proof fn lemma_meta_round_trip(hash: Seq<u8>, mime: Seq<u8>)
    requires
        hash.len() == 32,
    ensures
        meta_parse_spec(meta_encode_spec(hash, mime)) == Some((hash, mime)),
{
    let e = meta_encode_spec(hash, mime);
    lemma_hex_of_len(hash);
    lemma_hex_of_is_hex(hash);
    assert(e.len() == 65 + mime.len());
    assert(e[64] == 32u8);
    assert(forall|i: int| 0 <= i < 64 ==> #[trigger] e[i] == hex_of(hash)[i]);
    assert(e.take(64) =~= hex_of(hash));
    lemma_unhex_hex_of(hash);
    assert(e.skip(65) =~= mime);
}

/// Frames a metadata record as stored bytes.
pub fn encode_metadata(m: &FileMetadata) -> (r: Vec<u8>)
    ensures
        r@ == meta_encode_spec(m.hash@, m.mime@),
{
    let hv = hash_to_vec(&m.hash);
    let mut r = encode_hex(&hv);
    r.push(32);
    push_all(&mut r, m.mime.as_slice());
    proof {
        assert(r@ =~= meta_encode_spec(m.hash@, m.mime@));
    }
    r
}

/// Reads a metadata record back from stored bytes; `None` exactly on
/// corrupt bytes, which a read of the entry surfaces as an error.
pub fn parse_metadata(b: &Vec<u8>) -> (r: Option<FileMetadata>)
    ensures
        r is Some <==> meta_parse_spec(b@) is Some,
        r is Some ==> r->0.hash@ == (meta_parse_spec(b@)->0).0 && r->0.mime@ == (meta_parse_spec(
            b@,
        )->0).1,
{
    if b.len() < 65 {
        return None;
    }
    if b[64] != 32 {
        return None;
    }
    let hex_part = slice_to_vec(slice_subrange(b.as_slice(), 0, 64));
    proof {
        assert(hex_part@ =~= b@.take(64));
    }
    let decoded = match decode_hex(&hex_part) {
        Some(v) => v,
        None => {
            return None;
        },
    };
    proof {
        crate::hexcode::lemma_unhex_len(b@.take(64));
        assert forall|i: int| 0 <= i < 64 implies is_hex_byte(#[trigger] b@[i]) by {
            assert(is_hex_byte(hex_part@[i]));
            assert(hex_part@[i] == b@.take(64)[i]);
        }
    }
    let mut hash: [u8; 32] = [0; 32];
    let mut i: usize = 0;
    while i < 32
        invariant
            i <= 32,
            decoded@.len() == 32,
            forall|j: int| 0 <= j < i ==> hash@[j] == decoded@[j],
        decreases 32 - i,
    {
        hash[i] = decoded[i];
        i = i + 1;
    }
    proof {
        assert(hash@ =~= decoded@);
    }
    let mime = slice_to_vec(slice_subrange(b.as_slice(), 65, b.len()));
    proof {
        assert(mime@ =~= b@.skip(65));
    }
    Some(FileMetadata { hash, mime })
}

} // verus!
