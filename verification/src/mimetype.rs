//! Presentation MIME type of uploaded content: content sniffing first, a
//! guess from the file name's extension next, then a plain-text or
//! opaque-binary default.

use vstd::prelude::*;
use crate::bytevec::push_all;

verus! {

/// The MIME string that content sniffing detects from magic byte
/// sequences, if any: a pure function of the content bytes, as the
/// `infer` crate computes it.
pub uninterp spec fn sniffed_mime(b: Seq<u8>) -> Option<Seq<u8>>;

/// The MIME string guessed from a file name's extension, if any: a pure
/// function of the name's bytes, as `mime_guess` computes it.
pub uninterp spec fn guessed_mime(name: Seq<u8>) -> Option<Seq<u8>>;

/// Whether a byte sequence is valid UTF-8.
pub uninterp spec fn is_utf8(b: Seq<u8>) -> bool;

/// The bytes of `text/plain; charset=utf-8`.
pub open spec fn text_plain_utf8() -> Seq<u8> {
    seq![
        116u8, 101, 120, 116, 47, 112, 108, 97, 105, 110, 59, 32, 99, 104, 97, 114, 115, 101, 116,
        61, 117, 116, 102, 45, 56,
    ]
}

/// The bytes of `application/octet-stream`.
pub open spec fn octet_stream() -> Seq<u8> {
    seq![
        97u8, 112, 112, 108, 105, 99, 97, 116, 105, 111, 110, 47, 111, 99, 116, 101, 116, 45, 115,
        116, 114, 101, 97, 109,
    ]
}

/// The detected presentation MIME type: sniffed from the content if
/// possible, guessed from the file name next, `text/plain` for valid
/// UTF-8, and an opaque binary default otherwise.
pub open spec fn detected_mime(body: Seq<u8>, filename: Option<Seq<u8>>) -> Seq<u8> {
    if sniffed_mime(body) is Some {
        sniffed_mime(body)->0
    } else if filename is Some && guessed_mime(filename->0) is Some {
        guessed_mime(filename->0)->0
    } else if is_utf8(body) {
        text_plain_utf8()
    } else {
        octet_stream()
    }
}

/// Relies on `infer::get`: sniffs a type from magic byte sequences as a
/// pure function of the content, and names that type's MIME string.
#[verifier::external_body]
fn sniff(b: &Vec<u8>) -> (r: Option<Vec<u8>>)
    ensures
        r is Some <==> sniffed_mime(b@) is Some,
        r is Some ==> r->0@ == sniffed_mime(b@)->0,
{
    infer::get(b.as_slice()).map(|t| t.mime_type().as_bytes().to_vec())
}

/// Relies on `mime_guess::from_path`: the guess is a pure function of
/// the name, read from its extension alone; a name that is not UTF-8
/// carries no extension to read and yields no guess.
#[verifier::external_body]
fn guess_from_name(name: &Vec<u8>) -> (r: Option<Vec<u8>>)
    ensures
        r is Some <==> guessed_mime(name@) is Some,
        r is Some ==> r->0@ == guessed_mime(name@)->0,
{
    let s = match std::str::from_utf8(name.as_slice()) {
        Ok(s) => s,
        Err(_) => return None,
    };
    mime_guess::from_path(s).first_raw().map(|m| m.as_bytes().to_vec())
}

/// Relies on `std::str::from_utf8`, which succeeds exactly on valid
/// UTF-8 input.
#[verifier::external_body]
fn utf8_check(b: &Vec<u8>) -> (r: bool)
    ensures
        r == is_utf8(b@),
{
    std::str::from_utf8(b.as_slice()).is_ok()
}

/// The bytes of `text/plain; charset=utf-8` as a vector.
pub fn text_plain_utf8_vec() -> (r: Vec<u8>)
    ensures
        r@ == text_plain_utf8(),
{
    let a: [u8; 25] = [
        116, 101, 120, 116, 47, 112, 108, 97, 105, 110, 59, 32, 99, 104, 97, 114, 115, 101, 116,
        61, 117, 116, 102, 45, 56,
    ];
    let mut r: Vec<u8> = Vec::new();
    push_all(&mut r, a.as_slice());
    proof {
        assert(r@ =~= text_plain_utf8());
    }
    r
}

/// The bytes of `application/octet-stream` as a vector.
pub fn octet_stream_vec() -> (r: Vec<u8>)
    ensures
        r@ == octet_stream(),
{
    let a: [u8; 24] = [
        97, 112, 112, 108, 105, 99, 97, 116, 105, 111, 110, 47, 111, 99, 116, 101, 116, 45, 115,
        116, 114, 101, 97, 109,
    ];
    let mut r: Vec<u8> = Vec::new();
    push_all(&mut r, a.as_slice());
    proof {
        assert(r@ =~= octet_stream());
    }
    r
}

/// The contents of an optional byte vector.
pub open spec fn opt_bytes(o: Option<&Vec<u8>>) -> Option<Seq<u8>> {
    match o {
        Some(v) => Some(v@),
        None => None,
    }
}

/// Detects the presentation MIME type of an upload.
pub fn detect_mime(body: &Vec<u8>, filename: Option<&Vec<u8>>) -> (r: Vec<u8>)
    ensures
        r@ == detected_mime(body@, opt_bytes(filename)),
{
    if let Some(m) = sniff(body) {
        return m;
    }
    if let Some(f) = filename {
        if let Some(m) = guess_from_name(f) {
            return m;
        }
    }
    if utf8_check(body) {
        text_plain_utf8_vec()
    } else {
        octet_stream_vec()
    }
}

} // verus!
