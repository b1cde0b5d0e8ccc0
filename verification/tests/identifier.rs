use pastebin::config::IdEncoding;
use pastebin::digest::{fingerprint, shorten};

fn body() -> Vec<u8> {
    b"some content that is long enough to store".to_vec()
}

#[test]
fn fingerprint_deterministic() {
    let b = body();
    assert_eq!(fingerprint(&b), fingerprint(&b));
}

#[test]
fn fingerprint_matches_reference_digest() {
    let b = body();
    assert_eq!(&fingerprint(&b), blake3::hash(&b).as_bytes());
}

#[test]
fn fingerprint_avalanche() {
    let b = body();
    let mut b2 = body();
    b2[0] ^= 1;
    assert_ne!(fingerprint(&b), fingerprint(&b2));
}

#[test]
fn identifier_length_and_alphabet_base58() {
    let h = fingerprint(&body());
    let id = shorten(&h, IdEncoding::Base58, 8);
    assert_eq!(id.len(), 8);
    let alphabet = b"123456789ABCDEFGHJKLMNPQRSTUVWXYZabcdefghijkmnopqrstuvwxyz";
    for c in &id {
        assert!(alphabet.contains(c));
    }
}

#[test]
fn identifier_length_and_alphabet_hex() {
    let h = fingerprint(&body());
    let id = shorten(&h, IdEncoding::Hex, 16);
    assert_eq!(id.len(), 16);
    for c in &id {
        assert!(c.is_ascii_hexdigit() && !c.is_ascii_uppercase());
    }
}

#[test]
fn identifier_matches_reference_encoding() {
    let b = body();
    let h = fingerprint(&b);
    let expected = bs58::encode(blake3::hash(&b).as_bytes()).into_string();
    let id = shorten(&h, IdEncoding::Base58, 16);
    assert_eq!(id, expected.as_bytes()[..16].to_vec());
}

