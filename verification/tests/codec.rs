use pastebin::hexcode::{encode_hex, decode_hex};
use pastebin::numcode::{format_u64, parse_u64, count_lines, COUNT_CAP};
use pastebin::metadata::{FileMetadata, encode_metadata, parse_metadata};

#[test]
fn hex_exact_value() {
    let v = vec![0x00u8, 0xff, 0x1a];
    assert_eq!(encode_hex(&v), b"00ff1a".to_vec());
}

#[test]
fn hex_empty() {
    assert_eq!(encode_hex(&Vec::new()), Vec::<u8>::new());
}

#[test]
fn hex_round_trip() {
    let v: Vec<u8> = (0u16..=255).map(|b| b as u8).collect();
    let enc = encode_hex(&v);
    assert_eq!(decode_hex(&enc), Some(v));
}

#[test]
fn hex_rejects_odd_length() {
    assert_eq!(decode_hex(&b"abc".to_vec()), None);
}

#[test]
fn hex_rejects_uppercase() {
    assert_eq!(decode_hex(&b"AB".to_vec()), None);
    assert_eq!(decode_hex(&b"0g".to_vec()), None);
}

#[test]
fn decimal_exact_values() {
    assert_eq!(format_u64(0), b"0".to_vec());
    assert_eq!(format_u64(907), b"907".to_vec());
    assert_eq!(format_u64(COUNT_CAP), b"9999999999999999999".to_vec());
}

#[test]
fn decimal_parse() {
    assert_eq!(parse_u64(&b"123".to_vec()), Some(123));
    assert_eq!(parse_u64(&b"0".to_vec()), Some(0));
    assert_eq!(parse_u64(&Vec::new()), None);
    assert_eq!(parse_u64(&b"12a".to_vec()), None);
    assert_eq!(parse_u64(&b"12345678901234567890".to_vec()), None);
}

#[test]
fn decimal_round_trip() {
    for n in [0u64, 1, 9, 10, 99, 1000000, COUNT_CAP] {
        assert_eq!(parse_u64(&format_u64(n)), Some(n));
    }
}

#[test]
fn line_counting() {
    assert_eq!(count_lines(&Vec::new()), 0);
    assert_eq!(count_lines(&b"a\nb\n".to_vec()), 2);
    assert_eq!(count_lines(&b"a\nb".to_vec()), 2);
    assert_eq!(count_lines(&b"\n".to_vec()), 1);
}

#[test]
fn metadata_round_trip() {
    let hash = [7u8; 32];
    let mime = b"text/plain; charset=utf-8".to_vec();
    let m = FileMetadata::new(hash, mime.clone());
    assert_eq!(m.mime(), &mime);
    let encoded = encode_metadata(&m);
    let parsed = parse_metadata(&encoded).expect("framed metadata must parse");
    assert_eq!(parsed.hash, hash);
    assert_eq!(parsed.mime(), &mime);
}

#[test]
fn metadata_rejects_corrupt() {
    assert_eq!(parse_metadata(&b"too short".to_vec()).is_some(), false);
    // 64 hex digits but no space separator
    let mut no_sep = vec![b'a'; 64];
    no_sep.push(b'x');
    assert!(parse_metadata(&no_sep).is_none());
    // separator in place but an uppercase digit in the hash
    let mut bad_hex = vec![b'a'; 64];
    bad_hex[3] = b'F';
    bad_hex.push(b' ');
    bad_hex.extend_from_slice(b"text/plain");
    assert!(parse_metadata(&bad_hex).is_none());
}

#[test]
fn metadata_keeps_mime_with_spaces() {
    let m = FileMetadata::new([0u8; 32], b"text/plain; charset=utf-8".to_vec());
    let parsed = parse_metadata(&encode_metadata(&m)).unwrap();
    assert_eq!(parsed.mime(), &b"text/plain; charset=utf-8".to_vec());
}
