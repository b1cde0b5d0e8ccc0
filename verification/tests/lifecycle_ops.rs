use base64::Engine;
use pastebin::config::{Config, IdEncoding, RetentionPolicy};
use pastebin::lifecycle::{DownloadError, PasteSystem, ValidationError};

const DAY: u64 = 86400;

fn host() -> Vec<u8> {
    b"example.com".to_vec()
}

fn body() -> Vec<u8> {
    b"some content that is long enough to store".to_vec()
}

fn fresh() -> PasteSystem {
    PasteSystem::new(Config::standard())
}

#[test]
fn round_trip_returns_uploaded_bytes() {
    let mut sys = fresh();
    let receipt = sys.upload(Some(body()), None, &host()).unwrap();
    assert_eq!(receipt.identifier.len(), 8);
    let hit = sys.download(&receipt.identifier).unwrap();
    assert_eq!(hit.content, body());
    assert_eq!(&hit.metadata.hash, blake3::hash(&body()).as_bytes());
}

#[test]
fn upload_receipt_urls() {
    let mut sys = fresh();
    let name = b"notes.txt".to_vec();
    let receipt = sys.upload(Some(body()), Some(&name), &host()).unwrap();
    let id = String::from_utf8(receipt.identifier.clone()).unwrap();
    let expected_url = format!("https://example.com/p/{id}/notes.txt");
    assert_eq!(receipt.url, expected_url.into_bytes());
    let b64 = base64::engine::general_purpose::STANDARD.encode(blake3::hash(&body()).as_bytes());
    let expected_origin = format!("https://example.com/p/{id}#integrity=blake3-{b64}");
    assert_eq!(receipt.origin_url, expected_origin.into_bytes());
}

#[test]
fn upload_url_without_filename_has_no_trailing_segment() {
    let mut sys = fresh();
    let receipt = sys.upload(Some(body()), None, &host()).unwrap();
    let id = String::from_utf8(receipt.identifier.clone()).unwrap();
    assert_eq!(receipt.url, format!("https://example.com/p/{id}").into_bytes());
}

#[test]
fn dedup_same_bytes_same_receipt_and_count() {
    let mut sys = fresh();
    let r1 = sys.upload(Some(body()), None, &host()).unwrap();
    assert_eq!(sys.stats().upload_count, 1);
    let r2 = sys.upload(Some(body()), None, &host()).unwrap();
    assert_eq!(r1.identifier, r2.identifier);
    assert_eq!(r1.url, r2.url);
    assert_eq!(r1.origin_url, r2.origin_url);
    assert_eq!(sys.stats().upload_count, 1);
}

#[test]
fn bounds_are_enforced_exactly() {
    let mut sys = fresh();
    assert_eq!(sys.upload(None, None, &host()).unwrap_err(), ValidationError::MissingBody);
    let min = Config::standard().min_size;
    let max = Config::standard().max_size;
    assert_eq!(sys.upload(Some(vec![b'x'; min - 1]), None, &host()).unwrap_err(), ValidationError::TooSmall);
    assert_eq!(sys.upload(Some(vec![b'x'; max + 1]), None, &host()).unwrap_err(), ValidationError::TooLarge);
    assert!(sys.upload(Some(vec![b'x'; min]), None, &host()).is_ok());
    assert!(sys.upload(Some(vec![b'y'; max]), None, &host()).is_ok());
}

#[test]
fn sentinel_payload_is_allowed_below_minimum() {
    let mut sys = fresh();
    assert!(sys.upload(Some(b"testing\n".to_vec()), None, &host()).is_ok());
    assert_eq!(sys.upload(Some(b"testinh\n".to_vec()), None, &host()).unwrap_err(), ValidationError::TooSmall);
}

#[test]
fn unknown_identifier_is_not_found() {
    let mut sys = fresh();
    sys.upload(Some(body()), None, &host()).unwrap();
    let err = sys.download(&b"00000000".to_vec()).unwrap_err();
    assert_eq!(err, DownloadError::NotFound);
}

#[test]
fn malformed_identifier_is_not_found() {
    let mut sys = fresh();
    sys.upload(Some(body()), None, &host()).unwrap();
    assert_eq!(sys.download(&b"short".to_vec()).unwrap_err(), DownloadError::NotFound);
}

#[test]
fn counter_counts_distinct_uploads_only() {
    let mut sys = fresh();
    assert_eq!(sys.stats().upload_count, 0);
    for i in 0u8..3 {
        let mut b = body();
        b.push(i);
        sys.upload(Some(b), None, &host()).unwrap();
    }
    assert_eq!(sys.stats().upload_count, 3);
    let mut b = body();
    b.push(1);
    sys.upload(Some(b), None, &host()).unwrap();
    assert_eq!(sys.stats().upload_count, 3);
}

#[test]
fn stats_reports_configuration() {
    let sys = fresh();
    let st = sys.stats();
    assert_eq!(st.upload_count, 0);
    assert_eq!(st.id_length, 8);
    assert_eq!(st.origin_ttl, 14 * DAY);
    assert_eq!(st.cache_ttl, 90 * DAY);
}

#[test]
fn cache_keeps_entry_after_origin_expiry() {
    let mut sys = fresh();
    let receipt = sys.upload(Some(body()), None, &host()).unwrap();
    // first read populates the cache from the origin
    assert_eq!(sys.download(&receipt.identifier).unwrap().content, body());
    // the origin entry expires; the cached copy outlives it
    sys.advance_clock(15 * DAY);
    assert_eq!(sys.download(&receipt.identifier).unwrap().content, body());
    // once the cache entry expires too, the paste is gone
    sys.advance_clock(90 * DAY);
    assert_eq!(sys.download(&receipt.identifier).unwrap_err(), DownloadError::NotFound);
}

#[test]
fn unread_entry_expires_with_origin() {
    let mut sys = fresh();
    let receipt = sys.upload(Some(body()), None, &host()).unwrap();
    sys.advance_clock(15 * DAY);
    assert_eq!(sys.download(&receipt.identifier).unwrap_err(), DownloadError::NotFound);
}

#[test]
fn reupload_restores_expired_entry() {
    let mut sys = fresh();
    let receipt = sys.upload(Some(body()), None, &host()).unwrap();
    sys.advance_clock(15 * DAY);
    assert_eq!(sys.download(&receipt.identifier).unwrap_err(), DownloadError::NotFound);
    let again = sys.upload(Some(body()), None, &host()).unwrap();
    assert_eq!(again.identifier, receipt.identifier);
    assert_eq!(sys.download(&receipt.identifier).unwrap().content, body());
    // the restored write is a fresh unique write in the counter's eyes
    assert_eq!(sys.stats().upload_count, 2);
}

#[test]
fn read_refresh_extends_origin_ttl() {
    let mut config = Config::standard();
    config.origin_policy = RetentionPolicy::ReadRefresh;
    config.cache_ttl = 1;
    let mut sys = PasteSystem::new(config);
    let receipt = sys.upload(Some(body()), None, &host()).unwrap();
    sys.advance_clock(13 * DAY);
    // this read falls back to the origin and extends its expiry
    assert!(sys.download(&receipt.identifier).is_ok());
    sys.advance_clock(13 * DAY);
    assert_eq!(sys.download(&receipt.identifier).unwrap().content, body());
}

#[test]
fn fixed_ttl_is_not_extended_by_reads() {
    let mut config = Config::standard();
    config.cache_ttl = 1;
    let mut sys = PasteSystem::new(config);
    let receipt = sys.upload(Some(body()), None, &host()).unwrap();
    sys.advance_clock(13 * DAY);
    assert!(sys.download(&receipt.identifier).is_ok());
    sys.advance_clock(13 * DAY);
    assert_eq!(sys.download(&receipt.identifier).unwrap_err(), DownloadError::NotFound);
}

#[test]
fn hex_identifier_configuration() {
    let mut config = Config::standard();
    config.encoding = IdEncoding::Hex;
    config.id_len = 16;
    let mut sys = PasteSystem::new(config);
    let receipt = sys.upload(Some(body()), None, &host()).unwrap();
    let expected = blake3::hash(&body()).to_hex();
    assert_eq!(receipt.identifier, expected.as_bytes()[..16].to_vec());
}

#[test]
fn base58_identifier_matches_reference() {
    let mut sys = fresh();
    let receipt = sys.upload(Some(body()), None, &host()).unwrap();
    let expected = bs58::encode(blake3::hash(&body()).as_bytes()).into_string();
    assert_eq!(receipt.identifier, expected.as_bytes()[..8].to_vec());
}

#[test]
fn mime_sniffed_from_magic_bytes() {
    let mut sys = fresh();
    let mut png = vec![0x89u8, 0x50, 0x4e, 0x47, 0x0d, 0x0a, 0x1a, 0x0a];
    png.resize(40, 0);
    let receipt = sys.upload(Some(png), None, &host()).unwrap();
    let hit = sys.download(&receipt.identifier).unwrap();
    assert_eq!(hit.metadata.mime(), &b"image/png".to_vec());
}

#[test]
fn mime_guessed_from_filename() {
    let mut sys = fresh();
    let name = b"style.css".to_vec();
    let receipt = sys.upload(Some(body()), Some(&name), &host()).unwrap();
    let hit = sys.download(&receipt.identifier).unwrap();
    assert_eq!(hit.metadata.mime(), &b"text/css".to_vec());
}

#[test]
fn mime_falls_back_to_plain_text_for_utf8() {
    let mut sys = fresh();
    let receipt = sys.upload(Some(body()), None, &host()).unwrap();
    let hit = sys.download(&receipt.identifier).unwrap();
    assert_eq!(hit.metadata.mime(), &b"text/plain; charset=utf-8".to_vec());
}

#[test]
fn mime_falls_back_to_octet_stream_for_binary() {
    let mut sys = fresh();
    let blob = vec![0xf8u8; 40];
    let receipt = sys.upload(Some(blob), None, &host()).unwrap();
    let hit = sys.download(&receipt.identifier).unwrap();
    assert_eq!(hit.metadata.mime(), &b"application/octet-stream".to_vec());
}
