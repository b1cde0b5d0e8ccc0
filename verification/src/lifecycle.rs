//! The paste lifecycle: put/get orchestration over the two storage
//! tiers, idempotent write dedup, time-to-live refresh on read, metadata
//! propagation, and the best-effort upload counter.

use vstd::prelude::*;
use crate::bytevec::push_all;
use crate::config::{Config, RetentionPolicy};
use crate::digest::{
    blake3_of, base64_of, base64_encode, fingerprint, hash_to_vec, identifier_of_hash, shorten,
};
use crate::metadata::{
    FileMetadata, meta_encode_spec, meta_parse_spec, encode_metadata, parse_metadata,
};
use crate::mimetype::{detect_mime, detected_mime, opt_bytes};
use crate::numcode::{dec_of, dec_parse, line_count, format_u64, parse_u64, count_lines, COUNT_CAP};
use crate::store::{
    TtlStore, EntryModel, contains_live, expiry_at, touch_tr, append_tr,
};
use vstd::slice::slice_to_vec;

verus! {

/// A rejected upload: the body is absent, below the minimum size, or
/// above the maximum size. Each case is user-correctable.
#[derive(Clone, Copy, PartialEq, Eq, Structural, Debug)]
pub enum ValidationError {
    /// No body came with the request.
    MissingBody,
    /// The body is smaller than the configured minimum.
    TooSmall,
    /// The body is larger than the configured maximum.
    TooLarge,
}

/// A failed download. An unknown, expired or malformed identifier is
/// not found; stored metadata that fails to parse is corrupt, surfaced
/// for this one request rather than masked.
#[derive(Clone, Copy, PartialEq, Eq, Structural, Debug)]
pub enum DownloadError {
    /// No live entry answers to the identifier.
    NotFound,
    /// The entry's stored metadata fails to parse.
    MetadataCorrupt,
}

/// What a successful upload hands back.
#[derive(Debug)]
pub struct UploadReceipt {
    /// The short public identifier of the content.
    pub identifier: Vec<u8>,
    /// The public download URL.
    pub url: Vec<u8>,
    /// The download URL with the full fingerprint as an integrity tag.
    pub origin_url: Vec<u8>,
}

/// The model of an upload receipt.
#[verifier::ext_equal]
pub ghost struct ReceiptView {
    /// The short public identifier of the content.
    pub identifier: Seq<u8>,
    /// The public download URL.
    pub url: Seq<u8>,
    /// The download URL with the full fingerprint as an integrity tag.
    pub origin_url: Seq<u8>,
}

impl View for UploadReceipt {
    type V = ReceiptView;

    open spec fn view(&self) -> ReceiptView {
        ReceiptView { identifier: self.identifier@, url: self.url@, origin_url: self.origin_url@ }
    }
}

/// What a successful download hands back: the original bytes and the
/// metadata stored beside them.
#[derive(Debug)]
pub struct DownloadHit {
    /// The stored content bytes.
    pub content: Vec<u8>,
    /// The full fingerprint and the detected MIME type.
    pub metadata: FileMetadata,
}

/// The model of a download hit.
#[verifier::ext_equal]
pub ghost struct HitView {
    /// The stored content bytes.
    pub content: Seq<u8>,
    /// The full fingerprint stored beside the content.
    pub hash: Seq<u8>,
    /// The MIME type stored beside the content.
    pub mime: Seq<u8>,
}

impl View for DownloadHit {
    type V = HitView;

    open spec fn view(&self) -> HitView {
        HitView {
            content: self.content@,
            hash: self.metadata.hash@,
            mime: self.metadata.mime@,
        }
    }
}

/// The reported statistics.
#[derive(Debug)]
pub struct Stats {
    /// The best-effort count of unique uploads.
    pub upload_count: u64,
    /// The configured identifier length.
    pub id_length: usize,
    /// The configured origin time-to-live in seconds.
    pub origin_ttl: u64,
    /// The configured cache time-to-live in seconds.
    pub cache_ttl: u64,
}

/// The contents of an optional owned byte vector.
pub open spec fn opt_vec_bytes(o: Option<Vec<u8>>) -> Option<Seq<u8>> {
    match o {
        Some(v) => Some(v@),
        None => None,
    }
}

/// The bytes of the `file_` namespace prefix of content keys.
pub open spec fn file_key_prefix() -> Seq<u8> {
    seq![102u8, 105, 108, 101, 95]
}

/// The origin key of a content entry: the identifier under the `file_`
/// namespace, kept apart from the counter record.
pub open spec fn content_key_spec(id: Seq<u8>) -> Seq<u8> {
    file_key_prefix() + id
}

/// The bytes of `_upload_metrics`, the well-known counter key.
pub open spec fn counter_key_spec() -> Seq<u8> {
    seq![95u8, 117, 112, 108, 111, 97, 100, 95, 109, 101, 116, 114, 105, 99, 115]
}

/// A content key never collides with the counter key.
pub proof fn lemma_content_key_not_counter(id: Seq<u8>)
    ensures
        content_key_spec(id) != counter_key_spec(),
{
    assert(content_key_spec(id)[0] == 102u8);
    assert(counter_key_spec()[0] == 95u8);
}

/// The bytes of the sentinel health-check payload allowed below the
/// minimum size.
pub open spec fn sentinel() -> Seq<u8> {
    seq![116u8, 101, 115, 116, 105, 110, 103, 10]
}

/// The bytes of `undefined`, the counter label of an unnamed upload.
pub open spec fn undefined_label() -> Seq<u8> {
    seq![117u8, 110, 100, 101, 102, 105, 110, 101, 100]
}

/// The counter label: the upload's file name, or `undefined`.
pub open spec fn label_of(filename: Option<Seq<u8>>) -> Seq<u8> {
    match filename {
        Some(f) => f,
        None => undefined_label(),
    }
}

/// The identifier of content under a configuration: the configured
/// prefix of the configured text encoding of its fingerprint.
pub open spec fn identifier_spec(cfg: Config, body: Seq<u8>) -> Seq<u8> {
    identifier_of_hash(cfg.encoding, blake3_of(body), cfg.id_len as int)
}

/// The bytes of `https://`.
pub open spec fn https_prefix() -> Seq<u8> {
    seq![104u8, 116, 116, 112, 115, 58, 47, 47]
}

/// The bytes of `/p/`.
pub open spec fn paste_path() -> Seq<u8> {
    seq![47u8, 112, 47]
}

/// The bytes of `#integrity=blake3-`.
pub open spec fn integrity_tag() -> Seq<u8> {
    seq![35u8, 105, 110, 116, 101, 103, 114, 105, 116, 121, 61, 98, 108, 97, 107, 101, 51, 45]
}

/// The public download URL: scheme, host, paste path, identifier, and
/// the cosmetic file name if one was given.
pub open spec fn url_spec(host: Seq<u8>, id: Seq<u8>, filename: Option<Seq<u8>>) -> Seq<u8> {
    https_prefix() + host + paste_path() + id + match filename {
        Some(f) => seq![47u8] + f,
        None => Seq::<u8>::empty(),
    }
}

/// The download URL carrying the full fingerprint, base-64 encoded, as
/// an integrity fragment.
pub open spec fn origin_url_spec(host: Seq<u8>, id: Seq<u8>, hash: Seq<u8>) -> Seq<u8> {
    https_prefix() + host + paste_path() + id + integrity_tag() + base64_of(hash)
}

/// The bytes of ` , `, the counter record separator.
pub open spec fn record_sep() -> Seq<u8> {
    seq![32u8, 44, 32]
}

/// One counter record: timestamp, identifier and label, newline
/// terminated.
pub open spec fn record_spec(ts: u64, id: Seq<u8>, label: Seq<u8>) -> Seq<u8> {
    dec_of(ts as nat) + record_sep() + id + record_sep() + label + seq![10u8]
}

/// Whether a body passes the configured size bounds: at least the
/// minimum (or exactly the sentinel payload) and at most the maximum.
pub open spec fn size_ok(cfg: Config, b: Seq<u8>) -> bool {
    &&& b.len() >= cfg.min_size || b == sentinel()
    &&& b.len() <= cfg.max_size
}

/// The receipt a successful upload of this content must hand back.
pub open spec fn receipt_spec(
    cfg: Config,
    host: Seq<u8>,
    body: Seq<u8>,
    filename: Option<Seq<u8>>,
) -> ReceiptView {
    let id = identifier_spec(cfg, body);
    ReceiptView {
        identifier: id,
        url: url_spec(host, id, filename),
        origin_url: origin_url_spec(host, id, blake3_of(body)),
    }
}

/// The upload count a store reports: the cached count if it parses,
/// else the number of record lines, else zero.
pub open spec fn upload_count_of(m: Map<Seq<u8>, EntryModel>, now: u64) -> u64 {
    if contains_live(m, counter_key_spec(), now) {
        match dec_parse(m[counter_key_spec()].metadata) {
            Some(n) => n,
            None => if line_count(m[counter_key_spec()].content) > u64::MAX {
                u64::MAX
            } else {
                line_count(m[counter_key_spec()].content) as u64
            },
        }
    } else {
        0
    }
}

/// The incremented count, saturating at the cap.
pub open spec fn next_count(c: u64) -> u64 {
    if c >= COUNT_CAP {
        COUNT_CAP
    } else {
        (c + 1) as u64
    }
}

/// What tracking one upload leaves in the store: a record appended to
/// the counter log and the incremented count cached as its metadata.
pub open spec fn counter_append_tr(
    m: Map<Seq<u8>, EntryModel>,
    now: u64,
    id: Seq<u8>,
    filename: Option<Seq<u8>>,
) -> Map<Seq<u8>, EntryModel> {
    append_tr(
        m,
        counter_key_spec(),
        record_spec(now, id, label_of(filename)),
        dec_of(next_count(upload_count_of(m, now)) as nat),
    )
}

/// The model of the whole system: configuration, clock, and the two
/// tiers.
#[verifier::ext_equal]
pub ghost struct SysView {
    /// The deployment configuration.
    pub config: Config,
    /// The logical clock, in seconds.
    pub now: u64,
    /// The durable origin tier.
    pub origin: Map<Seq<u8>, EntryModel>,
    /// The regional cache tier.
    pub cache: Map<Seq<u8>, EntryModel>,
}

/// A content entry is sound: it sits under the key its own content
/// addresses, and its metadata parses back to the content's fingerprint.
pub open spec fn content_entry_ok(cfg: Config, k: Seq<u8>, e: EntryModel) -> bool {
    &&& k == content_key_spec(identifier_spec(cfg, e.content))
    &&& match meta_parse_spec(e.metadata) {
        Some(p) => p.0 == blake3_of(e.content),
        None => false,
    }
}

/// Well-formedness of a system: a valid configuration, sound content
/// entries in the origin beside the counter log, a counter log that
/// never expires, and only sound content entries in the cache.
pub open spec fn view_wf(s: SysView) -> bool {
    &&& s.config.wf()
    &&& forall|k: Seq<u8>|
        #[trigger] s.origin.contains_key(k) ==> (k == counter_key_spec() || content_entry_ok(
            s.config,
            k,
            s.origin[k],
        ))
    &&& s.origin.contains_key(counter_key_spec()) ==> s.origin[counter_key_spec()].expiry is None
    &&& forall|k: Seq<u8>|
        #[trigger] s.cache.contains_key(k) ==> (k != counter_key_spec() && content_entry_ok(
            s.config,
            k,
            s.cache[k],
        ))
}

/// What an upload does to the system, and what it returns. A missing,
/// undersized or oversized body is rejected unchanged; content whose
/// key is already live is deduplicated, touching nothing; new content
/// is written to the origin with its metadata and the configured
/// time-to-live, and one counter record is appended.
pub open spec fn upload_tr(
    s: SysView,
    body: Option<Seq<u8>>,
    filename: Option<Seq<u8>>,
    host: Seq<u8>,
) -> (SysView, Result<ReceiptView, ValidationError>) {
    match body {
        None => (s, Err(ValidationError::MissingBody)),
        Some(b) => {
            if b.len() < s.config.min_size && b != sentinel() {
                (s, Err(ValidationError::TooSmall))
            } else if b.len() > s.config.max_size {
                (s, Err(ValidationError::TooLarge))
            } else {
                let id = identifier_spec(s.config, b);
                let key = content_key_spec(id);
                let receipt = receipt_spec(s.config, host, b, filename);
                if contains_live(s.origin, key, s.now) {
                    (s, Ok(receipt))
                } else {
                    let meta = meta_encode_spec(blake3_of(b), detected_mime(b, filename));
                    let origin1 = s.origin.insert(
                        key,
                        EntryModel {
                            content: b,
                            metadata: meta,
                            expiry: expiry_at(s.now, Some(s.config.origin_ttl)),
                        },
                    );
                    let origin2 = counter_append_tr(origin1, s.now, id, filename);
                    (SysView { origin: origin2, ..s }, Ok(receipt))
                }
            }
        },
    }
}

/// What a download does to the system, and what it returns. An
/// identifier of the wrong length is not found without a store lookup;
/// a cache hit answers at once, refreshing the cache entry where the
/// policy says so; a cache miss falls back to the origin, populates the
/// cache, and extends the origin entry where the policy says so; an
/// entry whose metadata does not parse is corrupt and nothing changes.
pub open spec fn download_tr(s: SysView, id: Seq<u8>) -> (
    SysView,
    Result<HitView, DownloadError>,
) {
    if id.len() != s.config.id_len {
        (s, Err(DownloadError::NotFound))
    } else {
        let key = content_key_spec(id);
        if contains_live(s.cache, key, s.now) {
            let e = s.cache[key];
            match meta_parse_spec(e.metadata) {
                None => (s, Err(DownloadError::MetadataCorrupt)),
                Some(p) => {
                    let cache2 = if s.config.cache_policy == RetentionPolicy::ReadRefresh {
                        touch_tr(s.cache, key, s.config.cache_ttl, s.now)
                    } else {
                        s.cache
                    };
                    (
                        SysView { cache: cache2, ..s },
                        Ok(HitView { content: e.content, hash: p.0, mime: p.1 }),
                    )
                },
            }
        } else if contains_live(s.origin, key, s.now) {
            let e = s.origin[key];
            match meta_parse_spec(e.metadata) {
                None => (s, Err(DownloadError::MetadataCorrupt)),
                Some(p) => {
                    let cache2 = s.cache.insert(
                        key,
                        EntryModel {
                            content: e.content,
                            metadata: e.metadata,
                            expiry: expiry_at(s.now, Some(s.config.cache_ttl)),
                        },
                    );
                    let origin2 = if s.config.origin_policy == RetentionPolicy::ReadRefresh {
                        touch_tr(s.origin, key, s.config.origin_ttl, s.now)
                    } else {
                        s.origin
                    };
                    (
                        SysView { cache: cache2, origin: origin2, ..s },
                        Ok(HitView { content: e.content, hash: p.0, mime: p.1 }),
                    )
                },
            }
        } else {
            (s, Err(DownloadError::NotFound))
        }
    }
}

/// The model of an upload result.
pub open spec fn upload_result_view(r: Result<UploadReceipt, ValidationError>) -> Result<
    ReceiptView,
    ValidationError,
> {
    match r {
        Ok(x) => Ok(x@),
        Err(e) => Err(e),
    }
}

/// The model of a download result.
pub open spec fn download_result_view(r: Result<DownloadHit, DownloadError>) -> Result<
    HitView,
    DownloadError,
> {
    match r {
        Ok(x) => Ok(x@),
        Err(e) => Err(e),
    }
}

/// Builds the origin key of an identifier.
pub fn content_key(id: &Vec<u8>) -> (r: Vec<u8>)
    ensures
        r@ == content_key_spec(id@),
{
    let p: [u8; 5] = [102, 105, 108, 101, 95];
    let mut r: Vec<u8> = Vec::new();
    push_all(&mut r, p.as_slice());
    push_all(&mut r, id.as_slice());
    proof {
        assert(r@ =~= content_key_spec(id@));
    }
    r
}

/// Builds the well-known counter key.
pub fn counter_key() -> (r: Vec<u8>)
    ensures
        r@ == counter_key_spec(),
{
    let p: [u8; 15] = [95, 117, 112, 108, 111, 97, 100, 95, 109, 101, 116, 114, 105, 99, 115];
    let mut r: Vec<u8> = Vec::new();
    push_all(&mut r, p.as_slice());
    proof {
        assert(r@ =~= counter_key_spec());
    }
    r
}

/// Whether a body is the sentinel health-check payload.
pub fn is_sentinel(b: &Vec<u8>) -> (r: bool)
    ensures
        r == (b@ == sentinel()),
{
    let p: [u8; 8] = [116, 101, 115, 116, 105, 110, 103, 10];
    proof {
        assert(p@ =~= sentinel());
    }
    crate::bytevec::bytes_eq(b.as_slice(), p.as_slice())
}

/// Builds the public download URL.
pub fn build_url(host: &Vec<u8>, id: &Vec<u8>, filename: Option<&Vec<u8>>) -> (r: Vec<u8>)
    ensures
        r@ == url_spec(host@, id@, opt_bytes(filename)),
{
    let scheme: [u8; 8] = [104, 116, 116, 112, 115, 58, 47, 47];
    let path: [u8; 3] = [47, 112, 47];
    let mut r: Vec<u8> = Vec::new();
    push_all(&mut r, scheme.as_slice());
    push_all(&mut r, host.as_slice());
    push_all(&mut r, path.as_slice());
    push_all(&mut r, id.as_slice());
    if let Some(f) = filename {
        r.push(47);
        push_all(&mut r, f.as_slice());
    }
    proof {
        assert(r@ =~= url_spec(host@, id@, opt_bytes(filename)));
    }
    r
}

/// Builds the download URL with the integrity fragment.
pub fn build_origin_url(host: &Vec<u8>, id: &Vec<u8>, hash: &[u8; 32]) -> (r: Vec<u8>)
    ensures
        r@ == origin_url_spec(host@, id@, hash@),
{
    let scheme: [u8; 8] = [104, 116, 116, 112, 115, 58, 47, 47];
    let path: [u8; 3] = [47, 112, 47];
    let tag: [u8; 18] = [
        35, 105, 110, 116, 101, 103, 114, 105, 116, 121, 61, 98, 108, 97, 107, 101, 51, 45,
    ];
    let mut r: Vec<u8> = Vec::new();
    push_all(&mut r, scheme.as_slice());
    push_all(&mut r, host.as_slice());
    push_all(&mut r, path.as_slice());
    push_all(&mut r, id.as_slice());
    push_all(&mut r, tag.as_slice());
    let b64 = base64_encode(&hash_to_vec(hash));
    push_all(&mut r, b64.as_slice());
    proof {
        assert(r@ =~= origin_url_spec(host@, id@, hash@));
    }
    r
}

/// Builds one counter record.
pub fn format_record(ts: u64, id: &Vec<u8>, label: &Vec<u8>) -> (r: Vec<u8>)
    ensures
        r@ == record_spec(ts, id@, label@),
{
    let sep: [u8; 3] = [32, 44, 32];
    let mut r = format_u64(ts);
    push_all(&mut r, sep.as_slice());
    push_all(&mut r, id.as_slice());
    push_all(&mut r, sep.as_slice());
    push_all(&mut r, label.as_slice());
    r.push(10);
    proof {
        assert(r@ =~= record_spec(ts, id@, label@));
    }
    r
}

/// Checks a body against the configured size bounds, exactly as an
/// upload does: too small unless it is the sentinel payload, then too
/// large, else accepted.
pub fn validate_body(config: &Config, body: &Vec<u8>) -> (r: Result<(), ValidationError>)
    ensures
        r == if body@.len() < config.min_size && body@ != sentinel() {
            Err::<(), ValidationError>(ValidationError::TooSmall)
        } else if body@.len() > config.max_size {
            Err::<(), ValidationError>(ValidationError::TooLarge)
        } else {
            Ok::<(), ValidationError>(())
        },
{
    if body.len() < config.min_size && !is_sentinel(body) {
        Err(ValidationError::TooSmall)
    } else if body.len() > config.max_size {
        Err(ValidationError::TooLarge)
    } else {
        Ok(())
    }
}

/// The count a counter entry reports: its cached metadata where that
/// parses, else the number of its record lines.
pub fn count_from_entry(metadata: Option<&Vec<u8>>, body: &Vec<u8>) -> (r: u64)
    ensures
        r == match opt_bytes(metadata) {
            Some(m) => match dec_parse(m) {
                Some(n) => n,
                None => line_count(body@) as u64,
            },
            None => line_count(body@) as u64,
        },
{
    if let Some(m) = metadata {
        if let Some(n) = parse_u64(m) {
            return n;
        }
    }
    count_lines(body)
}

/// The incremented count, saturating at the cap so that its decimal
/// text always parses back.
pub fn next_count_value(c: u64) -> (r: u64)
    ensures
        r == next_count(c),
{
    if c >= COUNT_CAP {
        COUNT_CAP
    } else {
        c + 1
    }
}

/// Reads the upload count: the cached count from the counter key's
/// metadata, else the number of record lines, else zero.
pub fn get_upload_count(origin: &TtlStore, now: u64) -> (r: u64)
    requires
        origin.wf(),
    ensures
        r == upload_count_of(origin@, now),
{
    let key = counter_key();
    match origin.lookup(&key, now) {
        None => 0,
        Some(e) => {
            match parse_u64(&e.metadata) {
                Some(n) => n,
                None => count_lines(&e.content),
            }
        },
    }
}

/// Appends one record to the counter log and caches the incremented
/// count, saturating at the cap, as its metadata.
fn track_upload(origin: &mut TtlStore, now: u64, id: &Vec<u8>, filename: Option<&Vec<u8>>)
    requires
        old(origin).wf(),
    ensures
        final(origin).wf(),
        final(origin)@ == counter_append_tr(old(origin)@, now, id@, opt_bytes(filename)),
{
    let c = get_upload_count(origin, now);
    let n = if c >= COUNT_CAP {
        COUNT_CAP
    } else {
        c + 1
    };
    let label: Vec<u8> = match filename {
        Some(f) => slice_to_vec(f.as_slice()),
        None => {
            let u: [u8; 9] = [117, 110, 100, 101, 102, 105, 110, 101, 100];
            let mut v: Vec<u8> = Vec::new();
            push_all(&mut v, u.as_slice());
            proof {
                assert(v@ =~= undefined_label());
            }
            v
        },
    };
    let record = format_record(now, id, &label);
    let key = counter_key();
    let meta = format_u64(n);
    origin.append(&key, &record, meta, now);
}

/// The whole system: configuration, logical clock, and the two tiers.
pub struct PasteSystem {
    config: Config,
    now: u64,
    origin: TtlStore,
    cache: TtlStore,
}

impl View for PasteSystem {
    type V = SysView;

    closed spec fn view(&self) -> SysView {
        SysView { config: self.config, now: self.now, origin: self.origin@, cache: self.cache@ }
    }
}

impl PasteSystem {
    /// Both tiers hold each key at most once and the view is sound.
    pub closed spec fn wf(&self) -> bool {
        &&& self.origin.wf()
        &&& self.cache.wf()
        &&& view_wf(self@)
    }

    /// A fresh system: both tiers empty, the clock at zero.
    pub fn new(config: Config) -> (s: Self)
        requires
            config.wf(),
        ensures
            s.wf(),
            s@ == (SysView {
                config,
                now: 0,
                origin: Map::<Seq<u8>, EntryModel>::empty(),
                cache: Map::<Seq<u8>, EntryModel>::empty(),
            }),
    {
        PasteSystem { config, now: 0, origin: TtlStore::new(), cache: TtlStore::new() }
    }

    /// Moves the logical clock forward.
    pub fn advance_clock(&mut self, dt: u64)
        requires
            old(self).wf(),
            old(self)@.now + dt <= u64::MAX,
        ensures
            final(self).wf(),
            final(self)@ == (SysView { now: (old(self)@.now + dt) as u64, ..old(self)@ }),
    {
        self.now = self.now + dt;
    }

    /// Uploads a body: validates its size, fingerprints it, deduplicates
    /// against the origin, writes content, metadata and one counter
    /// record on a miss, and returns the public URL either way.
    pub fn upload(
        &mut self,
        body: Option<Vec<u8>>,
        filename: Option<&Vec<u8>>,
        host: &Vec<u8>,
    ) -> (r: Result<UploadReceipt, ValidationError>)
        requires
            old(self).wf(),
        ensures
            final(self).wf(),
            ({
                let (s2, r2) = upload_tr(
                    old(self)@,
                    opt_vec_bytes(body),
                    opt_bytes(filename),
                    host@,
                );
                final(self)@ == s2 && upload_result_view(r) == r2
            }),
            r matches Ok(receipt) ==> receipt@.identifier.len() == old(self)@.config.id_len
                && (forall|i: int|
                0 <= i < receipt@.identifier.len() ==> crate::digest::is_id_byte(
                    old(self)@.config.encoding,
                    #[trigger] receipt@.identifier[i],
                )),
    {
        let body = match body {
            None => {
                return Err(ValidationError::MissingBody);
            },
            Some(b) => b,
        };
        if body.len() < self.config.min_size && !is_sentinel(&body) {
            return Err(ValidationError::TooSmall);
        }
        if body.len() > self.config.max_size {
            return Err(ValidationError::TooLarge);
        }
        let hash = fingerprint(&body);
        let id = shorten(&hash, self.config.encoding, self.config.id_len);
        let key = content_key(&id);
        let url = build_url(host, &id, filename);
        let origin_url = build_origin_url(host, &id, &hash);
        if self.origin.contains(&key, self.now) {
            return Ok(UploadReceipt { identifier: id, url, origin_url });
        }
        let mime = detect_mime(&body, filename);
        let meta = FileMetadata::new(hash, mime);
        let meta_bytes = encode_metadata(&meta);
        let ghost pre = self@;
        let ghost b_snap = body@;
        self.origin.insert(key, body, meta_bytes, Some(self.config.origin_ttl), self.now);
        track_upload(&mut self.origin, self.now, &id, filename);
        proof {
            let (s2, r2) = upload_tr(pre, Some(b_snap), opt_bytes(filename), host@);
            assert(final(self)@ =~~= s2);
            lemma_upload_tr_wf(pre, Some(b_snap), opt_bytes(filename), host@);
        }
        Ok(UploadReceipt { identifier: id, url, origin_url })
    }

    /// Downloads by identifier: a wrong-length identifier is not found
    /// at once; a cache hit answers directly; a cache miss falls back to
    /// the origin, populates the cache, and refreshes time-to-live where
    /// the policy says so.
    pub fn download(&mut self, identifier: &Vec<u8>) -> (r: Result<DownloadHit, DownloadError>)
        requires
            old(self).wf(),
        ensures
            final(self).wf(),
            ({
                let (s2, r2) = download_tr(old(self)@, identifier@);
                final(self)@ == s2 && download_result_view(r) == r2
            }),
    {
        if identifier.len() != self.config.id_len {
            return Err(DownloadError::NotFound);
        }
        let key = content_key(identifier);
        let cached: Option<(Vec<u8>, Vec<u8>)> = match self.cache.lookup(&key, self.now) {
            Some(e) => Some(
                (slice_to_vec(e.content.as_slice()), slice_to_vec(e.metadata.as_slice())),
            ),
            None => None,
        };
        if let Some((content, meta_bytes)) = cached {
            let meta = match parse_metadata(&meta_bytes) {
                None => {
                    return Err(DownloadError::MetadataCorrupt);
                },
                Some(m) => m,
            };
            if self.config.cache_policy == RetentionPolicy::ReadRefresh {
                self.cache.touch(&key, self.config.cache_ttl, self.now);
            }
            proof {
                let (s2, r2) = download_tr(old(self)@, identifier@);
                assert(final(self)@ =~~= s2);
            }
            return Ok(DownloadHit { content, metadata: meta });
        }
        let from_origin: Option<(Vec<u8>, Vec<u8>)> = match self.origin.lookup(&key, self.now) {
            Some(e) => Some(
                (slice_to_vec(e.content.as_slice()), slice_to_vec(e.metadata.as_slice())),
            ),
            None => None,
        };
        match from_origin {
            None => Err(DownloadError::NotFound),
            Some((content, meta_bytes)) => {
                let meta = match parse_metadata(&meta_bytes) {
                    None => {
                        return Err(DownloadError::MetadataCorrupt);
                    },
                    Some(m) => m,
                };
                let ghost pre = self@;
                self.cache.insert(
                    slice_to_vec(key.as_slice()),
                    slice_to_vec(content.as_slice()),
                    slice_to_vec(meta_bytes.as_slice()),
                    Some(self.config.cache_ttl),
                    self.now,
                );
                if self.config.origin_policy == RetentionPolicy::ReadRefresh {
                    self.origin.touch(&key, self.config.origin_ttl, self.now);
                }
                proof {
                    let (s2, r2) = download_tr(pre, identifier@);
                    assert(final(self)@ =~~= s2);
                    lemma_download_tr_wf(pre, identifier@);
                }
                Ok(DownloadHit { content, metadata: meta })
            },
        }
    }

    /// Reports the upload count and the configured shape of the store.
    pub fn stats(&self) -> (r: Stats)
        requires
            self.wf(),
        ensures
            r.upload_count == upload_count_of(self@.origin, self@.now),
            r.id_length == self@.config.id_len,
            r.origin_ttl == self@.config.origin_ttl,
            r.cache_ttl == self@.config.cache_ttl,
    {
        Stats {
            upload_count: get_upload_count(&self.origin, self.now),
            id_length: self.config.id_len,
            origin_ttl: self.config.origin_ttl,
            cache_ttl: self.config.cache_ttl,
        }
    }
}

/// An upload preserves well-formedness: whatever it writes is a sound
/// content entry or the counter log.
pub proof fn lemma_upload_tr_wf(
    s: SysView,
    body: Option<Seq<u8>>,
    filename: Option<Seq<u8>>,
    host: Seq<u8>,
)
    requires
        view_wf(s),
        body is Some ==> blake3_of(body->0).len() == 32,
    ensures
        view_wf(upload_tr(s, body, filename, host).0),
{
    if body is Some {
        let b = body->0;
        let s2 = upload_tr(s, body, filename, host).0;
        if !(b.len() < s.config.min_size && b != sentinel()) && b.len() <= s.config.max_size {
            let id = identifier_spec(s.config, b);
            let key = content_key_spec(id);
            if !contains_live(s.origin, key, s.now) {
                let meta = meta_encode_spec(blake3_of(b), detected_mime(b, filename));
                crate::metadata::lemma_meta_round_trip(blake3_of(b), detected_mime(b, filename));
                lemma_content_key_not_counter(id);
                assert(content_entry_ok(
                    s.config,
                    key,
                    EntryModel {
                        content: b,
                        metadata: meta,
                        expiry: expiry_at(s.now, Some(s.config.origin_ttl)),
                    },
                ));
                assert(view_wf(s2));
            }
        }
    }
}

/// A download preserves well-formedness: the cache is only ever
/// populated with a sound origin entry, and a touch changes no content.
pub proof fn lemma_download_tr_wf(s: SysView, id: Seq<u8>)
    requires
        view_wf(s),
    ensures
        view_wf(download_tr(s, id).0),
{
    let s2 = download_tr(s, id).0;
    if id.len() == s.config.id_len {
        let key = content_key_spec(id);
        if contains_live(s.cache, key, s.now) {
            assert(view_wf(s2));
        } else if contains_live(s.origin, key, s.now) {
            let e = s.origin[key];
            lemma_content_key_not_counter(identifier_spec(s.config, e.content));
            assert(view_wf(s2));
        }
    }
}

} // verus!
