//! The lifecycle's laws, proved over the transition functions that the
//! executable operations are specified against.

use vstd::prelude::*;
use crate::digest::blake3_of;
use crate::lifecycle::{
    SysView, content_key_spec, counter_key_spec, identifier_spec, lemma_content_key_not_counter,
    size_ok, upload_tr, download_tr, upload_count_of, view_wf, receipt_spec,
};
use crate::numcode::{COUNT_CAP, lemma_dec_round_trip};
use crate::store::contains_live;

verus! {

proof fn lemma_concat_cancel_left(a: Seq<u8>, b: Seq<u8>, c: Seq<u8>)
    requires
        a + b == a + c,
    ensures
        b == c,
{
    assert((a + b).len() == a.len() + b.len());
    assert((a + c).len() == a.len() + c.len());
    assert(b.len() == c.len());
    assert forall|i: int| 0 <= i < b.len() implies b[i] == c[i] by {
        assert(0 <= i < c.len());
        assert((a + b)[a.len() + i] == b[i]);
        assert((a + c)[a.len() + i] == c[i]);
    }
    assert(b =~= c);
}

/// Distinct identifiers address distinct content keys.
pub proof fn lemma_content_key_injective(id1: Seq<u8>, id2: Seq<u8>)
    requires
        content_key_spec(id1) == content_key_spec(id2),
    ensures
        id1 == id2,
{
    lemma_concat_cancel_left(crate::lifecycle::file_key_prefix(), id1, id2);
}

/// Dedup idempotence: uploading the same bytes twice yields the same
/// receipt both times, and the second upload changes nothing — neither
/// the stores nor the upload count.
pub proof fn lemma_dedup_idempotent(
    s: SysView,
    body: Seq<u8>,
    filename: Option<Seq<u8>>,
    host: Seq<u8>,
)
    requires
        view_wf(s),
        blake3_of(body).len() == 32,
        s.config.origin_ttl > 0,
        s.now < u64::MAX,
    ensures
        ({
            let (s1, r1) = upload_tr(s, Some(body), filename, host);
            let (s2, r2) = upload_tr(s1, Some(body), filename, host);
            &&& s2 == s1
            &&& r2 == r1
            &&& upload_count_of(s2.origin, s2.now) == upload_count_of(s1.origin, s1.now)
        }),
{
    let (s1, r1) = upload_tr(s, Some(body), filename, host);
    let (s2, r2) = upload_tr(s1, Some(body), filename, host);
    if size_ok(s.config, body) {
        let id = identifier_spec(s.config, body);
        let key = content_key_spec(id);
        if !contains_live(s.origin, key, s.now) {
            lemma_content_key_not_counter(id);
            assert(s1.origin.contains_key(key));
            assert(s1.origin[key].expiry == crate::store::expiry_at(
                s.now,
                Some(s.config.origin_ttl),
            ));
            assert(contains_live(s1.origin, key, s1.now));
            assert(s2 == s1);
        }
    }
}

/// Round trip: downloading the identifier that an upload within the
/// size bounds returned yields the uploaded bytes and their full
/// fingerprint, whether the upload wrote fresh content or deduplicated
/// against an entry holding the same bytes.
pub proof fn lemma_round_trip(s: SysView, body: Seq<u8>, filename: Option<Seq<u8>>, host: Seq<u8>)
    requires
        view_wf(s),
        blake3_of(body).len() == 32,
        size_ok(s.config, body),
        identifier_spec(s.config, body).len() == s.config.id_len,
        s.config.origin_ttl > 0,
        s.config.cache_ttl > 0,
        s.now < u64::MAX,
        contains_live(s.origin, content_key_spec(identifier_spec(s.config, body)), s.now)
            ==> s.origin[content_key_spec(identifier_spec(s.config, body))].content == body,
        contains_live(s.cache, content_key_spec(identifier_spec(s.config, body)), s.now)
            ==> s.cache[content_key_spec(identifier_spec(s.config, body))].content == body,
    ensures
        ({
            let (s1, r1) = upload_tr(s, Some(body), filename, host);
            let (s2, r2) = download_tr(s1, identifier_spec(s.config, body));
            &&& r1 == Ok::<_, crate::lifecycle::ValidationError>(
                receipt_spec(s.config, host, body, filename),
            )
            &&& r2 matches Ok(h) && h.content == body && h.hash == blake3_of(body)
        }),
{
    let id = identifier_spec(s.config, body);
    let key = content_key_spec(id);
    let (s1, r1) = upload_tr(s, Some(body), filename, host);
    let (s2, r2) = download_tr(s1, id);
    lemma_content_key_not_counter(id);
    if contains_live(s.origin, key, s.now) {
        assert(s1 == s);
        if contains_live(s1.cache, key, s1.now) {
            assert(s.cache[key].content == body);
        } else {
            assert(s.origin[key].content == body);
        }
    } else {
        crate::metadata::lemma_meta_round_trip(
            blake3_of(body),
            crate::mimetype::detected_mime(body, filename),
        );
        assert(s1.origin.contains_key(key));
        assert(contains_live(s1.origin, key, s1.now));
        assert(s1.cache == s.cache);
        if contains_live(s1.cache, key, s1.now) {
            assert(s.cache[key].content == body);
        } else {
            assert(s1.origin[key].content == body);
        }
    }
}

/// One fresh upload raises the reported count by exactly one, as long
/// as the count has not reached its cap.
pub proof fn lemma_counter_increment(
    s: SysView,
    body: Seq<u8>,
    filename: Option<Seq<u8>>,
    host: Seq<u8>,
)
    requires
        view_wf(s),
        blake3_of(body).len() == 32,
        size_ok(s.config, body),
        !contains_live(s.origin, content_key_spec(identifier_spec(s.config, body)), s.now),
        upload_count_of(s.origin, s.now) < COUNT_CAP,
    ensures
        ({
            let (s1, r1) = upload_tr(s, Some(body), filename, host);
            upload_count_of(s1.origin, s1.now) == upload_count_of(s.origin, s.now) + 1
        }),
{
    let id = identifier_spec(s.config, body);
    let key = content_key_spec(id);
    let (s1, r1) = upload_tr(s, Some(body), filename, host);
    lemma_content_key_not_counter(id);
    let c = upload_count_of(s.origin, s.now);
    let origin1 = s.origin.insert(
        key,
        crate::store::EntryModel {
            content: body,
            metadata: crate::metadata::meta_encode_spec(
                blake3_of(body),
                crate::mimetype::detected_mime(body, filename),
            ),
            expiry: crate::store::expiry_at(s.now, Some(s.config.origin_ttl)),
        },
    );
    assert(upload_count_of(origin1, s.now) == c);
    lemma_dec_round_trip((c + 1) as nat);
    assert(s1.origin.contains_key(counter_key_spec()));
    assert(s1.origin[counter_key_spec()].metadata == crate::numcode::dec_of((c + 1) as nat));
    assert(contains_live(s1.origin, counter_key_spec(), s1.now)) by {
        if origin1.contains_key(counter_key_spec()) {
            assert(s1.origin[counter_key_spec()].expiry == origin1[counter_key_spec()].expiry);
            assert(origin1[counter_key_spec()].expiry is None);
        } else {
            assert(s1.origin[counter_key_spec()].expiry is None);
        }
    }
}

/// The system states met while uploading each body of a sequence in
/// turn, unnamed and against one host.
pub open spec fn upload_all_tr(s: SysView, bodies: Seq<Seq<u8>>, host: Seq<u8>) -> SysView
    decreases bodies.len(),
{
    if bodies.len() == 0 {
        s
    } else {
        upload_all_tr(upload_tr(s, Some(bodies[0]), None, host).0, bodies.drop_first(), host)
    }
}

/// Counter monotonicity: uploading a sequence of bodies within the size
/// bounds, whose identifiers are pairwise distinct and none of which is
/// already stored, raises the reported count by exactly the number of
/// bodies. (Distinct bodies whose truncated identifiers collide
/// deduplicate by design and are excluded here.)
pub proof fn lemma_counter_monotonic(s: SysView, bodies: Seq<Seq<u8>>, host: Seq<u8>)
    requires
        view_wf(s),
        forall|i: int| 0 <= i < bodies.len() ==> blake3_of(#[trigger] bodies[i]).len() == 32,
        forall|i: int| 0 <= i < bodies.len() ==> size_ok(s.config, #[trigger] bodies[i]),
        forall|i: int, j: int|
            0 <= i < j < bodies.len() ==> identifier_spec(s.config, #[trigger] bodies[i])
                != identifier_spec(s.config, #[trigger] bodies[j]),
        forall|i: int|
            0 <= i < bodies.len() ==> !contains_live(
                s.origin,
                content_key_spec(identifier_spec(s.config, #[trigger] bodies[i])),
                s.now,
            ),
        upload_count_of(s.origin, s.now) + bodies.len() <= COUNT_CAP,
    ensures
        ({
            let s_end = upload_all_tr(s, bodies, host);
            &&& upload_count_of(s_end.origin, s_end.now) == upload_count_of(s.origin, s.now)
                + bodies.len()
            &&& view_wf(s_end)
            &&& s_end.config == s.config
            &&& s_end.now == s.now
        }),
    decreases bodies.len(),
{
    if bodies.len() > 0 {
        let b0 = bodies[0];
        let id0 = identifier_spec(s.config, b0);
        let key0 = content_key_spec(id0);
        let (s1, r1) = upload_tr(s, Some(b0), None, host);
        lemma_counter_increment(s, b0, None, host);
        crate::lifecycle::lemma_upload_tr_wf(s, Some(b0), None, host);
        lemma_content_key_not_counter(id0);
        let rest = bodies.drop_first();
        assert forall|i: int|
            0 <= i < rest.len() implies !contains_live(
            s1.origin,
            content_key_spec(identifier_spec(s1.config, #[trigger] rest[i])),
            s1.now,
        ) by {
            let idi = identifier_spec(s.config, rest[i]);
            let keyi = content_key_spec(idi);
            assert(rest[i] == bodies[i + 1]);
            assert(idi != id0);
            if keyi == key0 {
                lemma_content_key_injective(idi, id0);
            }
            lemma_content_key_not_counter(idi);
            if s1.origin.contains_key(keyi) {
                assert(s1.origin[keyi] == s.origin[keyi]);
            }
        }
        assert forall|i: int, j: int|
            0 <= i < j < rest.len() implies identifier_spec(s1.config, #[trigger] rest[i])
            != identifier_spec(s1.config, #[trigger] rest[j]) by {
            assert(rest[i] == bodies[i + 1]);
            assert(rest[j] == bodies[j + 1]);
        }
        assert forall|i: int| 0 <= i < rest.len() implies size_ok(s1.config, #[trigger] rest[i])
            && blake3_of(#[trigger] rest[i]).len() == 32 by {
            assert(rest[i] == bodies[i + 1]);
        }
        lemma_counter_monotonic(s1, rest, host);
        assert(upload_all_tr(s, bodies, host) == upload_all_tr(s1, rest, host));
    }
}

/// Cache/origin fallback: a download that misses the cache but hits the
/// origin returns the stored bytes and populates the cache, and a
/// second download of the same identifier is answered from the cache,
/// with the same bytes and without touching the origin.
pub proof fn lemma_cache_origin_fallback(s: SysView, id: Seq<u8>)
    requires
        view_wf(s),
        id.len() == s.config.id_len,
        !contains_live(s.cache, content_key_spec(id), s.now),
        contains_live(s.origin, content_key_spec(id), s.now),
        s.config.cache_ttl > 0,
        s.now < u64::MAX,
    ensures
        ({
            let key = content_key_spec(id);
            let (s1, r1) = download_tr(s, id);
            let (s2, r2) = download_tr(s1, id);
            &&& r1 matches Ok(h1) && h1.content == s.origin[key].content
            &&& contains_live(s1.cache, key, s1.now)
            &&& r2 matches Ok(h2) && h2.content == s.origin[key].content
            &&& s2.origin == s1.origin
        }),
{
    let key = content_key_spec(id);
    let (s1, r1) = download_tr(s, id);
    let (s2, r2) = download_tr(s1, id);
    let e = s.origin[key];
    assert(s.origin.contains_key(key));
    assert(crate::lifecycle::content_entry_ok(s.config, key, e)) by {
        lemma_content_key_not_counter(identifier_spec(s.config, e.content));
    }
    assert(contains_live(s1.cache, key, s1.now));
    assert(s1.cache[key].content == e.content);
    assert(s1.cache[key].metadata == e.metadata);
}

} // verus!
