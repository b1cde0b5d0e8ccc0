//! A key/value tier with per-key time-to-live and small attached
//! metadata. Both the durable origin store and the regional edge cache
//! are modelled by this store; its view is a map from key bytes to entry
//! models, and liveness is judged against a caller-supplied clock.

use vstd::prelude::*;
use crate::bytevec::{bytes_eq, push_all};
use vstd::slice::slice_to_vec;

verus! {

/// The mathematical model of one stored entry.
#[verifier::ext_equal]
pub ghost struct EntryModel {
    /// The stored content bytes.
    pub content: Seq<u8>,
    /// The framed metadata bytes stored beside the content.
    pub metadata: Seq<u8>,
    /// Absolute expiry time, or `None` for an entry that never expires.
    pub expiry: Option<u64>,
}

/// One stored entry: content, framed metadata, and an optional absolute
/// expiry time.
pub struct StoredEntry {
    /// The stored content bytes.
    pub content: Vec<u8>,
    /// The framed metadata bytes stored beside the content.
    pub metadata: Vec<u8>,
    /// Absolute expiry time, or `None` for an entry that never expires.
    pub expiry: Option<u64>,
}

impl View for StoredEntry {
    type V = EntryModel;

    open spec fn view(&self) -> EntryModel {
        EntryModel { content: self.content@, metadata: self.metadata@, expiry: self.expiry }
    }
}

/// Whether an entry is still live at time `now`.
pub open spec fn live_at(e: EntryModel, now: u64) -> bool {
    match e.expiry {
        None => true,
        Some(t) => now < t,
    }
}

/// Whether a store holds a live entry under a key at time `now`.
pub open spec fn contains_live(m: Map<Seq<u8>, EntryModel>, k: Seq<u8>, now: u64) -> bool {
    m.contains_key(k) && live_at(m[k], now)
}

/// The absolute expiry of a write made at `now` with the given
/// time-to-live, saturating at the end of time.
pub open spec fn expiry_at(now: u64, ttl: Option<u64>) -> Option<u64> {
    match ttl {
        None => None,
        Some(t) => Some(
            if now + t > u64::MAX {
                u64::MAX
            } else {
                (now + t) as u64
            },
        ),
    }
}

/// What `touch` leaves behind: the entry under the key gets a fresh
/// expiry if it is live, and nothing else changes.
pub open spec fn touch_tr(
    m: Map<Seq<u8>, EntryModel>,
    k: Seq<u8>,
    ttl: u64,
    now: u64,
) -> Map<Seq<u8>, EntryModel> {
    if contains_live(m, k, now) {
        m.insert(
            k,
            EntryModel {
                content: m[k].content,
                metadata: m[k].metadata,
                expiry: expiry_at(now, Some(ttl)),
            },
        )
    } else {
        m
    }
}

/// What `append` leaves behind: data is appended to the entry's content
/// and the metadata replaced; an absent key is created without expiry.
pub open spec fn append_tr(
    m: Map<Seq<u8>, EntryModel>,
    k: Seq<u8>,
    data: Seq<u8>,
    meta: Seq<u8>,
) -> Map<Seq<u8>, EntryModel> {
    if m.contains_key(k) {
        m.insert(
            k,
            EntryModel { content: m[k].content + data, metadata: meta, expiry: m[k].expiry },
        )
    } else {
        m.insert(k, EntryModel { content: data, metadata: meta, expiry: None })
    }
}

/// The map an association list denotes; a later pair overrides an
/// earlier one with the same key.
pub open spec fn assoc_map(s: Seq<(Vec<u8>, StoredEntry)>) -> Map<Seq<u8>, EntryModel>
    decreases s.len(),
{
    if s.len() == 0 {
        Map::empty()
    } else {
        assoc_map(s.drop_last()).insert(s.last().0@, s.last().1@)
    }
}

/// Whether the association list holds each key at most once.
pub open spec fn keys_uniq(s: Seq<(Vec<u8>, StoredEntry)>) -> bool {
    forall|i: int, j: int| 0 <= i < j < s.len() ==> (#[trigger] s[i]).0@ != (#[trigger] s[j]).0@
}

proof fn lemma_assoc_contains(s: Seq<(Vec<u8>, StoredEntry)>, k: Seq<u8>)
    ensures
        assoc_map(s).contains_key(k) <==> (exists|i: int|
            0 <= i < s.len() && (#[trigger] s[i]).0@ == k),
    decreases s.len(),
{
    if s.len() > 0 {
        lemma_assoc_contains(s.drop_last(), k);
        if s.last().0@ == k {
            assert((s[s.len() - 1]).0@ == k);
        } else {
            if assoc_map(s).contains_key(k) {
                let i = choose|i: int|
                    0 <= i < s.drop_last().len() && (#[trigger] s.drop_last()[i]).0@ == k;
                assert((s[i]).0@ == k);
            }
            if exists|i: int| 0 <= i < s.len() && (#[trigger] s[i]).0@ == k {
                let i = choose|i: int| 0 <= i < s.len() && (#[trigger] s[i]).0@ == k;
                assert(i < s.len() - 1);
                assert((s.drop_last()[i]).0@ == k);
            }
        }
    }
}

proof fn lemma_assoc_absent(s: Seq<(Vec<u8>, StoredEntry)>, k: Seq<u8>)
    requires
        forall|j: int| 0 <= j < s.len() ==> (#[trigger] s[j]).0@ != k,
    ensures
        !assoc_map(s).contains_key(k),
{
    lemma_assoc_contains(s, k);
}

proof fn lemma_assoc_index(s: Seq<(Vec<u8>, StoredEntry)>, i: int)
    requires
        keys_uniq(s),
        0 <= i < s.len(),
    ensures
        assoc_map(s).contains_key((s[i]).0@),
        assoc_map(s)[(s[i]).0@] == (s[i]).1@,
    decreases s.len(),
{
    if i == s.len() - 1 {
    } else {
        assert(keys_uniq(s.drop_last())) by {
            assert(forall|p: int, q: int|
                0 <= p < q < s.drop_last().len() ==> (#[trigger] s.drop_last()[p]).0@ != (
                #[trigger] s.drop_last()[q]).0@) by {
                assert(forall|p: int|
                    0 <= p < s.drop_last().len() ==> (#[trigger] s.drop_last()[p]) == s[p]);
            }
        }
        lemma_assoc_index(s.drop_last(), i);
        assert((s.drop_last()[i]) == s[i]);
        assert(s.last().0@ != (s[i]).0@);
    }
}

proof fn lemma_uniq_drop_last(s: Seq<(Vec<u8>, StoredEntry)>)
    requires
        keys_uniq(s),
        s.len() > 0,
    ensures
        keys_uniq(s.drop_last()),
{
    assert(forall|p: int| 0 <= p < s.drop_last().len() ==> (#[trigger] s.drop_last()[p]) == s[p]);
}

proof fn lemma_assoc_remove(s: Seq<(Vec<u8>, StoredEntry)>, i: int)
    requires
        keys_uniq(s),
        0 <= i < s.len(),
    ensures
        assoc_map(s.remove(i)) == assoc_map(s).remove((s[i]).0@),
        keys_uniq(s.remove(i)),
        forall|j: int| 0 <= j < s.remove(i).len() ==> (#[trigger] s.remove(i)[j]).0@ != (s[i]).0@,
    decreases s.len(),
{
    let k = (s[i]).0@;
    assert(forall|j: int|
        0 <= j < s.remove(i).len() ==> (#[trigger] s.remove(i)[j]) == if j < i {
            s[j]
        } else {
            s[j + 1]
        });
    assert(keys_uniq(s.remove(i)));
    if i == s.len() - 1 {
        assert(s.remove(i) =~= s.drop_last());
        lemma_uniq_drop_last(s);
        assert(forall|j: int| 0 <= j < s.drop_last().len() ==> (#[trigger] s.drop_last()[j]).0@ != k);
        lemma_assoc_absent(s.drop_last(), k);
        assert(assoc_map(s).remove(k) =~= assoc_map(s.drop_last()));
    } else {
        lemma_uniq_drop_last(s);
        lemma_assoc_remove(s.drop_last(), i);
        assert(s.remove(i).drop_last() =~= s.drop_last().remove(i));
        assert(s.remove(i).last() == s.last());
        assert(s.remove(i).len() > 0);
        assert(assoc_map(s.remove(i)) == assoc_map(s.drop_last().remove(i)).insert(
            s.last().0@,
            s.last().1@,
        ));
        assert(s.last().0@ != k);
        assert(assoc_map(s.drop_last()).remove(k).insert(s.last().0@, s.last().1@)
            =~= assoc_map(s.drop_last()).insert(s.last().0@, s.last().1@).remove(k));
    }
}

/// The in-memory model of one storage tier.
pub struct TtlStore {
    entries: Vec<(Vec<u8>, StoredEntry)>,
}

impl View for TtlStore {
    type V = Map<Seq<u8>, EntryModel>;

    closed spec fn view(&self) -> Map<Seq<u8>, EntryModel> {
        assoc_map(self.entries@)
    }
}

impl TtlStore {
    /// Each key is held at most once.
    pub closed spec fn wf(&self) -> bool {
        keys_uniq(self.entries@)
    }

    /// An empty tier.
    pub fn new() -> (s: Self)
        ensures
            s@ == Map::<Seq<u8>, EntryModel>::empty(),
            s.wf(),
    {
        TtlStore { entries: Vec::new() }
    }

    fn find(&self, key: &Vec<u8>) -> (r: Option<usize>)
        ensures
            match r {
                Some(i) => i < self.entries@.len() && (self.entries@[i as int]).0@ == key@,
                None => forall|j: int|
                    0 <= j < self.entries@.len() ==> (#[trigger] self.entries@[j]).0@ != key@,
            },
    {
        let mut i: usize = 0;
        while i < self.entries.len()
            invariant
                i <= self.entries@.len(),
                forall|j: int| 0 <= j < i ==> (#[trigger] self.entries@[j]).0@ != key@,
            decreases self.entries@.len() - i,
        {
            if bytes_eq(self.entries[i].0.as_slice(), key.as_slice()) {
                return Some(i);
            }
            i = i + 1;
        }
        None
    }

    /// Reads the live entry under an exact key, or nothing: an expired
    /// or absent entry is not found, never partial data.
    pub fn lookup(&self, key: &Vec<u8>, now: u64) -> (r: Option<&StoredEntry>)
        requires
            self.wf(),
        ensures
            match r {
                Some(e) => contains_live(self@, key@, now) && e@ == self@[key@],
                None => !contains_live(self@, key@, now),
            },
    {
        match self.find(key) {
            None => {
                proof {
                    lemma_assoc_absent(self.entries@, key@);
                }
                None
            },
            Some(i) => {
                proof {
                    lemma_assoc_index(self.entries@, i as int);
                }
                let e = &self.entries[i].1;
                match e.expiry {
                    None => Some(e),
                    Some(t) => {
                        if now < t {
                            Some(e)
                        } else {
                            None
                        }
                    },
                }
            },
        }
    }

    /// Whether a live entry sits under the key.
    pub fn contains(&self, key: &Vec<u8>, now: u64) -> (r: bool)
        requires
            self.wf(),
        ensures
            r == contains_live(self@, key@, now),
    {
        self.lookup(key, now).is_some()
    }

    /// Writes an entry under a key, with its expiry `ttl` from `now`; an
    /// entry already under the key is replaced.
    pub fn insert(&mut self, key: Vec<u8>, content: Vec<u8>, metadata: Vec<u8>, ttl: Option<u64>, now: u64)
        requires
            old(self).wf(),
        ensures
            final(self).wf(),
            final(self)@ == old(self)@.insert(
                key@,
                EntryModel { content: content@, metadata: metadata@, expiry: expiry_at(now, ttl) },
            ),
    {
        let expiry = match ttl {
            None => None,
            Some(t) => Some(
                if t > u64::MAX - now {
                    u64::MAX
                } else {
                    now + t
                },
            ),
        };
        let entry = StoredEntry { content, metadata, expiry };
        match self.find(&key) {
            Some(i) => {
                proof {
                    lemma_assoc_remove(self.entries@, i as int);
                }
                let ghost pre = self.entries@;
                let _ = self.entries.remove(i);
                let ghost mid = self.entries@;
                self.entries.push((key, entry));
                proof {
                    assert(self.entries@.drop_last() =~= mid);
                    assert(final(self)@ =~= old(self)@.insert(key@, entry@));
                }
            },
            None => {
                let ghost pre = self.entries@;
                self.entries.push((key, entry));
                proof {
                    assert(self.entries@.drop_last() =~= pre);
                }
            },
        }
    }

    /// Extends a live entry's expiry to `ttl` from `now` without touching
    /// its content or metadata; an absent or expired entry is unchanged.
    pub fn touch(&mut self, key: &Vec<u8>, ttl: u64, now: u64)
        requires
            old(self).wf(),
        ensures
            final(self).wf(),
            final(self)@ == touch_tr(old(self)@, key@, ttl, now),
    {
        match self.find(key) {
            None => {
                proof {
                    lemma_assoc_absent(self.entries@, key@);
                }
            },
            Some(i) => {
                proof {
                    lemma_assoc_index(self.entries@, i as int);
                    lemma_assoc_remove(self.entries@, i as int);
                }
                let live = match self.entries[i].1.expiry {
                    None => true,
                    Some(t) => now < t,
                };
                if live {
                    let ghost pre = self.entries@;
                    let (k0, mut e0) = self.entries.remove(i);
                    e0.expiry = Some(
                        if ttl > u64::MAX - now {
                            u64::MAX
                        } else {
                            now + ttl
                        },
                    );
                    let ghost mid = self.entries@;
                    self.entries.push((k0, e0));
                    proof {
                        assert(self.entries@.drop_last() =~= mid);
                        assert(final(self)@ =~= touch_tr(old(self)@, key@, ttl, now));
                    }
                }
            },
        }
    }

    /// Appends data to the entry under a key and replaces its metadata;
    /// an absent key is created, without expiry.
    pub fn append(&mut self, key: &Vec<u8>, data: &Vec<u8>, metadata: Vec<u8>, now: u64)
        requires
            old(self).wf(),
        ensures
            final(self).wf(),
            final(self)@ == append_tr(old(self)@, key@, data@, metadata@),
    {
        match self.find(key) {
            Some(i) => {
                proof {
                    lemma_assoc_index(self.entries@, i as int);
                    lemma_assoc_remove(self.entries@, i as int);
                }
                let (k0, mut e0) = self.entries.remove(i);
                push_all(&mut e0.content, data.as_slice());
                e0.metadata = metadata;
                let ghost mid = self.entries@;
                self.entries.push((k0, e0));
                proof {
                    assert(self.entries@.drop_last() =~= mid);
                    assert(final(self)@ =~= append_tr(old(self)@, key@, data@, metadata@));
                }
            },
            None => {
                proof {
                    lemma_assoc_absent(self.entries@, key@);
                }
                let ghost pre = self.entries@;
                let entry = StoredEntry {
                    content: slice_to_vec(data.as_slice()),
                    metadata,
                    expiry: None,
                };
                self.entries.push((slice_to_vec(key.as_slice()), entry));
                proof {
                    assert(self.entries@.drop_last() =~= pre);
                    assert(final(self)@ =~= append_tr(old(self)@, key@, data@, metadata@));
                }
            },
        }
    }
}

} // verus!
