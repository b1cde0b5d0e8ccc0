//! Deployment configuration: identifier shape, content bounds, and the
//! per-tier retention policies.

use vstd::prelude::*;

verus! {

/// Text encoding used for the public identifier.
#[derive(Clone, Copy, PartialEq, Eq, Structural, Debug)]
pub enum IdEncoding {
    /// Plain lowercase hexadecimal.
    Hex,
    /// Base-58 with the alphabet that avoids easily confused characters.
    Base58,
}

/// Per-tier retention policy.
#[derive(Clone, Copy, PartialEq, Eq, Structural, Debug)]
pub enum RetentionPolicy {
    /// The time-to-live is set once, when the entry is written.
    FixedTtl,
    /// A successful read extends the entry's time-to-live.
    ReadRefresh,
}

/// Identifier length of the reference deployment.
pub const DEFAULT_ID_LEN: usize = 8;
/// Minimum accepted content size in bytes.
pub const DEFAULT_MIN_SIZE: usize = 32;
/// Maximum accepted content size in bytes: 24 MiB.
pub const DEFAULT_MAX_SIZE: usize = 24 * 1024 * 1024;
/// Origin store time-to-live in seconds: 14 days.
pub const DEFAULT_ORIGIN_TTL: u64 = 14 * 86400;
/// Edge cache time-to-live in seconds: 90 days.
pub const DEFAULT_CACHE_TTL: u64 = 90 * 86400;

/// A deployment's configuration. A well-formed configuration keeps the
/// identifier short enough that every encoding of the 32-byte fingerprint
/// has at least `id_len` symbols to take a prefix from.
pub struct Config {
    /// Fixed length of every public identifier.
    pub id_len: usize,
    /// Smallest accepted content size in bytes.
    pub min_size: usize,
    /// Largest accepted content size in bytes.
    pub max_size: usize,
    /// Seconds an origin entry lives after a write.
    pub origin_ttl: u64,
    /// Seconds a cache entry lives after it is populated.
    pub cache_ttl: u64,
    /// Encoding of the identifier.
    pub encoding: IdEncoding,
    /// Whether a read extends the origin entry's time-to-live.
    pub origin_policy: RetentionPolicy,
    /// Whether a cache hit refreshes the cache entry's time-to-live.
    pub cache_policy: RetentionPolicy,
}

impl Config {
    /// Both encodings of a 32-byte fingerprint yield at least 32 symbols,
    /// so any identifier length up to 32 can be cut from them.
    pub open spec fn wf(&self) -> bool {
        &&& 1 <= self.id_len <= 32
        &&& self.min_size <= self.max_size
    }

    /// The configuration of the reference deployment: 8-symbol base-58
    /// identifiers, 32-byte to 24-MiB content, fixed time-to-live on both
    /// tiers.
    pub fn standard() -> (c: Config)
        ensures
            c.id_len == DEFAULT_ID_LEN,
            c.min_size == DEFAULT_MIN_SIZE,
            c.max_size == DEFAULT_MAX_SIZE,
            c.origin_ttl == DEFAULT_ORIGIN_TTL,
            c.cache_ttl == DEFAULT_CACHE_TTL,
            c.encoding == IdEncoding::Base58,
            c.origin_policy == RetentionPolicy::FixedTtl,
            c.cache_policy == RetentionPolicy::FixedTtl,
            c.wf(),
    {
        Config {
            id_len: DEFAULT_ID_LEN,
            min_size: DEFAULT_MIN_SIZE,
            max_size: DEFAULT_MAX_SIZE,
            origin_ttl: DEFAULT_ORIGIN_TTL,
            cache_ttl: DEFAULT_CACHE_TTL,
            encoding: IdEncoding::Base58,
            origin_policy: RetentionPolicy::FixedTtl,
            cache_policy: RetentionPolicy::FixedTtl,
        }
    }
}

} // verus!
