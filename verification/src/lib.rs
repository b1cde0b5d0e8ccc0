//! Core of a content-addressed ephemeral paste store.
//!
//! Uploaded bytes are fingerprinted with a cryptographic hash; a short
//! prefix of a text encoding of that hash becomes the public identifier.
//! Entries live in a durable origin store and a faster edge cache, both
//! with per-key time-to-live, and a best-effort upload counter is kept as
//! an append-only log under a well-known key of the origin store.

pub mod config;
pub mod hexcode;
pub mod numcode;
pub mod digest;
pub mod bytevec;
pub mod mimetype;
pub mod metadata;
pub mod store;
pub mod lifecycle;
pub mod laws;
