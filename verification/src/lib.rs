//! A caching resolver for public-key-addressed signed DNS record sets.
//!
//! The library covers the BEP44 mutable-item envelope (canonical signable
//! encoding, relay wire format, signing and verification), the signed-packet
//! data model with monotonic versioning and TTL-based expiry, a cache with a
//! monotonic overwrite guard, a per-source rate limiter, and the resolver
//! logic that ties them together.

use vstd::prelude::*;

pub mod bep44;
pub mod byteseq;
pub mod cache;
pub mod dht_server;
pub mod errors;
pub mod keys;
pub mod rate_limiting;
pub mod signed_packet;

verus! {

/// Default minimum TTL: 30 seconds.
pub const DEFAULT_MINIMUM_TTL: u32 = 30;

/// Default maximum TTL: 24 hours.
pub const DEFAULT_MAXIMUM_TTL: u32 = 86400;

} // verus!
