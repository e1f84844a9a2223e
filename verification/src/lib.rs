//! Entity-tag caching for conditional-GET support.
//!
//! A content fingerprint ("entity tag") is a CRC-64/ECMA-182 checksum of a
//! piece of content, rendered as uppercase hexadecimal and marked weak. Two
//! bounded caches memoize these fingerprints: one keyed by opaque logical
//! keys for in-memory buffers, one keyed by filesystem paths with staleness
//! detection through modification-time tracking. Both sit on a verified
//! bounded map with least-recently-used eviction.

pub mod entity_tag;
pub mod fingerprint;
pub mod lru;
pub mod key_etag_cache;
pub mod file_etag_cache;
pub mod caches;

pub use entity_tag::EntityTag;
pub use fingerprint::compute_data_etag;
pub use key_etag_cache::KeyEtagCache;
pub use file_etag_cache::FileEtagCache;
