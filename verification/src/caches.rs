//! Cache lifecycle: both caches are created once, at attachment time, with
//! one configured capacity, and live for the lifetime of the serving
//! process.

use vstd::prelude::*;
use crate::entity_tag::TagModel;
use crate::key_etag_cache::KeyEtagCache;
use crate::file_etag_cache::{FileEtagCache, FileEntryModel};

verus! {

/// The entry capacity both caches get when none is configured.
pub const DEFAULT_CACHE_CAPACITY: usize = 64;

/// The capacity a configuration asks for: the configured value, or the
/// default when none is given.
pub open spec fn configured_capacity(cache_capacity: Option<usize>) -> usize {
    match cache_capacity {
        Some(c) => c,
        None => DEFAULT_CACHE_CAPACITY,
    }
}

/// The two caches of one serving process, created together with one
/// capacity.
pub struct EtagCaches {
    pub key_cache: KeyEtagCache,
    pub file_cache: FileEtagCache,
}

impl EtagCaches {
    /// Create both caches, empty, bounded to the configured capacity — or
    /// to the default capacity when none is configured.
    pub fn new(cache_capacity: Option<usize>) -> (r: EtagCaches)
        ensures
            r.key_cache@ == Seq::<(Seq<char>, TagModel)>::empty(),
            r.file_cache@ == Seq::<(Seq<char>, FileEntryModel)>::empty(),
            r.key_cache.cap() == configured_capacity(cache_capacity),
            r.file_cache.cap() == configured_capacity(cache_capacity),
            r.key_cache.wf(),
            r.file_cache.wf(),
    {
        let capacity = match cache_capacity {
            Some(c) => c,
            None => DEFAULT_CACHE_CAPACITY,
        };
        EtagCaches { key_cache: KeyEtagCache::new(capacity), file_cache: FileEtagCache::new(capacity) }
    }
}

} // verus!
