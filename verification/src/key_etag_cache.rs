//! The key-keyed tag cache: fingerprints of in-memory buffers, memoized
//! under caller-chosen logical keys.
//!
//! The cache never second-guesses a key's freshness: the caller must choose
//! a key that uniquely identifies one version of one buffer. On a hit the
//! data handed in is trusted unread.

use vstd::prelude::*;
use std::sync::Arc;
use crate::entity_tag::{EntityTag, TagModel, clone_tag_handle};
use crate::fingerprint::{compute_data_etag, tag_model_of};
use crate::lru::{
    LruMap, lru_contains, lru_value, lru_promote, lru_insert, lru_wf, lemma_promote_properties,
    lemma_insert_properties,
};

verus! {

/// What one `get_or_insert` call does to the cache model: a present key is
/// served from the cache (its recency refreshed, the data unread); an
/// absent key has the data fingerprinted and the result inserted.
pub open spec fn kc_step(s: Seq<(Seq<char>, TagModel)>, cap: nat, k: Seq<char>, d: Seq<u8>) -> (
    Seq<(Seq<char>, TagModel)>,
    TagModel,
) {
    if lru_contains(s, k) {
        (lru_promote(s, k), lru_value(s, k))
    } else {
        (lru_insert(s, cap, k, tag_model_of(d)), tag_model_of(d))
    }
}

/// A bounded cache from logical keys to fingerprints of in-memory buffers.
/// Its model is the association sequence of keys and tag models in recency
/// order, least recently accessed first.
pub struct KeyEtagCache {
    table: LruMap<Arc<EntityTag>>,
}

impl View for KeyEtagCache {
    type V = Seq<(Seq<char>, TagModel)>;

    closed spec fn view(&self) -> Seq<(Seq<char>, TagModel)> {
        self.table@
    }
}

impl KeyEtagCache {
    /// The maximum entry count, fixed at construction.
    pub closed spec fn cap(&self) -> nat {
        self.table.cap()
    }

    /// The cache's invariant.
    pub open spec fn wf(&self) -> bool {
        lru_wf(self@, self.cap())
    }

    /// Create an empty cache bounded to `cache_capacity` entries. Capacity
    /// zero is legal and degenerates to always recomputing, never
    /// retaining.
    pub fn new(cache_capacity: usize) -> (r: KeyEtagCache)
        ensures
            r@ == Seq::<(Seq<char>, TagModel)>::empty(),
            r.cap() == cache_capacity,
            r.wf(),
    {
        KeyEtagCache { table: LruMap::with_capacity(cache_capacity) }
    }

    /// Evict every entry immediately.
    pub fn clear_cache(&mut self)
        ensures
            final(self)@ == Seq::<(Seq<char>, TagModel)>::empty(),
            final(self).cap() == old(self).cap(),
            final(self).wf(),
    {
        self.table.clear()
    }

    /// Whether an entry for the key exists. A lookup counts as an access,
    /// so a present key's recency is refreshed.
    pub fn contains_key(&mut self, key: &str) -> (r: bool)
        requires
            old(self).wf(),
        ensures
            r == lru_contains(old(self)@, key@),
            final(self)@ == lru_promote(old(self)@, key@),
            final(self).cap() == old(self).cap(),
            final(self).wf(),
    {
        self.table.touch(key)
    }

    /// Store an already computed tag under the key — the insertion half of
    /// a lookup, compute, insert sequence whose computation runs outside
    /// any lock — and hand back a shared handle to the stored tag.
    /// Inserting evicts per the recency policy at capacity.
    pub fn store_tag(&mut self, key: &str, tag: EntityTag) -> (r: Arc<EntityTag>)
        requires
            old(self).wf(),
        ensures
            r@ == tag@,
            final(self)@ == lru_insert(old(self)@, old(self).cap(), key@, tag@),
            final(self).cap() == old(self).cap(),
            final(self).wf(),
    {
        let handle = Arc::new(tag);
        let r = clone_tag_handle(&handle);
        self.table.insert(key.to_owned(), handle);
        r
    }

    /// Return the cached tag if the key is present — never recomputing for
    /// a key the cache already holds, whatever `data` is passed on a hit —
    /// and otherwise fingerprint `data`, insert the result under the key
    /// (evicting per the recency policy at capacity), and return it.
    pub fn get_or_insert(&mut self, key: &str, data: &[u8]) -> (r: Arc<EntityTag>)
        requires
            old(self).wf(),
        ensures
            final(self)@ == kc_step(old(self)@, old(self).cap(), key@, data@).0,
            r@ == kc_step(old(self)@, old(self).cap(), key@, data@).1,
            final(self).cap() == old(self).cap(),
            final(self).wf(),
    {
        let cached = match self.table.peek(key) {
            Some(v) => Some(clone_tag_handle(v)),
            None => None,
        };
        match cached {
            Some(tag) => {
                self.table.touch(key);
                tag
            },
            None => {
                let etag = Arc::new(compute_data_etag(data));
                self.table.insert(key.to_owned(), clone_tag_handle(&etag));
                etag
            },
        }
    }
}

/// The cache trusts the key, not the data: on a cache with room to retain
/// (a nonzero capacity), two consecutive lookups of one key return the
/// same tag, even when the second call presents different data.
pub proof fn lemma_cache_trusts_key(
    s: Seq<(Seq<char>, TagModel)>,
    cap: nat,
    k: Seq<char>,
    d1: Seq<u8>,
    d2: Seq<u8>,
)
    requires
        lru_wf(s, cap),
        cap > 0,
    ensures
        ({
            let (s1, t1) = kc_step(s, cap, k, d1);
            let (s2, t2) = kc_step(s1, cap, k, d2);
            t2 == t1
        }),
{
    let (s1, t1) = kc_step(s, cap, k, d1);
    if lru_contains(s, k) {
        lemma_promote_properties(s, cap, k);
    } else {
        lemma_insert_properties(s, cap, k, tag_model_of(d1));
    }
}

/// With capacity zero nothing ever persists: every call recomputes — it
/// returns the fingerprint of exactly the data it was handed — and the
/// cache stays empty.
pub proof fn lemma_capacity_zero_always_recomputes(
    s: Seq<(Seq<char>, TagModel)>,
    k: Seq<char>,
    d: Seq<u8>,
)
    requires
        lru_wf(s, 0),
    ensures
        kc_step(s, 0, k, d).1 == tag_model_of(d),
        kc_step(s, 0, k, d).0 == Seq::<(Seq<char>, TagModel)>::empty(),
{
    assert(!lru_contains(s, k));
    assert(kc_step(s, 0, k, d).0 =~= Seq::<(Seq<char>, TagModel)>::empty());
}

} // verus!
