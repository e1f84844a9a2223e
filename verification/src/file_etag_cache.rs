//! The path-keyed tag cache: fingerprints of file contents, memoized under
//! filesystem paths with staleness detection through modification-time
//! tracking.
//!
//! The cache itself never touches the filesystem. A caller probes the
//! filesystem for a path's current modification time, hands the probe to
//! [`FileEtagCache::get_or_insert`], and acts on the returned step: serve
//! the still-valid cached tag, or read and fingerprint the content and
//! store the new tag with [`FileEtagCache::store_tag`], or fail the call.
//! The modification time is only ever used to *skip* checksum work; the
//! checksum of the content is the source of truth.

use vstd::prelude::*;
use std::sync::Arc;
use crate::entity_tag::{EntityTag, TagModel, clone_tag_handle};
use crate::lru::{
    LruMap, lru_contains, lru_value, lru_promote, lru_insert, lru_wf, lemma_insert_properties,
};

verus! {

/// A filesystem modification time: whole seconds and nanoseconds since the
/// platform epoch. Compared for exact equality only — there is no
/// tolerance window.
#[derive(Clone, Copy, PartialEq, Eq, Structural, Debug)]
pub struct ModTime {
    pub secs: u64,
    pub nanos: u32,
}

/// What probing the filesystem for a path's current modification time
/// yielded.
#[derive(Clone, Copy, PartialEq, Eq, Structural, Debug)]
pub enum CurrentMtime {
    /// Metadata was read and reports this modification time.
    Reported(ModTime),
    /// Metadata was read but reports no modification time.
    Unavailable,
    /// Metadata could not be read at all.
    MetadataError,
}

/// One cached entry for a path: the tag, and the modification time the
/// file had when the tag was computed — `None` when the filesystem did not
/// report one.
pub struct FileEntry {
    tag: Arc<EntityTag>,
    mtime: Option<ModTime>,
}

/// Mathematical model of a cached entry.
pub struct FileEntryModel {
    pub tag: TagModel,
    pub mtime: Option<ModTime>,
}

impl View for FileEntry {
    type V = FileEntryModel;

    closed spec fn view(&self) -> FileEntryModel {
        FileEntryModel { tag: self.tag@, mtime: self.mtime }
    }
}

/// What a staleness-aware lookup asks its caller to do.
pub enum CacheStep {
    /// The cached tag is still valid: serve it without touching content.
    Hit(Arc<EntityTag>),
    /// The content must be read and fingerprinted; store the new tag
    /// together with this modification time.
    Recompute(Option<ModTime>),
    /// Metadata could not be read for a path with no entry: the call
    /// fails, and nothing is cached.
    Fail,
}

/// Mathematical model of a lookup's outcome.
pub enum StepModel {
    Hit(TagModel),
    Recompute(Option<ModTime>),
    Fail,
}

/// The model of a concrete step.
pub open spec fn step_model(r: CacheStep) -> StepModel {
    match r {
        CacheStep::Hit(tag) => StepModel::Hit(tag@),
        CacheStep::Recompute(mtime) => StepModel::Recompute(mtime),
        CacheStep::Fail => StepModel::Fail,
    }
}

/// The staleness decision. For a path with no entry, the probe decides:
/// a reported time is recorded, an unavailable one is recorded as `None`,
/// and a metadata-read failure is fatal. For a path with an entry, the
/// cached tag is served exactly when a stored time and a reported time
/// match; any mismatch, a missing stored time, or a failure to learn the
/// current time is absorbed into recomputation.
pub open spec fn fc_decision(
    s: Seq<(Seq<char>, FileEntryModel)>,
    k: Seq<char>,
    probe: CurrentMtime,
) -> StepModel {
    if !lru_contains(s, k) {
        match probe {
            CurrentMtime::Reported(t) => StepModel::Recompute(Some(t)),
            CurrentMtime::Unavailable => StepModel::Recompute(None),
            CurrentMtime::MetadataError => StepModel::Fail,
        }
    } else {
        let e = lru_value(s, k);
        match e.mtime {
            Some(t0) => match probe {
                CurrentMtime::Reported(t1) => if t1 == t0 {
                    StepModel::Hit(e.tag)
                } else {
                    StepModel::Recompute(Some(t1))
                },
                _ => StepModel::Recompute(None),
            },
            None => match probe {
                CurrentMtime::Reported(t1) => StepModel::Recompute(Some(t1)),
                _ => StepModel::Recompute(None),
            },
        }
    }
}

/// A bounded cache from filesystem paths to fingerprints of file contents,
/// each with the file's last-known modification time. Its model is the
/// association sequence of paths and entry models in recency order, least
/// recently accessed first.
pub struct FileEtagCache {
    table: LruMap<FileEntry>,
}

impl View for FileEtagCache {
    type V = Seq<(Seq<char>, FileEntryModel)>;

    closed spec fn view(&self) -> Seq<(Seq<char>, FileEntryModel)> {
        self.table@
    }
}

impl FileEtagCache {
    /// The maximum entry count, fixed at construction.
    pub closed spec fn cap(&self) -> nat {
        self.table.cap()
    }

    /// The cache's invariant.
    pub open spec fn wf(&self) -> bool {
        lru_wf(self@, self.cap())
    }

    /// Create an empty cache bounded to `cache_capacity` entries. Capacity
    /// zero is legal and degenerates to always recomputing, never
    /// retaining.
    pub fn new(cache_capacity: usize) -> (r: FileEtagCache)
        ensures
            r@ == Seq::<(Seq<char>, FileEntryModel)>::empty(),
            r.cap() == cache_capacity,
            r.wf(),
    {
        FileEtagCache { table: LruMap::with_capacity(cache_capacity) }
    }

    /// Evict every entry immediately.
    pub fn clear_cache(&mut self)
        ensures
            final(self)@ == Seq::<(Seq<char>, FileEntryModel)>::empty(),
            final(self).cap() == old(self).cap(),
            final(self).wf(),
    {
        self.table.clear()
    }

    /// Whether an entry for the path exists. A lookup counts as an access,
    /// so a present path's recency is refreshed.
    pub fn contains_key(&mut self, path: &str) -> (r: bool)
        requires
            old(self).wf(),
        ensures
            r == lru_contains(old(self)@, path@),
            final(self)@ == lru_promote(old(self)@, path@),
            final(self).cap() == old(self).cap(),
            final(self).wf(),
    {
        self.table.touch(path)
    }

    /// The staleness-aware lookup: given the path's current modification
    /// time as probed by the caller, either serve the cached tag (the fast
    /// path — content is never touched), or ask the caller to read and
    /// fingerprint the content and then call [`Self::store_tag`], or fail
    /// (metadata unreadable for an uncached path). A present path's
    /// recency is refreshed.
    pub fn get_or_insert(&mut self, path: &str, current: CurrentMtime) -> (r: CacheStep)
        requires
            old(self).wf(),
        ensures
            step_model(r) == fc_decision(old(self)@, path@, current),
            final(self)@ == lru_promote(old(self)@, path@),
            final(self).cap() == old(self).cap(),
            final(self).wf(),
    {
        let cached = match self.table.peek(path) {
            Some(entry) => Some((clone_tag_handle(&entry.tag), entry.mtime)),
            None => None,
        };
        match cached {
            None => {
                match current {
                    CurrentMtime::Reported(t) => CacheStep::Recompute(Some(t)),
                    CurrentMtime::Unavailable => CacheStep::Recompute(None),
                    CurrentMtime::MetadataError => CacheStep::Fail,
                }
            },
            Some((tag, stored)) => {
                self.table.touch(path);
                match stored {
                    Some(t0) => match current {
                        CurrentMtime::Reported(t1) => {
                            if t1 == t0 {
                                CacheStep::Hit(tag)
                            } else {
                                CacheStep::Recompute(Some(t1))
                            }
                        },
                        _ => CacheStep::Recompute(None),
                    },
                    None => match current {
                        CurrentMtime::Reported(t1) => CacheStep::Recompute(Some(t1)),
                        _ => CacheStep::Recompute(None),
                    },
                }
            },
        }
    }

    /// Store a freshly computed tag for the path together with the
    /// modification time that was read before the content, and hand back a
    /// shared handle to the stored tag. Inserting evicts per the recency
    /// policy at capacity.
    pub fn store_tag(&mut self, path: &str, tag: EntityTag, mtime: Option<ModTime>) -> (r: Arc<
        EntityTag,
    >)
        requires
            old(self).wf(),
        ensures
            r@ == tag@,
            final(self)@ == lru_insert(
                old(self)@,
                old(self).cap(),
                path@,
                (FileEntryModel { tag: tag@, mtime }),
            ),
            final(self).cap() == old(self).cap(),
            final(self).wf(),
    {
        let handle = Arc::new(tag);
        let r = clone_tag_handle(&handle);
        self.table.insert(path.to_owned(), FileEntry { tag: handle, mtime });
        r
    }
}

/// The fast path: while a file's current modification time matches the one
/// stored with its entry, the cached tag is served and the content is not
/// read again.
pub proof fn lemma_fresh_mtime_serves_cached(
    s: Seq<(Seq<char>, FileEntryModel)>,
    k: Seq<char>,
    t: ModTime,
)
    requires
        lru_contains(s, k),
        lru_value(s, k).mtime == Some(t),
    ensures
        fc_decision(s, k, CurrentMtime::Reported(t)) == StepModel::Hit(lru_value(s, k).tag),
{
}

/// Staleness detection: any mismatch between the stored and the current
/// modification time forces recomputation from the file's current bytes,
/// with the new time recorded.
pub proof fn lemma_changed_mtime_recomputes(
    s: Seq<(Seq<char>, FileEntryModel)>,
    k: Seq<char>,
    t0: ModTime,
    t1: ModTime,
)
    requires
        lru_contains(s, k),
        lru_value(s, k).mtime == Some(t0),
        t1 != t0,
    ensures
        fc_decision(s, k, CurrentMtime::Reported(t1)) == StepModel::Recompute(Some(t1)),
{
}

/// Storing a tag with a recorded modification time, then looking the path
/// up while the file still reports that same time, serves exactly the
/// stored tag — the content is read once, not twice.
pub proof fn lemma_store_then_fresh_lookup_hits(
    s: Seq<(Seq<char>, FileEntryModel)>,
    cap: nat,
    k: Seq<char>,
    tag: TagModel,
    t: ModTime,
)
    requires
        lru_wf(s, cap),
        cap > 0,
    ensures
        ({
            let stored = lru_insert(s, cap, k, (FileEntryModel { tag, mtime: Some(t) }));
            fc_decision(stored, k, CurrentMtime::Reported(t)) == StepModel::Hit(tag)
        }),
{
    lemma_insert_properties(s, cap, k, (FileEntryModel { tag, mtime: Some(t) }));
}

/// Storing a tag with a recorded modification time, then looking the path
/// up after the file's time has changed, forces recomputation from the
/// file's current bytes, with the new time recorded.
pub proof fn lemma_store_then_stale_lookup_recomputes(
    s: Seq<(Seq<char>, FileEntryModel)>,
    cap: nat,
    k: Seq<char>,
    tag: TagModel,
    t0: ModTime,
    t1: ModTime,
)
    requires
        lru_wf(s, cap),
        cap > 0,
        t1 != t0,
    ensures
        ({
            let stored = lru_insert(s, cap, k, (FileEntryModel { tag, mtime: Some(t0) }));
            fc_decision(stored, k, CurrentMtime::Reported(t1)) == StepModel::Recompute(Some(t1))
        }),
{
    lemma_insert_properties(s, cap, k, (FileEntryModel { tag, mtime: Some(t0) }));
}

/// The metadata-failure asymmetry: failing to read metadata for an already
/// cached path is absorbed into recomputation — the modification time is
/// an optimization, not a correctness requirement — while for a path with
/// no entry it is fatal.
pub proof fn lemma_metadata_failure_asymmetry(s: Seq<(Seq<char>, FileEntryModel)>, k: Seq<char>)
    ensures
        lru_contains(s, k) ==> fc_decision(s, k, CurrentMtime::MetadataError) == StepModel::Recompute(
            None::<ModTime>,
        ),
        !lru_contains(s, k) ==> fc_decision(s, k, CurrentMtime::MetadataError) == StepModel::Fail,
{
}

} // verus!
