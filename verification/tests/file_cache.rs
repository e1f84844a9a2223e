//! Tests of the path-keyed tag cache: staleness detection through
//! modification times, the metadata-failure asymmetry, eviction, clearing,
//! and the capacity-zero degenerate case.
//!
//! The cache never touches the filesystem itself: its caller probes the
//! current modification time and hands it in, so these tests drive the
//! cache with explicit probes and count content reads as the number of
//! `Recompute` outcomes.

use std::sync::Arc;

use etag_cache::compute_data_etag;
use etag_cache::EntityTag;
use etag_cache::FileEtagCache;
use etag_cache::file_etag_cache::{CacheStep, CurrentMtime, ModTime};

fn mtime(secs: u64, nanos: u32) -> ModTime {
    ModTime { secs, nanos }
}

/// Drive one full lookup the way an I/O layer would: on `Recompute`, read
/// the given content, fingerprint it, and store the new tag; count each
/// content read.
fn lookup(
    cache: &mut FileEtagCache,
    path: &str,
    probe: CurrentMtime,
    content: &[u8],
    reads: &mut usize,
) -> Option<Arc<EntityTag>> {
    match cache.get_or_insert(path, probe) {
        CacheStep::Hit(tag) => Some(tag),
        CacheStep::Recompute(record) => {
            *reads += 1;
            let tag = compute_data_etag(content);
            Some(cache.store_tag(path, tag, record))
        },
        CacheStep::Fail => None,
    }
}

#[test]
fn unchanged_mtime_serves_cached_tag_without_rereading() {
    let mut cache = FileEtagCache::new(4);
    let mut reads = 0usize;
    let t = CurrentMtime::Reported(mtime(100, 0));

    let first = lookup(&mut cache, "/data/a", t, b"old content", &mut reads).unwrap();
    assert_eq!(reads, 1);

    // Same modification time: the tag is served from the cache and the
    // content is not read again.
    let second = lookup(&mut cache, "/data/a", t, b"old content", &mut reads).unwrap();
    assert_eq!(reads, 1);
    assert!(first.weak_eq(&second));

    let third = lookup(&mut cache, "/data/a", t, b"old content", &mut reads).unwrap();
    assert_eq!(reads, 1);
    assert!(first.weak_eq(&third));
}

#[test]
fn changed_mtime_recomputes_and_matches_new_content() {
    let mut cache = FileEtagCache::new(4);
    let mut reads = 0usize;

    let old_tag = lookup(
        &mut cache,
        "/data/a",
        CurrentMtime::Reported(mtime(100, 0)),
        b"old content",
        &mut reads,
    )
    .unwrap();
    assert_eq!(reads, 1);

    // The file was modified: its modification time changed, so the tag is
    // recomputed from the new bytes and differs from the old one.
    let new_tag = lookup(
        &mut cache,
        "/data/a",
        CurrentMtime::Reported(mtime(200, 5)),
        b"new content",
        &mut reads,
    )
    .unwrap();
    assert_eq!(reads, 2);
    assert!(!old_tag.weak_eq(&new_tag));
    assert_eq!(new_tag.tag_str(), compute_data_etag(b"new content").tag_str());

    // The recorded time is the new one: no further read at that time.
    let again = lookup(
        &mut cache,
        "/data/a",
        CurrentMtime::Reported(mtime(200, 5)),
        b"new content",
        &mut reads,
    )
    .unwrap();
    assert_eq!(reads, 2);
    assert!(new_tag.weak_eq(&again));
}

#[test]
fn metadata_failure_is_fatal_only_for_uncached_paths() {
    let mut cache = FileEtagCache::new(4);
    let mut reads = 0usize;

    // No entry and no metadata: the call fails and nothing is cached.
    assert!(lookup(&mut cache, "/gone", CurrentMtime::MetadataError, b"", &mut reads).is_none());
    assert_eq!(reads, 0);
    assert!(!cache.contains_key("/gone"));

    // With an entry, the same failure is absorbed into recomputation.
    lookup(&mut cache, "/a", CurrentMtime::Reported(mtime(1, 0)), b"x", &mut reads).unwrap();
    assert_eq!(reads, 1);
    let tag = lookup(&mut cache, "/a", CurrentMtime::MetadataError, b"x", &mut reads).unwrap();
    assert_eq!(reads, 2);
    assert_eq!(tag.tag_str(), compute_data_etag(b"x").tag_str());
}

#[test]
fn unavailable_mtime_always_recomputes() {
    let mut cache = FileEtagCache::new(4);
    let mut reads = 0usize;

    // Metadata readable but no modification time: the entry is stored with
    // no recorded time, so every later lookup recomputes.
    lookup(&mut cache, "/a", CurrentMtime::Unavailable, b"x", &mut reads).unwrap();
    assert_eq!(reads, 1);
    lookup(&mut cache, "/a", CurrentMtime::Unavailable, b"x", &mut reads).unwrap();
    assert_eq!(reads, 2);
    // Even a reported time cannot match a missing recorded one.
    lookup(&mut cache, "/a", CurrentMtime::Reported(mtime(3, 0)), b"x", &mut reads).unwrap();
    assert_eq!(reads, 3);
    // Now a time is recorded, and the fast path works again.
    lookup(&mut cache, "/a", CurrentMtime::Reported(mtime(3, 0)), b"x", &mut reads).unwrap();
    assert_eq!(reads, 3);
}

#[test]
fn mtime_comparison_is_exact() {
    let mut cache = FileEtagCache::new(4);
    let mut reads = 0usize;
    lookup(&mut cache, "/a", CurrentMtime::Reported(mtime(10, 7)), b"x", &mut reads).unwrap();
    // A nanosecond of difference is a mismatch: no tolerance window.
    lookup(&mut cache, "/a", CurrentMtime::Reported(mtime(10, 8)), b"x", &mut reads).unwrap();
    assert_eq!(reads, 2);
}

#[test]
fn file_cache_lru_eviction() {
    let mut cache = FileEtagCache::new(2);
    let mut reads = 0usize;
    let t = CurrentMtime::Reported(mtime(1, 0));
    lookup(&mut cache, "/a", t, b"a", &mut reads).unwrap();
    lookup(&mut cache, "/b", t, b"b", &mut reads).unwrap();
    lookup(&mut cache, "/c", t, b"c", &mut reads).unwrap();
    assert!(!cache.contains_key("/a"));
    assert!(cache.contains_key("/b"));
    assert!(cache.contains_key("/c"));
}

#[test]
fn file_cache_clear_empties_all_entries() {
    let mut cache = FileEtagCache::new(4);
    let mut reads = 0usize;
    let t = CurrentMtime::Reported(mtime(1, 0));
    lookup(&mut cache, "/a", t, b"a", &mut reads).unwrap();
    lookup(&mut cache, "/b", t, b"b", &mut reads).unwrap();
    cache.clear_cache();
    assert!(!cache.contains_key("/a"));
    assert!(!cache.contains_key("/b"));
    // After the clear, the same probe recomputes.
    lookup(&mut cache, "/a", t, b"a", &mut reads).unwrap();
    assert_eq!(reads, 3);
}

#[test]
fn file_cache_capacity_zero_never_retains() {
    let mut cache = FileEtagCache::new(0);
    let mut reads = 0usize;
    let t = CurrentMtime::Reported(mtime(1, 0));
    lookup(&mut cache, "/a", t, b"a", &mut reads).unwrap();
    assert!(!cache.contains_key("/a"));
    lookup(&mut cache, "/a", t, b"a", &mut reads).unwrap();
    assert_eq!(reads, 2);
}
