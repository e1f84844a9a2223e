//! Tests of the content fingerprint function and the tag type.

use etag_cache::compute_data_etag;
use etag_cache::fingerprint::FingerprintDigest;
use etag_cache::EntityTag;

#[test]
fn fingerprint_is_deterministic() {
    let data = b"hello world";
    let t1 = compute_data_etag(data);
    let t2 = compute_data_etag(data);
    assert_eq!(t1.tag_str(), t2.tag_str());
    assert!(t1.weak_eq(&t2));
}

#[test]
fn fingerprint_is_deterministic_across_copies() {
    let a = vec![1u8, 2, 3, 4, 5];
    let b = vec![1u8, 2, 3, 4, 5];
    assert_eq!(compute_data_etag(&a).tag_str(), compute_data_etag(&b).tag_str());
}

#[test]
fn fingerprints_of_distinct_buffers_differ() {
    let t1 = compute_data_etag(&[1u8, 2, 3]);
    let t2 = compute_data_etag(&[9u8, 9, 9]);
    assert_ne!(t1.tag_str(), t2.tag_str());
    assert!(!t1.weak_eq(&t2));

    let t3 = compute_data_etag(b"");
    let t4 = compute_data_etag(b"x");
    assert_ne!(t3.tag_str(), t4.tag_str());

    let t5 = compute_data_etag(b"abc");
    let t6 = compute_data_etag(b"abd");
    assert_ne!(t5.tag_str(), t6.tag_str());
}

#[test]
fn fingerprint_ignores_chunking_boundaries() {
    let whole = compute_data_etag(b"hello world");

    let mut digest = FingerprintDigest::new();
    digest.update(b"hello");
    digest.update(b" ");
    digest.update(b"world");
    let chunked = digest.finish_tag();
    assert_eq!(whole.tag_str(), chunked.tag_str());

    let mut byte_by_byte = FingerprintDigest::new();
    for b in b"hello world" {
        byte_by_byte.update(&[*b]);
    }
    assert_eq!(whole.tag_str(), byte_by_byte.finish_tag().tag_str());

    let empty = FingerprintDigest::new();
    assert_eq!(empty.finish_tag().tag_str(), compute_data_etag(b"").tag_str());
}

#[test]
fn fingerprint_known_checksum() {
    // The CRC-64/ECMA-182 check value: the checksum of "123456789" is
    // 0x6C40DF5F0B497347.
    let t = compute_data_etag(b"123456789");
    assert_eq!(t.tag_str(), "6C40DF5F0B497347");
    assert!(t.is_weak());
}

#[test]
fn fingerprint_of_empty_content() {
    // Zero initial value, zero final xor: no bytes leave the checksum zero.
    let t = compute_data_etag(b"");
    assert_eq!(t.tag_str(), "0");
    assert!(t.is_weak());
}

#[test]
fn hex_rendering_is_canonical() {
    assert_eq!(EntityTag::from_checksum(0).tag_str(), "0");
    assert_eq!(EntityTag::from_checksum(9).tag_str(), "9");
    assert_eq!(EntityTag::from_checksum(10).tag_str(), "A");
    assert_eq!(EntityTag::from_checksum(15).tag_str(), "F");
    assert_eq!(EntityTag::from_checksum(16).tag_str(), "10");
    assert_eq!(EntityTag::from_checksum(255).tag_str(), "FF");
    assert_eq!(EntityTag::from_checksum(0x1234ABCD).tag_str(), "1234ABCD");
    assert_eq!(EntityTag::from_checksum(u64::MAX).tag_str(), "FFFFFFFFFFFFFFFF");
}

#[test]
fn from_checksum_is_weak() {
    assert!(EntityTag::from_checksum(42).is_weak());
}

#[test]
fn weak_eq_compares_payloads_only() {
    let a = EntityTag::new(true, String::from("ABC"));
    let b = EntityTag::new(false, String::from("ABC"));
    let c = EntityTag::new(true, String::from("ABD"));
    assert!(a.weak_eq(&b));
    assert!(b.weak_eq(&a));
    assert!(!a.weak_eq(&c));
    assert!(a.is_weak());
    assert!(!b.is_weak());
    assert_eq!(b.tag_str(), "ABC");
}
