//! Content fingerprinting: a CRC-64/ECMA-182 checksum of the content,
//! rendered as a weak entity tag.
//!
//! One folding algorithm serves every input shape: an incremental digest
//! takes the content as sequential byte chunks, so an in-memory buffer is
//! fingerprinted in one chunk and a streamed file in bounded ones, and
//! identical byte content yields the identical tag regardless of chunking
//! boundaries.

use vstd::prelude::*;
use crate::entity_tag::{EntityTag, TagModel, tag_model_of_checksum};

verus! {

/// Relies on `crc_any::CRCu64`, the CRC digest this crate folds content
/// through. The type is opaque here; what it holds is named below.
#[verifier::external_type_specification]
#[verifier::external_body]
pub struct ExCRCu64(crc_any::CRCu64);

/// The bytes a digest has folded so far, in order. A digest's state is
/// determined by them alone.
pub uninterp spec fn digested_bytes(digest: crc_any::CRCu64) -> Seq<u8>;

/// The CRC-64/ECMA-182 checksum of a byte sequence, as `crc_any` computes
/// it: a pure function of the bytes alone.
pub uninterp spec fn crc64_of(data: Seq<u8>) -> u64;

/// Relies on `crc_any::CRCu64::crc64`: it builds the CRC-64/ECMA-182
/// digest (polynomial 0x42F0E1EBA9EA3693, zero initial value, no
/// reflection, zero final xor) with nothing folded yet.
#[verifier::external_body]
fn crc64_digest_new() -> (r: crc_any::CRCu64)
    ensures
        digested_bytes(r) == Seq::<u8>::empty(),
{
    crc_any::CRCu64::crc64()
}

/// Relies on `crc_any::CRCu64::digest`: it folds the chunk's bytes, in
/// order, after everything folded before.
#[verifier::external_body]
fn crc64_digest_update(digest: &mut crc_any::CRCu64, chunk: &[u8])
    ensures
        digested_bytes(*final(digest)) == digested_bytes(*old(digest)) + chunk@,
{
    digest.digest(chunk)
}

/// Relies on `crc_any::CRCu64::get_crc`: it yields the checksum of the
/// folded bytes, a function of those bytes alone.
#[verifier::external_body]
fn crc64_digest_finish(digest: &crc_any::CRCu64) -> (r: u64)
    ensures
        r == crc64_of(digested_bytes(*digest)),
{
    digest.get_crc()
}

/// The tag that fingerprints a byte sequence: always weak, its payload the
/// canonical uppercase hexadecimal rendering of the checksum.
pub open spec fn tag_model_of(data: Seq<u8>) -> TagModel {
    tag_model_of_checksum(crc64_of(data))
}

/// An incremental content fingerprint: feed the content in sequential
/// chunks of any size, then render the tag. The eventual tag depends only
/// on the concatenation of the chunks, never on their boundaries.
pub struct FingerprintDigest {
    inner: crc_any::CRCu64,
}

impl FingerprintDigest {
    /// The bytes folded in so far.
    pub closed spec fn bytes(&self) -> Seq<u8> {
        digested_bytes(self.inner)
    }

    /// Start a fingerprint with nothing folded yet.
    pub fn new() -> (r: FingerprintDigest)
        ensures
            r.bytes() == Seq::<u8>::empty(),
    {
        FingerprintDigest { inner: crc64_digest_new() }
    }

    /// Fold in the next chunk of the content.
    pub fn update(&mut self, chunk: &[u8])
        ensures
            final(self).bytes() == old(self).bytes() + chunk@,
    {
        crc64_digest_update(&mut self.inner, chunk)
    }

    /// The weak tag that fingerprints the folded content.
    pub fn finish_tag(&self) -> (r: EntityTag)
        ensures
            r@ == tag_model_of(self.bytes()),
    {
        EntityTag::from_checksum(crc64_digest_finish(&self.inner))
    }
}

/// Fingerprint an in-memory buffer: fold all of its bytes through the
/// checksum and render the result as a weak tag.
pub fn compute_data_etag(data: &[u8]) -> (r: EntityTag)
    ensures
        r@ == tag_model_of(data@),
{
    let mut digest = FingerprintDigest::new();
    digest.update(data);
    proof {
        assert(digest.bytes() =~= data@);
    }
    digest.finish_tag()
}

/// Fingerprinting is deterministic: identical byte content always yields
/// the identical tag, however many times and in whatever chunks it is
/// presented.
pub proof fn lemma_fingerprint_deterministic(b1: Seq<u8>, b2: Seq<u8>)
    requires
        b1 == b2,
    ensures
        tag_model_of(b1) == tag_model_of(b2),
{
}

} // verus!
