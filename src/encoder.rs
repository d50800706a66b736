//! Content digests: SHA2-256 of the bytes, named by a CIDv1 of raw content,
//! written as base-64 multibase text.
use crate::layout::{
    ascii_text, base64_spec, cid_v1_layout, digest_of_text, digest_text, lemma_digest_round_trip,
    lemma_digest_text_bytes, lemma_unbase64_base64, multibase_base64, raw_sha256_layout, unbase64,
    RAW_CODEC, SHA2_256,
};
use vstd::utf8::encode_utf8;
use vstd::prelude::*;

verus! {

/// The SHA2-256 digest of a byte sequence.
pub uninterp spec fn sha256_of(data: Seq<u8>) -> Seq<u8>;

#[verifier::external_type_specification]
#[verifier::external_body]
pub struct ExCidError(cid::Error);

/// Relies on `multihash_codetable::Code::Sha2_256.digest`, which hashes the
/// whole input with SHA2-256 and wraps the 32-byte result in a multihash;
/// `Multihash::digest` hands that result back.
#[verifier::external_body]
pub(crate) fn sha256_digest(data: &[u8]) -> (r: Vec<u8>)
    ensures
        r@ == sha256_of(data@),
        r@.len() == 32,
{
    multihash_codetable::MultihashDigest::digest(&multihash_codetable::Code::Sha2_256, data)
        .digest()
        .to_vec()
}

/// Relies on `Multihash::<64>::wrap` (fails only for a digest over 64 bytes),
/// `Cid::new_v1` and `Cid::to_string_of_base(Base::Base64)`, which for a CIDv1
/// writes the prefix `m` and the unpadded RFC 4648 base-64 of the identifier's
/// bytes: varint version, varint codec, varint hash tag, varint digest length,
/// digest (each varint below 128 is one byte).
#[verifier::external_body]
fn cid_v1_base64(codec: u64, hash_code: u64, digest: &[u8]) -> (r: Result<String, cid::Error>)
    requires
        codec < 128,
        hash_code < 128,
    ensures
        r is Ok <==> digest@.len() <= 64,
        r matches Ok(s) ==> s@ == ascii_text(
            multibase_base64(cid_v1_layout(codec, hash_code, digest@)),
        ),
{
    let hash = cid::multihash::Multihash::<64>::wrap(hash_code, digest)?;
    cid::Cid::new_v1(codec, hash).to_string_of_base(cid::multibase::Base::Base64)
}

/// Why a digest could not be written as an identifier.
#[derive(Debug, Clone, Copy, PartialEq, Eq, Structural)]
pub enum EncodeError {
    /// The digest does not fit a multihash of at most 64 bytes.
    DigestTooLong,
}

/// Writes a SHA2-256 digest as the base-64 multibase text of a CIDv1 of raw
/// content. Succeeds exactly when the digest fits a multihash (64 bytes).
pub fn encode_sha256_digest(digest: &[u8]) -> (r: Result<String, EncodeError>)
    ensures
        r is Ok <==> digest@.len() <= 64,
        r matches Ok(s) ==> s@ == digest_text(digest@),
        r matches Err(e) ==> e == EncodeError::DigestTooLong,
{
    match cid_v1_base64(RAW_CODEC, SHA2_256, digest) {
        Ok(s) => Ok(s),
        Err(_) => Err(EncodeError::DigestTooLong),
    }
}

/// The content digest of `data`: the base-64 multibase text of the CIDv1
/// (raw codec) of its SHA2-256 digest. Always succeeds.
pub fn content_digest(data: &[u8]) -> (r: Result<String, EncodeError>)
    ensures
        r matches Ok(s) && s@ == digest_text(sha256_of(data@)),
        sha256_of(data@).len() == 32,
{
    let digest = sha256_digest(data);
    encode_sha256_digest(digest.as_slice())
}

/// Reading back the content digest of `data` gives exactly the SHA2-256
/// digest of `data`.
pub proof fn lemma_content_digest_round_trip(data: Seq<u8>)
    requires
        sha256_of(data).len() == 32,
    ensures
        digest_of_text(encode_utf8(digest_text(sha256_of(data)))) == Some(sha256_of(data)),
{
    lemma_digest_text_bytes(sha256_of(data));
    lemma_digest_round_trip(sha256_of(data));
}

/// The content digest of `data` starts with the base-64 multibase prefix `m`;
/// the rest is strict unpadded base-64 of the CIDv1 binary form: version 1,
/// raw codec, SHA2-256 tag, digest length 32, digest.
pub proof fn lemma_content_digest_shape(data: Seq<u8>)
    requires
        sha256_of(data).len() == 32,
    ensures
        digest_text(sha256_of(data))[0] == 'm',
        ({
            let t = encode_utf8(digest_text(sha256_of(data)));
            unbase64(t.subrange(1, t.len() as int)) == Some(
                seq![1u8, 0x55u8, 0x12u8, 32u8] + sha256_of(data),
            )
        }),
{
    let d = sha256_of(data);
    let b = raw_sha256_layout(d);
    let t = multibase_base64(b);
    lemma_digest_text_bytes(d);
    lemma_unbase64_base64(b);
    assert(t.subrange(1, t.len() as int) =~= base64_spec(b));
    assert(b =~= seq![1u8, 0x55u8, 0x12u8, 32u8] + d);
}

/// Encoding is deterministic: the same bytes always give the same content
/// digest.
pub proof fn lemma_content_digest_deterministic(a: Seq<u8>, b: Seq<u8>)
    requires
        a == b,
    ensures
        digest_text(sha256_of(a)) == digest_text(sha256_of(b)),
{
}

} // verus!
