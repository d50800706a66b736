use cid_digest::encoder::{content_digest, encode_sha256_digest, EncodeError};
use cid_digest::layout::digest_from_multibase;

const HELLO_TEXT: &str = "mAVUSICzyTbpfsKMOJug7KsW54p4bFh5cH6dCXnMEM2KTi5gk";

fn hello_digest() -> Vec<u8> {
    let hex = "2cf24dba5fb0a30e26e83b2ac5b9e29e1b161e5c1fa7425e73043362938b9824";
    (0..32)
        .map(|i| u8::from_str_radix(&hex[2 * i..2 * i + 2], 16).unwrap())
        .collect()
}

#[test]
fn hello_content_digest() {
    assert_eq!(content_digest(b"hello"), Ok(HELLO_TEXT.to_string()));
}

#[test]
fn empty_content_digest() {
    assert_eq!(
        content_digest(b""),
        Ok("mAVUSIOOwxEKY/BwUmvv0yJlvuSQnrkHkZJuTTKSVmRt4UrhV".to_string())
    );
}

#[test]
fn digest_text_starts_with_base64_prefix() {
    let text = content_digest(b"some bytes").unwrap();
    assert!(text.starts_with('m'));
    assert_eq!(text.len(), 49);
}

#[test]
fn encoding_twice_gives_same_text() {
    let data = b"the same bytes, twice";
    assert_eq!(content_digest(data), content_digest(data));
}

#[test]
fn different_bytes_give_different_text() {
    assert_ne!(content_digest(b"a"), content_digest(b"b"));
}

#[test]
fn round_trip_recovers_sha256_digest() {
    let text = content_digest(b"hello").unwrap();
    assert_eq!(digest_from_multibase(&text), Some(hello_digest()));
}

#[test]
fn round_trip_on_binary_content() {
    let data: Vec<u8> = (0..=255u8).collect();
    let text = content_digest(&data).unwrap();
    let digest = digest_from_multibase(&text).unwrap();
    assert_eq!(digest.len(), 32);
    assert_eq!(encode_sha256_digest(&digest), Ok(text));
}

#[test]
fn encode_known_digest() {
    assert_eq!(
        encode_sha256_digest(&hello_digest()),
        Ok(HELLO_TEXT.to_string())
    );
}

#[test]
fn encode_short_digests() {
    assert_eq!(encode_sha256_digest(&[1, 2, 3]), Ok("mAVUSAwECAw".to_string()));
    assert_eq!(encode_sha256_digest(&[]), Ok("mAVUSAA".to_string()));
}

#[test]
fn encode_largest_digest() {
    let digest: Vec<u8> = (0..64u8).collect();
    let text = encode_sha256_digest(&digest).unwrap();
    assert_eq!(
        text,
        "mAVUSQAABAgMEBQYHCAkKCwwNDg8QERITFBUWFxgZGhscHR4fICEiIyQlJicoKSorLC0uLzAxMjM0NTY3ODk6Ozw9Pj8"
    );
    assert_eq!(digest_from_multibase(&text), Some(digest));
}

#[test]
fn encode_too_long_digest_fails() {
    let digest = vec![7u8; 65];
    assert_eq!(encode_sha256_digest(&digest), Err(EncodeError::DigestTooLong));
}

#[test]
fn decode_rejects_other_texts() {
    assert_eq!(digest_from_multibase(""), None);
    assert_eq!(digest_from_multibase("m"), None);
    assert_eq!(digest_from_multibase(&HELLO_TEXT.replacen('m', "M", 1)), None);
    assert_eq!(digest_from_multibase(&HELLO_TEXT.replacen('m', "b", 1)), None);
    assert_eq!(digest_from_multibase("mAVUSICzy!"), None);
    assert_eq!(digest_from_multibase(&HELLO_TEXT[..HELLO_TEXT.len() - 1]), None);
}

#[test]
fn decode_rejects_wrong_codec_or_length() {
    // dag-pb codec (0x70) instead of raw
    assert_eq!(digest_from_multibase("mAXASAwECAw"), None);
    // declared digest length 4, three bytes carried
    assert_eq!(digest_from_multibase("mAVUSBAECAw"), None);
}

#[test]
fn decode_rejects_nonzero_unused_bits() {
    assert_eq!(digest_from_multibase("mAVUSAwECAx"), None);
}
