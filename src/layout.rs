//! The binary layout of a CIDv1 identifier and its base-64 multibase text.
use vstd::prelude::*;
use vstd::string::StringSliceAdditionalSpecFns;
use vstd::utf8::{encode_utf8, is_ascii_chars_encode_utf8};

verus! {

/// Version tag of a CIDv1 identifier.
pub const CID_VERSION: u64 = 1;

/// Multicodec tag of raw binary content.
pub const RAW_CODEC: u64 = 0x55;

/// Multihash function tag of SHA2-256.
pub const SHA2_256: u64 = 0x12;

/// Multibase prefix of base-64 (RFC 4648, no padding), as an ASCII code: `m`.
pub const BASE64_PREFIX: u8 = 109;

/// The binary form of a CIDv1 whose tags and digest length are all below 128,
/// so that each varint takes one byte: version, codec, hash tag, digest length, digest.
pub open spec fn cid_v1_layout(codec: u64, hash_code: u64, digest: Seq<u8>) -> Seq<u8> {
    seq![CID_VERSION as u8, codec as u8, hash_code as u8, digest.len() as u8] + digest
}

/// The binary form of the identifier of a SHA2-256 digest of raw content.
pub open spec fn raw_sha256_layout(digest: Seq<u8>) -> Seq<u8> {
    cid_v1_layout(RAW_CODEC, SHA2_256, digest)
}

/// The base-64 symbol (as an ASCII code) of a six-bit value.
pub open spec fn symbol(v: u8) -> u8 {
    if v < 26 {
        (v + 65) as u8
    } else if v < 52 {
        (v + 71) as u8
    } else if v < 62 {
        (v - 4) as u8
    } else if v == 62 {
        43
    } else {
        47
    }
}

/// The six-bit value of a base-64 symbol, if it is one.
pub open spec fn sextet_of(c: u8) -> Option<u8> {
    if 65 <= c <= 90 {
        Some((c - 65) as u8)
    } else if 97 <= c <= 122 {
        Some((c - 71) as u8)
    } else if 48 <= c <= 57 {
        Some((c + 4) as u8)
    } else if c == 43 {
        Some(62)
    } else if c == 47 {
        Some(63)
    } else {
        None
    }
}

/// Four symbols for three bytes.
pub open spec fn encode_triple(a: u8, b: u8, c: u8) -> Seq<u8> {
    seq![
        symbol(a >> 2),
        symbol(((a & 3) << 4) | (b >> 4)),
        symbol(((b & 15) << 2) | (c >> 6)),
        symbol(c & 63),
    ]
}

/// Base-64 text (RFC 4648 alphabet, no padding) of a byte sequence, as ASCII codes.
pub open spec fn base64_spec(b: Seq<u8>) -> Seq<u8>
    decreases b.len(),
{
    if b.len() == 0 {
        seq![]
    } else if b.len() == 1 {
        seq![symbol(b[0] >> 2), symbol((b[0] & 3) << 4)]
    } else if b.len() == 2 {
        seq![symbol(b[0] >> 2), symbol(((b[0] & 3) << 4) | (b[1] >> 4)), symbol((b[1] & 15) << 2)]
    } else {
        encode_triple(b[0], b[1], b[2]) + base64_spec(b.subrange(3, b.len() as int))
    }
}

/// Multibase text of a byte sequence in base 64, as ASCII codes.
pub open spec fn multibase_base64(b: Seq<u8>) -> Seq<u8> {
    seq![BASE64_PREFIX] + base64_spec(b)
}

/// The characters of a sequence of ASCII codes.
pub open spec fn ascii_text(b: Seq<u8>) -> Seq<char> {
    b.map_values(|x: u8| x as char)
}

/// The multibase text that names a SHA2-256 digest of raw content.
pub open spec fn digest_text(digest: Seq<u8>) -> Seq<char> {
    ascii_text(multibase_base64(raw_sha256_layout(digest)))
}

/// Three bytes from four six-bit values.
pub open spec fn join_quad(s0: u8, s1: u8, s2: u8, s3: u8) -> Seq<u8> {
    seq![(s0 << 2) | (s1 >> 4), (s1 << 4) | (s2 >> 2), (s2 << 6) | s3]
}

/// Decoding of four symbols.
pub open spec fn decode_quad(c0: u8, c1: u8, c2: u8, c3: u8) -> Option<Seq<u8>> {
    match (sextet_of(c0), sextet_of(c1), sextet_of(c2), sextet_of(c3)) {
        (Some(s0), Some(s1), Some(s2), Some(s3)) => Some(join_quad(s0, s1, s2, s3)),
        _ => None,
    }
}

/// Decoding of a final group of two symbols; the unused bits must be zero.
pub open spec fn decode_pair(c0: u8, c1: u8) -> Option<Seq<u8>> {
    match (sextet_of(c0), sextet_of(c1)) {
        (Some(s0), Some(s1)) => if s1 & 15 == 0 {
            Some(seq![(s0 << 2) | (s1 >> 4)])
        } else {
            None
        },
        _ => None,
    }
}

/// Decoding of a final group of three symbols; the unused bits must be zero.
pub open spec fn decode_trio(c0: u8, c1: u8, c2: u8) -> Option<Seq<u8>> {
    match (sextet_of(c0), sextet_of(c1), sextet_of(c2)) {
        (Some(s0), Some(s1), Some(s2)) => if s2 & 3 == 0 {
            Some(seq![(s0 << 2) | (s1 >> 4), (s1 << 4) | (s2 >> 2)])
        } else {
            None
        },
        _ => None,
    }
}

/// `p` in front of the decoded rest, if the rest decodes.
pub open spec fn prepend(p: Seq<u8>, rest: Option<Seq<u8>>) -> Option<Seq<u8>> {
    match rest {
        Some(r) => Some(p + r),
        None => None,
    }
}

/// Strict base-64 decoding (no padding, unused bits zero) of ASCII codes.
pub open spec fn unbase64(t: Seq<u8>) -> Option<Seq<u8>>
    decreases t.len(),
{
    if t.len() == 0 {
        Some(seq![])
    } else if t.len() == 1 {
        None
    } else if t.len() == 2 {
        decode_pair(t[0], t[1])
    } else if t.len() == 3 {
        decode_trio(t[0], t[1], t[2])
    } else {
        match decode_quad(t[0], t[1], t[2], t[3]) {
            Some(g) => prepend(g, unbase64(t.subrange(4, t.len() as int))),
            None => None,
        }
    }
}

/// The digest named by the binary form of a CIDv1 of raw content with a
/// SHA2-256 multihash whose declared length matches the digest it carries.
pub open spec fn digest_of_layout(b: Seq<u8>) -> Option<Seq<u8>> {
    if b.len() >= 4 && b[0] == CID_VERSION && b[1] == RAW_CODEC && b[2] == SHA2_256 && b[3] == b.len()
        - 4 {
        Some(b.subrange(4, b.len() as int))
    } else {
        None
    }
}

/// The digest named by a multibase text (as ASCII codes), if the text is
/// base-64 multibase of such a CIDv1.
pub open spec fn digest_of_text(t: Seq<u8>) -> Option<Seq<u8>> {
    if t.len() >= 1 && t[0] == BASE64_PREFIX {
        match unbase64(t.subrange(1, t.len() as int)) {
            Some(b) => digest_of_layout(b),
            None => None,
        }
    } else {
        None
    }
}

proof fn lemma_symbol(v: u8)
    requires
        v < 64,
    ensures
        sextet_of(symbol(v)) == Some(v),
        symbol(v) < 128,
{
}

proof fn lemma_triple_bits(a: u8, b: u8, c: u8)
    ensures
        a >> 2 < 64,
        ((a & 3) << 4) | (b >> 4) < 64,
        ((b & 15) << 2) | (c >> 6) < 64,
        c & 63 < 64,
        ((a >> 2) << 2) | ((((a & 3) << 4) | (b >> 4)) >> 4) == a,
        ((((a & 3) << 4) | (b >> 4)) << 4) | ((((b & 15) << 2) | (c >> 6)) >> 2) == b,
        ((((b & 15) << 2) | (c >> 6)) << 6) | (c & 63) == c,
        (a & 3) << 4 < 64,
        ((a & 3) << 4) & 15 == 0,
        ((a >> 2) << 2) | (((a & 3) << 4) >> 4) == a,
        (b & 15) << 2 < 64,
        ((b & 15) << 2) & 3 == 0,
        ((((a & 3) << 4) | (b >> 4)) << 4) | (((b & 15) << 2) >> 2) == b,
{
    assert(a >> 2 < 64) by (bit_vector);
    assert(((a & 3) << 4) | (b >> 4) < 64) by (bit_vector);
    assert(((b & 15) << 2) | (c >> 6) < 64) by (bit_vector);
    assert(c & 63 < 64) by (bit_vector);
    assert(((a >> 2) << 2) | ((((a & 3) << 4) | (b >> 4)) >> 4) == a) by (bit_vector);
    assert(((((a & 3) << 4) | (b >> 4)) << 4) | ((((b & 15) << 2) | (c >> 6)) >> 2) == b)
        by (bit_vector);
    assert(((((b & 15) << 2) | (c >> 6)) << 6) | (c & 63) == c) by (bit_vector);
    assert((a & 3) << 4 < 64) by (bit_vector);
    assert(((a & 3) << 4) & 15 == 0) by (bit_vector);
    assert(((a >> 2) << 2) | (((a & 3) << 4) >> 4) == a) by (bit_vector);
    assert((b & 15) << 2 < 64) by (bit_vector);
    assert(((b & 15) << 2) & 3 == 0) by (bit_vector);
    assert(((((a & 3) << 4) | (b >> 4)) << 4) | (((b & 15) << 2) >> 2) == b) by (bit_vector);
}

/// Strict base-64 decoding undoes base-64 encoding.
pub proof fn lemma_unbase64_base64(b: Seq<u8>)
    ensures
        unbase64(base64_spec(b)) == Some(b),
    decreases b.len(),
{
    if b.len() == 0 {
        assert(b =~= seq![]);
    } else if b.len() == 1 {
        lemma_triple_bits(b[0], 0, 0);
        lemma_symbol(b[0] >> 2);
        lemma_symbol((b[0] & 3) << 4);
        assert(b =~= seq![b[0]]);
    } else if b.len() == 2 {
        lemma_triple_bits(b[0], b[1], 0);
        lemma_symbol(b[0] >> 2);
        lemma_symbol(((b[0] & 3) << 4) | (b[1] >> 4));
        lemma_symbol((b[1] & 15) << 2);
        assert(b =~= seq![b[0], b[1]]);
    } else {
        let rest = b.subrange(3, b.len() as int);
        let t = base64_spec(b);
        lemma_triple_bits(b[0], b[1], b[2]);
        lemma_symbol(b[0] >> 2);
        lemma_symbol(((b[0] & 3) << 4) | (b[1] >> 4));
        lemma_symbol(((b[1] & 15) << 2) | (b[2] >> 6));
        lemma_symbol(b[2] & 63);
        lemma_unbase64_base64(rest);
        assert(t.subrange(4, t.len() as int) =~= base64_spec(rest));
        assert(seq![b[0], b[1], b[2]] + rest =~= b);
    }
}

/// Every symbol of base-64 text is ASCII.
pub proof fn lemma_base64_ascii(b: Seq<u8>)
    ensures
        forall|i: int| 0 <= i < base64_spec(b).len() ==> #[trigger] base64_spec(b)[i] < 128,
    decreases b.len(),
{
    if b.len() == 0 {
    } else if b.len() == 1 {
        lemma_triple_bits(b[0], 0, 0);
        lemma_symbol(b[0] >> 2);
        lemma_symbol((b[0] & 3) << 4);
    } else if b.len() == 2 {
        lemma_triple_bits(b[0], b[1], 0);
        lemma_symbol(b[0] >> 2);
        lemma_symbol(((b[0] & 3) << 4) | (b[1] >> 4));
        lemma_symbol((b[1] & 15) << 2);
    } else {
        let rest = b.subrange(3, b.len() as int);
        lemma_triple_bits(b[0], b[1], b[2]);
        lemma_symbol(b[0] >> 2);
        lemma_symbol(((b[0] & 3) << 4) | (b[1] >> 4));
        lemma_symbol(((b[1] & 15) << 2) | (b[2] >> 6));
        lemma_symbol(b[2] & 63);
        lemma_base64_ascii(rest);
        let t = base64_spec(b);
        assert forall|i: int| 0 <= i < t.len() implies #[trigger] t[i] < 128 by {
            if i >= 4 {
                assert(t[i] == base64_spec(rest)[i - 4]);
            }
        }
    }
}

/// Decoding the multibase text of a CIDv1 of raw content gives back the
/// SHA2-256 digest it was made from.
pub proof fn lemma_digest_round_trip(digest: Seq<u8>)
    requires
        digest.len() <= 64,
    ensures
        digest_of_text(multibase_base64(raw_sha256_layout(digest))) == Some(digest),
{
    let b = raw_sha256_layout(digest);
    let t = multibase_base64(b);
    lemma_unbase64_base64(b);
    assert(t.subrange(1, t.len() as int) =~= base64_spec(b));
    assert(b.subrange(4, b.len() as int) =~= digest);
}

/// The value carried by an optional byte vector.
pub open spec fn opt_bytes(r: Option<Vec<u8>>) -> Option<Seq<u8>> {
    match r {
        Some(v) => Some(v@),
        None => None,
    }
}

/// The six-bit value of a base-64 symbol.
fn sextet(c: u8) -> (r: Option<u8>)
    ensures
        r == sextet_of(c),
{
    if 65 <= c && c <= 90 {
        Some(c - 65)
    } else if 97 <= c && c <= 122 {
        Some(c - 71)
    } else if 48 <= c && c <= 57 {
        Some(c + 4)
    } else if c == 43 {
        Some(62)
    } else if c == 47 {
        Some(63)
    } else {
        None
    }
}

/// Decodes the symbols of `t` from position `from` on, strictly (no padding,
/// unused bits zero).
fn unbase64_from(t: &[u8], from: usize) -> (r: Option<Vec<u8>>)
    requires
        from <= t@.len(),
    ensures
        opt_bytes(r) == unbase64(t@.subrange(from as int, t@.len() as int)),
{
    let mut out: Vec<u8> = Vec::new();
    let mut i: usize = from;
    assert(out@ + t@.subrange(from as int, t@.len() as int).subrange(0, 0) =~= out@);
    while t.len() - i >= 4
        invariant
            from <= i <= t@.len(),
            unbase64(t@.subrange(from as int, t@.len() as int)) == prepend(
                out@,
                unbase64(t@.subrange(i as int, t@.len() as int)),
            ),
        decreases t@.len() - i,
    {
        let ghost rest = t@.subrange(i as int, t@.len() as int);
        let ghost next = t@.subrange(i + 4, t@.len() as int);
        assert(rest.subrange(4, rest.len() as int) =~= next);
        match (sextet(t[i]), sextet(t[i + 1]), sextet(t[i + 2]), sextet(t[i + 3])) {
            (Some(s0), Some(s1), Some(s2), Some(s3)) => {
                let ghost before = out@;
                let ghost g = join_quad(s0, s1, s2, s3);
                out.push((s0 << 2) | (s1 >> 4));
                out.push((s1 << 4) | (s2 >> 2));
                out.push((s2 << 6) | s3);
                assert(out@ =~= before + g);
                proof {
                    if let Some(x) = unbase64(next) {
                        assert(before + (g + x) =~= out@ + x);
                    }
                }
                i = i + 4;
            },
            _ => {
                return None;
            },
        }
    }
    let ghost rest = t@.subrange(i as int, t@.len() as int);
    let n: usize = t.len() - i;
    if n == 0 {
        assert(out@ + seq![] =~= out@);
        Some(out)
    } else if n == 1 {
        None
    } else if n == 2 {
        match (sextet(t[i]), sextet(t[i + 1])) {
            (Some(s0), Some(s1)) => {
                if s1 & 15 == 0 {
                    let ghost before = out@;
                    out.push((s0 << 2) | (s1 >> 4));
                    assert(out@ =~= before + seq![(s0 << 2) | (s1 >> 4)]);
                    Some(out)
                } else {
                    None
                }
            },
            _ => None,
        }
    } else {
        match (sextet(t[i]), sextet(t[i + 1]), sextet(t[i + 2])) {
            (Some(s0), Some(s1), Some(s2)) => {
                if s2 & 3 == 0 {
                    let ghost before = out@;
                    out.push((s0 << 2) | (s1 >> 4));
                    out.push((s1 << 4) | (s2 >> 2));
                    assert(out@ =~= before + seq![(s0 << 2) | (s1 >> 4), (s1 << 4) | (s2 >> 2)]);
                    Some(out)
                } else {
                    None
                }
            },
            _ => None,
        }
    }
}

/// Reads back the SHA2-256 digest named by base-64 multibase text of a CIDv1
/// of raw content; `None` where the text is not such an identifier.
pub fn digest_from_multibase(text: &str) -> (r: Option<Vec<u8>>)
    ensures
        opt_bytes(r) == digest_of_text(text.spec_bytes()),
{
    let t = text.as_bytes();
    if t.len() < 1 || t[0] != BASE64_PREFIX {
        return None;
    }
    match unbase64_from(t, 1) {
        None => None,
        Some(b) => {
            if b.len() >= 4 && b[0] as u64 == CID_VERSION && b[1] as u64 == RAW_CODEC && b[2] as u64
                == SHA2_256 && b[3] as usize == b.len() - 4 {
                let mut digest: Vec<u8> = Vec::new();
                let mut k: usize = 4;
                while k < b.len()
                    invariant
                        4 <= k <= b@.len(),
                        digest@ =~= b@.subrange(4, k as int),
                    decreases b@.len() - k,
                {
                    digest.push(b[k]);
                    k = k + 1;
                }
                Some(digest)
            } else {
                None
            }
        },
    }
}

/// The UTF-8 bytes of ASCII text are its codes.
pub proof fn lemma_ascii_text_bytes(b: Seq<u8>)
    requires
        forall|i: int| 0 <= i < b.len() ==> #[trigger] b[i] < 128,
    ensures
        encode_utf8(ascii_text(b)) == b,
{
    let c = ascii_text(b);
    assert forall|i: int| 0 <= i < c.len() implies '\0' <= #[trigger] c[i] <= '\u{7f}' by {
        assert(c[i] == b[i] as char);
    }
    is_ascii_chars_encode_utf8(c);
    assert forall|i: int| 0 <= i < b.len() implies #[trigger] encode_utf8(c)[i] == b[i] by {
        assert(c[i] == b[i] as char);
        assert(c[i] as u8 == encode_utf8(c)[i]);
    }
    assert(encode_utf8(c) =~= b);
}

/// The UTF-8 bytes of the text that names a digest are its multibase ASCII codes.
pub proof fn lemma_digest_text_bytes(digest: Seq<u8>)
    ensures
        encode_utf8(digest_text(digest)) == multibase_base64(raw_sha256_layout(digest)),
{
    let b = raw_sha256_layout(digest);
    let t = multibase_base64(b);
    lemma_base64_ascii(b);
    assert forall|i: int| 0 <= i < t.len() implies #[trigger] t[i] < 128 by {
        if i > 0 {
            assert(t[i] == base64_spec(b)[i - 1]);
        }
    }
    lemma_ascii_text_bytes(t);
}

} // verus!
