//! The content-hash engine: a two-level chunked digest over a file's bytes.
//!
//! The file is split into fixed-size chunks (the last one may be shorter and
//! is not padded), each chunk gets a 16-byte MD4 digest, the digests are
//! concatenated in chunk order, and one more MD4 digest over that buffer is
//! the content identifier, rendered as 32 lowercase hex characters.

use vstd::prelude::*;
use vstd::slice::slice_subrange;
use md4::Digest;

verus! {

/// Size of one hash chunk in bytes.
pub const CHUNK_SIZE: usize = 9728000;

/// The 16-byte MD4 digest of a byte sequence. The digest is a pure function
/// of the input bytes; its value is not restated here.
pub uninterp spec fn md4_of(bytes: Seq<u8>) -> Seq<u8>;

/// Relies on md4::Md4::digest: returns the 16-byte MD4 digest of the input,
/// which depends on the input bytes alone.
#[verifier::external_body]
fn md4_digest(bytes: &[u8]) -> (r: Vec<u8>)
    ensures
        r@ == md4_of(bytes@),
        r@.len() == 16,
{
    md4::Md4::digest(bytes).to_vec()
}

/// The ASCII code of the lowercase hex digit for a nibble.
pub open spec fn hex_digit(n: u8) -> u8 {
    if n < 10 {
        (n + 48) as u8
    } else {
        (n + 87) as u8
    }
}

/// The ASCII codes of the lowercase hex rendering of a byte sequence,
/// two digits per byte, in order.
pub open spec fn hex_bytes(s: Seq<u8>) -> Seq<u8>
    decreases s.len(),
{
    if s.len() == 0 {
        Seq::empty()
    } else {
        hex_bytes(s.drop_last()) + seq![hex_digit(s.last() / 16), hex_digit(s.last() % 16)]
    }
}

/// The characters spelled by a sequence of ASCII codes.
pub open spec fn ascii_chars(s: Seq<u8>) -> Seq<char> {
    s.map_values(|b: u8| b as char)
}

/// The lowercase hex string of a byte sequence, as characters.
pub open spec fn hex_string(s: Seq<u8>) -> Seq<char> {
    ascii_chars(hex_bytes(s))
}

/// How many chunks a file of `len` bytes falls into: zero for an empty
/// file, otherwise the rounded-up quotient. A length that is an exact
/// multiple of the chunk size yields no empty trailing chunk.
pub open spec fn chunk_count(len: int) -> int {
    if len == 0 {
        0
    } else {
        (len - 1) / (CHUNK_SIZE as int) + 1
    }
}

/// The `i`-th chunk of a byte sequence.
pub open spec fn chunk_at(bytes: Seq<u8>, i: int) -> Seq<u8> {
    let start = i * (CHUNK_SIZE as int);
    let end = if start + (CHUNK_SIZE as int) <= bytes.len() {
        start + (CHUNK_SIZE as int)
    } else {
        bytes.len() as int
    };
    bytes.subrange(start, end)
}

/// The concatenation, in chunk order, of the digests of the first `n` chunks.
pub open spec fn digest_concat(bytes: Seq<u8>, n: int) -> Seq<u8>
    decreases n,
{
    if n <= 0 {
        Seq::empty()
    } else {
        digest_concat(bytes, n - 1) + md4_of(chunk_at(bytes, n - 1))
    }
}

/// The content identifier of a byte sequence: the lowercase hex rendering
/// of the digest of the concatenated per-chunk digests.
pub open spec fn ed2k_spec(bytes: Seq<u8>) -> Seq<char> {
    hex_string(md4_of(digest_concat(bytes, chunk_count(bytes.len() as int))))
}

/// Relies on String::from_utf8: a vector of ASCII bytes decodes to the
/// string whose characters have those code points.
#[verifier::external_body]
fn ascii_string(bytes: Vec<u8>) -> (r: String)
    requires
        forall|i: int| 0 <= i < bytes@.len() ==> bytes@[i] < 128,
    ensures
        r@ == ascii_chars(bytes@),
{
    String::from_utf8(bytes).unwrap_or_default()
}

proof fn lemma_hex_bytes_len(s: Seq<u8>)
    ensures
        hex_bytes(s).len() == 2 * s.len(),
    decreases s.len(),
{
    if s.len() > 0 {
        lemma_hex_bytes_len(s.drop_last());
    }
}

proof fn lemma_hex_bytes_ascii(s: Seq<u8>)
    ensures
        forall|i: int| 0 <= i < hex_bytes(s).len() ==> hex_bytes(s)[i] < 128,
    decreases s.len(),
{
    if s.len() > 0 {
        lemma_hex_bytes_ascii(s.drop_last());
        let pre = hex_bytes(s.drop_last());
        assert forall|i: int| 0 <= i < hex_bytes(s).len() implies hex_bytes(s)[i] < 128 by {
            if i < pre.len() {
                assert(hex_bytes(s)[i] == pre[i]);
            }
        }
    }
}

/// Renders bytes as lowercase hex, two digits per byte.
fn to_hex_lower(bytes: &Vec<u8>) -> (r: String)
    ensures
        r@ == hex_string(bytes@),
        r@.len() == 2 * bytes@.len(),
{
    let mut out: Vec<u8> = Vec::new();
    let mut i: usize = 0;
    while i < bytes.len()
        invariant
            i <= bytes@.len(),
            out@ == hex_bytes(bytes@.subrange(0, i as int)),
        decreases bytes@.len() - i,
    {
        let b = bytes[i];
        let hi = b / 16;
        let lo = b % 16;
        out.push(if hi < 10 { hi + 48 } else { hi + 87 });
        out.push(if lo < 10 { lo + 48 } else { lo + 87 });
        proof {
            let pre = bytes@.subrange(0, i as int);
            let cur = bytes@.subrange(0, i + 1);
            assert(cur.drop_last() =~= pre);
            assert(cur.last() == bytes@[i as int]);
        }
        i += 1;
    }
    proof {
        assert(bytes@.subrange(0, bytes@.len() as int) =~= bytes@);
        lemma_hex_bytes_len(bytes@);
        lemma_hex_bytes_ascii(bytes@);
    }
    ascii_string(out)
}

/// Computes the content identifier of a byte sequence: MD4 over each
/// fixed-size chunk, then MD4 over the concatenated chunk digests, rendered
/// as 32 lowercase hex characters. A file that fits in a single chunk still
/// goes through both digest steps.
pub fn ed2k_hash(bytes: &[u8]) -> (r: String)
    ensures
        r@ == ed2k_spec(bytes@),
        r@.len() == 32,
{
    let len = bytes.len();
    let n: usize = if len == 0 {
        0
    } else {
        (len - 1) / CHUNK_SIZE + 1
    };
    let mut digests: Vec<u8> = Vec::new();
    let mut i: usize = 0;
    while i < n
        invariant
            i <= n,
            n == chunk_count(bytes@.len() as int),
            len == bytes@.len(),
            digests@ == digest_concat(bytes@, i as int),
        decreases n - i,
    {
        proof {
            assert((i as int) * (CHUNK_SIZE as int) <= ((n - 1) as int) * (CHUNK_SIZE as int))
                by (nonlinear_arith)
                requires
                    i <= n - 1,
            ;
            assert(((n - 1) as int) * (CHUNK_SIZE as int) <= bytes@.len() - 1) by (nonlinear_arith)
                requires
                    n == chunk_count(bytes@.len() as int),
                    n >= 1,
                    bytes@.len() >= 1,
            ;
        }
        let start = i * CHUNK_SIZE;
        let end = if len - start >= CHUNK_SIZE {
            start + CHUNK_SIZE
        } else {
            len
        };
        let mut d = md4_digest(slice_subrange(bytes, start, end));
        proof {
            assert(bytes@.subrange(start as int, end as int) =~= chunk_at(bytes@, i as int));
        }
        digests.append(&mut d);
        i += 1;
    }
    let root = md4_digest(digests.as_slice());
    to_hex_lower(&root)
}

/// The identifier is a function of the file's bytes alone: equal byte
/// content gives the identical identifier on every run, however the chunk
/// digests were scheduled, since only their order in the final
/// concatenation enters the result.
pub proof fn lemma_hash_deterministic(a: Seq<u8>, b: Seq<u8>)
    requires
        a == b,
    ensures
        ed2k_spec(a) == ed2k_spec(b),
{
}

proof fn lemma_digest_concat_congruent(a: Seq<u8>, b: Seq<u8>, n: int)
    requires
        forall|i: int| 0 <= i < n ==> md4_of(chunk_at(a, i)) == md4_of(chunk_at(b, i)),
    ensures
        digest_concat(a, n) == digest_concat(b, n),
    decreases n,
{
    if n > 0 {
        lemma_digest_concat_congruent(a, b, n - 1);
    }
}

/// Only the per-chunk digests, taken in chunk order, enter the identifier:
/// two files with the same chunk count and equal chunk digests at every
/// position have the same identifier. How the per-chunk work is scheduled
/// cannot matter, since nothing but this ordered sequence is consumed.
pub proof fn lemma_hash_from_ordered_chunk_digests(a: Seq<u8>, b: Seq<u8>)
    requires
        chunk_count(a.len() as int) == chunk_count(b.len() as int),
        forall|i: int|
            0 <= i < chunk_count(a.len() as int) ==> md4_of(chunk_at(a, i)) == md4_of(
                chunk_at(b, i),
            ),
    ensures
        ed2k_spec(a) == ed2k_spec(b),
{
    lemma_digest_concat_congruent(a, b, chunk_count(a.len() as int));
}

/// A file of exactly one chunk size falls into exactly one chunk: the
/// remainder handling fabricates no empty trailing chunk, and the result
/// is the plain double digest of the whole content.
pub proof fn lemma_exact_chunk_boundary(b: Seq<u8>)
    requires
        b.len() == CHUNK_SIZE,
    ensures
        chunk_count(b.len() as int) == 1,
        ed2k_spec(b) == hex_string(md4_of(md4_of(b))),
{
    lemma_small_file_double_digest(b);
}

/// A file no larger than one chunk still undergoes both digest steps: the
/// identifier is the digest of the digest of the whole content, never a
/// single-level digest.
pub proof fn lemma_small_file_double_digest(b: Seq<u8>)
    requires
        0 < b.len() <= CHUNK_SIZE,
    ensures
        chunk_count(b.len() as int) == 1,
        ed2k_spec(b) == hex_string(md4_of(md4_of(b))),
{
    assert(chunk_at(b, 0) =~= b);
    assert(digest_concat(b, 0) =~= Seq::<u8>::empty());
    assert(digest_concat(b, 1) =~= Seq::<u8>::empty() + md4_of(b));
    assert(Seq::<u8>::empty() + md4_of(b) =~= md4_of(b));
}

} // verus!
