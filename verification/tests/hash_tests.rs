use md4::{Digest, Md4};
use tetsu::hash::ed2k_hash;

const CHUNK: usize = 9_728_000;

fn hex(bytes: &[u8]) -> String {
    let mut s = String::new();
    for b in bytes {
        s.push_str(&format!("{:02x}", b));
    }
    s
}

fn double_digest(bytes: &[u8]) -> String {
    let inner = Md4::digest(bytes);
    hex(&Md4::digest(inner.as_slice()))
}

#[test]
fn hash_is_deterministic() {
    let data = b"some media file content".to_vec();
    let first = ed2k_hash(&data);
    let second = ed2k_hash(&data);
    assert_eq!(first, second);
    assert_eq!(first.len(), 32);
    assert!(first.chars().all(|c| c.is_ascii_hexdigit() && !c.is_ascii_uppercase()));
}

#[test]
fn empty_file_hashes_digest_of_empty_buffer() {
    // Zero chunks: the outer digest runs over an empty buffer of chunk
    // digests, giving the well-known MD4 of the empty input.
    assert_eq!(ed2k_hash(&[]), "31d6cfe0d16ae931b73c59d7e0c089c0");
}

#[test]
fn small_file_undergoes_both_digest_steps() {
    let data = b"hello".to_vec();
    let got = ed2k_hash(&data);
    // Digest of digest, never the single-level digest.
    assert_eq!(got, double_digest(&data));
    assert_ne!(got, hex(&Md4::digest(&data)));
}

#[test]
fn exact_chunk_boundary_has_no_empty_trailing_chunk() {
    let data = vec![0xabu8; CHUNK];
    let got = ed2k_hash(&data);
    // One full chunk: the double digest of the whole content.
    assert_eq!(got, double_digest(&data));
    // Not the variant that appends a digest of a fabricated empty chunk.
    let with_empty_tail = {
        let d0 = Md4::digest(&data);
        let d1 = Md4::digest(b"");
        let mut buf = d0.to_vec();
        buf.extend_from_slice(&d1);
        hex(&Md4::digest(&buf))
    };
    assert_ne!(got, with_empty_tail);
}

#[test]
fn chunk_digests_concatenate_in_order() {
    let mut data = vec![0x5au8; CHUNK + 5];
    for (i, b) in data.iter_mut().enumerate() {
        *b = (i % 251) as u8;
    }
    let got = ed2k_hash(&data);
    let d0 = Md4::digest(&data[..CHUNK]);
    let d1 = Md4::digest(&data[CHUNK..]);
    let mut buf = d0.to_vec();
    buf.extend_from_slice(&d1);
    assert_eq!(got, hex(&Md4::digest(&buf)));
    // The reversed concatenation gives a different identifier: order in the
    // final buffer matters.
    let mut rev = d1.to_vec();
    rev.extend_from_slice(&d0);
    assert_ne!(got, hex(&Md4::digest(&rev)));
}
