//! The content digest of a file: BLAKE3 over its bytes, in lowercase hex.
use vstd::prelude::*;

use crate::hex::{encode_hex, hex_of, is_hex_digest, lemma_hex_chars};

verus! {

/// The 32-byte BLAKE3 hash of `data`.
pub uninterp spec fn blake3_of(data: Seq<u8>) -> Seq<u8>;

/// Relies on `blake3::hash`, a pure function of its input that returns the
/// 32 bytes of the default-length BLAKE3 hash.
#[verifier::external_body]
fn blake3_bytes(data: &[u8]) -> (r: [u8; 32])
    ensures
        r@ == blake3_of(data@),
{
    *blake3::hash(data).as_bytes()
}

/// The name a file with contents `content` receives, before its extension.
pub open spec fn digest_name(content: Seq<u8>) -> Seq<u8> {
    hex_of(blake3_of(content))
}

/// Hashes `content` and renders the digest in lowercase hex.
pub fn digest_hex(content: &[u8]) -> (r: Vec<u8>)
    ensures
        r@ == digest_name(content@),
        r@.len() == 64,
        is_hex_digest(r@),
{
    let h = blake3_bytes(content);
    proof {
        vstd::array::array_len_matches_n(&h);
        lemma_hex_chars(h@);
    }
    encode_hex(h.as_slice())
}

/// Hashing depends on the contents alone: equal contents give equal names.
pub proof fn lemma_digest_deterministic(a: Seq<u8>, b: Seq<u8>)
    requires
        a == b,
    ensures
        digest_name(a) == digest_name(b),
{
}

} // verus!
