//! SHA-256 content hashes, rendered as hexadecimal text.

use sha2::Digest;
use vstd::prelude::*;
use crate::hex::{encode, hex_chars, lemma_hex_chars_ascii};

verus! {

/// The SHA-256 digest of a byte string, as computed by the `sha2` crate.
pub uninterp spec fn sha256(data: Seq<u8>) -> Seq<u8>;

/// Calls `sha2::Sha256::digest` on the whole input. The contract claims that
/// the output is the SHA-256 digest of exactly these bytes, and that it is
/// 32 bytes long (the hasher's fixed output size).
#[verifier::external_body]
fn sha256_digest(data: &[u8]) -> (out: Vec<u8>)
    ensures
        out@ == sha256(data@),
        out@.len() == 32,
{
    sha2::Sha256::digest(data).to_vec()
}

/// The content hash of a payload: 64 hexadecimal digits of its SHA-256 digest.
pub open spec fn content_hash_of(data: Seq<u8>) -> Seq<char> {
    hex_chars(sha256(data))
}

/// Computes the content hash of a payload.
pub fn content_hash(data: &[u8]) -> (hash: String)
    ensures
        hash@ == content_hash_of(data@),
        hash@.len() == 64,
{
    let digest = sha256_digest(data);
    proof {
        lemma_hex_chars_ascii(digest@);
    }
    encode(digest)
}

} // verus!
