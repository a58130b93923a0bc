//! Fingerprints: the SHA-256 digest of a text, written in hexadecimal.

use sha2::{Digest, Sha256};
use vstd::prelude::*;
use vstd::string::*;
use vstd::utf8::*;

use super::text::{hex, hex_string, lemma_hex_len};

verus! {

/// The number of characters of a fingerprint: two for each of the 32 bytes
/// of a SHA-256 digest.
pub const FINGERPRINT_LENGTH: usize = 64;

/// The SHA-256 digest of a byte sequence.
pub uninterp spec fn sha256(data: Seq<u8>) -> Seq<u8>;

/// Calls `Sha256::digest` of the `sha2` crate on `data`.
///
/// Trusted, not proved: the bytes returned are the SHA-256 digest of `data`,
/// and there are always 32 of them.
#[verifier::external_body]
fn sha256_digest(data: &[u8]) -> (digest: Vec<u8>)
    ensures
        digest@ == sha256(data@),
        digest@.len() == 32,
{
    Sha256::digest(data).to_vec()
}

/// The fingerprint of a text: the SHA-256 digest of its UTF-8 encoding, in
/// lower-case hexadecimal.
pub open spec fn fingerprint_of(text: Seq<char>) -> Seq<char> {
    hex(sha256(encode_utf8(text)))
}

/// Computes the fingerprint of `text`, which is 64 characters long.
pub fn fingerprint(text: &str) -> (digest: String)
    ensures
        digest@ == fingerprint_of(text@),
        digest@.len() == FINGERPRINT_LENGTH,
{
    let bytes = sha256_digest(text.as_bytes());
    proof {
        lemma_hex_len(bytes@);
    }
    hex_string(bytes.as_slice())
}

} // verus!
