//! Checksums of files.

use crate::number::{hex, hex_text};
use sha2::{Digest, Sha256};
use vstd::prelude::*;

verus! {

/// The SHA-256 digest of `bytes`.
pub uninterp spec fn sha256(bytes: Seq<u8>) -> Seq<u8>;

/// `sha2::Sha256::digest`: the 32 bytes of the SHA-256 digest.
#[verifier::external_body]
fn sha256_digest(bytes: &Vec<u8>) -> (r: Vec<u8>)
    ensures
        r@ == sha256(bytes@),
        r@.len() == 32,
{
    Sha256::digest(bytes).to_vec()
}

/// The text by which contents are told apart.
pub open spec fn checksum_text(bytes: Seq<u8>) -> Seq<char> {
    hex(sha256(bytes))
}

/// The SHA-256 digest of a file's contents in hexadecimal.
pub fn compute_checksum(bytes: &Vec<u8>) -> (r: String)
    ensures
        r@ == checksum_text(bytes@),
{
    hex_text(&sha256_digest(bytes))
}

} // verus!
