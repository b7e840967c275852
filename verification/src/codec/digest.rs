//! SHA-256 digests and how they are written.

use ::sha2::{Digest, Sha256};
use vstd::prelude::*;

verus! {

/// The SHA-256 digest of bytes.
pub uninterp spec fn sha256_of(bytes: Seq<u8>) -> Seq<u8>;

/// A hexadecimal digit in lower case.
pub open spec fn hex_digit(n: int) -> char {
    if n < 10 {
        ((48 + n) as u32) as char
    } else {
        ((87 + n) as u32) as char
    }
}

/// Bytes in hexadecimal, two digits each.
pub open spec fn hex_text(bytes: Seq<u8>) -> Seq<char>
    decreases bytes.len(),
{
    if bytes.len() == 0 {
        Seq::empty()
    } else {
        hex_text(bytes.drop_last()) + seq![
            hex_digit(bytes.last() as int / 16),
            hex_digit(bytes.last() as int % 16),
        ]
    }
}

/// `sha2::Sha256::digest`. It is trusted that the digest depends on the bytes
/// alone and has 32 bytes.
#[verifier::external_body]
pub(crate) fn sha256(bytes: &Vec<u8>) -> (r: Vec<u8>)
    ensures
        r@ == sha256_of(bytes@),
        r@.len() == 32,
{
    Sha256::digest(bytes).to_vec()
}

/// `hex::encode`. It is trusted to write each byte, in order, as two hexadecimal
/// digits in lower case, the high one first.
#[verifier::external_body]
pub(crate) fn hex(bytes: &Vec<u8>) -> (r: String)
    ensures
        r@ == hex_text(bytes@),
{
    ::hex::encode(bytes)
}

/// The name of a digest.
pub open spec fn digest_name(digest: Seq<u8>) -> Seq<char> {
    "sha256:"@ + hex_text(digest)
}

/// Writes the name of a digest.
pub fn name_digest(digest: &Vec<u8>) -> (r: String)
    ensures
        r@ == digest_name(digest@),
{
    let mut r = "sha256:".to_string();
    r.append(hex(digest).as_str());
    r
}

} // verus!
