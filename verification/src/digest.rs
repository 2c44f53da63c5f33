//! Digests of byte strings, in lower-case hexadecimal.
use sha1::Sha1;
use sha2::Digest;
use sha2::Sha256;
use vstd::prelude::*;

verus! {

/// The SHA-1 digest of the bytes, in lower-case hexadecimal.
pub uninterp spec fn sha1_hex(data: Seq<u8>) -> Seq<char>;

/// The SHA-256 digest of the bytes, in lower-case hexadecimal.
pub uninterp spec fn sha256_hex(data: Seq<u8>) -> Seq<char>;

/// Digests the bytes with `Sha1::digest` and writes the result with two
/// hexadecimal digits for each of its twenty bytes. The digits are a function
/// of the bytes alone.
#[verifier::external_body]
pub(crate) fn sha1_digest(data: &[u8]) -> (r: String)
    ensures
        r@ == sha1_hex(data@),
{
    format!("{:x}", Sha1::digest(data))
}

/// Digests the bytes with `Sha256::digest` and writes the result with two
/// hexadecimal digits for each of its thirty-two bytes. The digits are a
/// function of the bytes alone.
#[verifier::external_body]
pub(crate) fn sha256_digest(data: &[u8]) -> (r: String)
    ensures
        r@ == sha256_hex(data@),
{
    format!("{:x}", Sha256::digest(data))
}

} // verus!
