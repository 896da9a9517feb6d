//! Hashing of vault names with BLAKE3.

use vstd::prelude::*;
use vstd::string::StringSliceAdditionalSpecFns;
use vstd::utf8::encode_utf8;

verus! {

/// The BLAKE3 digest of `input`, as the `blake3` crate computes it. The digest
/// is a function of the input alone; it is always 32 bytes long.
pub uninterp spec fn blake3_digest(input: Seq<u8>) -> Seq<u8>;

/// Calls `blake3::hash` and copies the digest out of the returned `Hash`.
///
/// Trusted: the result is the digest that `blake3_digest` names.
#[verifier::external_body]
fn digest(bytes: &[u8]) -> (out: [u8; 32])
    ensures
        out@ == blake3_digest(bytes@),
{
    ::blake3::hash(bytes).as_bytes().to_owned()
}

/// Hashes the UTF-8 encoding of `text`.
pub fn hash_str(text: &str) -> (out: [u8; 32])
    ensures
        out@ == blake3_digest(encode_utf8(text@)),
{
    digest(text.as_bytes())
}

/// Hashes `bytes`.
pub fn hash_bytes(bytes: &[u8]) -> (out: [u8; 32])
    ensures
        out@ == blake3_digest(bytes@),
{
    digest(bytes)
}

} // verus!
