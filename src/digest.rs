//! Content hashing: the digest that identifies a payload.
use vstd::prelude::*;
use sha2::Digest;

verus! {

/// The lowercase hexadecimal SHA-256 digest of a byte sequence.
pub uninterp spec fn sha256_hex(data: Seq<u8>) -> Seq<char>;

/// A lowercase hexadecimal digit.
pub open spec fn is_lower_hex_digit(c: char) -> bool {
    ('0' <= c && c <= '9') || ('a' <= c && c <= 'f')
}

/// Relies on `sha2::Sha256::digest`, formatted with `{:x}`: the digest of the
/// bytes alone, 32 bytes written as 64 lowercase hexadecimal digits.
#[verifier::external_body]
fn sha256_lower_hex(data: &[u8]) -> (r: String)
    ensures
        r@ == sha256_hex(data@),
        r@.len() == 64,
        forall|i: int| 0 <= i < 64 ==> is_lower_hex_digit(#[trigger] r@[i]),
{
    format!("{:x}", sha2::Sha256::digest(data))
}

/// Computes the content hash used as the deduplication key of a payload.
pub fn compute_hash(data: &[u8]) -> (r: String)
    ensures
        r@ == sha256_hex(data@),
        r@.len() == 64,
        forall|i: int| 0 <= i < 64 ==> is_lower_hex_digit(#[trigger] r@[i]),
{
    sha256_lower_hex(data)
}

} // verus!
