//! Content identity: the lowercase hex BLAKE3 digest of a file's bytes.

use vstd::prelude::*;

verus! {

/// The lowercase hex BLAKE3 digest of the bytes.
pub uninterp spec fn blake3_hex(data: Seq<u8>) -> Seq<char>;

/// A lowercase hexadecimal digit.
pub open spec fn is_lower_hex(c: char) -> bool {
    ('0' <= c && c <= '9') || ('a' <= c && c <= 'f')
}

/// Relies on `blake3::hash` and `Hash::to_hex`: 32 digest bytes written as
/// 64 lowercase hex digits.
#[verifier::external_body]
fn blake3_digest_hex(data: &[u8]) -> (r: String)
    ensures
        r@ == blake3_hex(data@),
        r@.len() == 64,
        forall|i: int| 0 <= i < r@.len() ==> is_lower_hex(#[trigger] r@[i]),
{
    blake3::hash(data).to_hex().to_string()
}

/// The content hash of a file: the lowercase hex BLAKE3 digest of all its
/// bytes, 64 characters long.
pub fn hash_content(data: &[u8]) -> (r: String)
    ensures
        r@ == blake3_hex(data@),
        r@.len() == 64,
        forall|i: int| 0 <= i < r@.len() ==> is_lower_hex(#[trigger] r@[i]),
{
    blake3_digest_hex(data)
}

/// The content hash depends on the bytes alone: identical bytes give
/// identical hashes, whenever and wherever they are hashed.
pub proof fn lemma_hash_stable(a: Seq<u8>, b: Seq<u8>)
    requires
        a == b,
    ensures
        blake3_hex(a) == blake3_hex(b),
        blake3_hex(a).len() == 64 ==> blake3_hex(b).len() == 64,
{
}

} // verus!
