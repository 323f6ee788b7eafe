//! BLAKE3, the digest every file is known by.

use vstd::prelude::*;

verus! {

/// The lowercase hex spelling of the BLAKE3 digest of `bytes`, as `blake3::hash(..).to_hex()`
/// writes it.
pub uninterp spec fn blake3_hex(bytes: Seq<u8>) -> Seq<char>;

/// Sixty-four lowercase hex digits: the shape of every hex digest.
pub open spec fn is_hex_digest(h: Seq<char>) -> bool {
    &&& h.len() == 64
    &&& forall|i: int| 0 <= i < 64 ==> ('0' <= #[trigger] h[i] <= '9' || 'a' <= h[i] <= 'f')
}

/// `blake3::hash(bytes).to_hex()`: the digest of `bytes`, named by [`blake3_hex`], which
/// `Hash::to_hex` writes as two lowercase hex digits per byte of the 32-byte digest.
#[verifier::external_body]
pub(crate) fn blake3_hex_of(bytes: &[u8]) -> (h: String)
    ensures
        h@ == blake3_hex(bytes@),
        is_hex_digest(h@),
{
    blake3::hash(bytes).to_hex().to_string()
}

} // verus!
