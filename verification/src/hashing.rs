//! The keccak-256 digest used for Merkle leaves and inner nodes, and byte-wise
//! equality of 32-byte values.

use vstd::prelude::*;

verus! {

/// The keccak-256 digest of a byte sequence. The digest itself is left
/// unspecified: the contracts of this crate only rely on it being a function
/// of the input bytes.
pub uninterp spec fn keccak_of(bytes: Seq<u8>) -> Seq<u8>;

/// Relies on solana_program::keccak::hashv: it returns the keccak-256 digest
/// of the concatenation of the input slices, a function of those bytes alone,
/// packed into a 32-byte array.
#[verifier::external_body]
pub fn keccak_concat(a: &[u8], b: &[u8]) -> (r: [u8; 32])
    ensures
        r@ == keccak_of(a@ + b@),
{
    solana_program::keccak::hashv(&[a, b]).to_bytes()
}

/// Thirty-two zero bytes: the content of a key or root field that has not
/// been assigned yet.
pub open spec fn zeroed32() -> Seq<u8> {
    Seq::new(32, |i: int| 0u8)
}

/// Whether two 32-byte values hold the same bytes.
pub fn bytes32_eq(a: &[u8; 32], b: &[u8; 32]) -> (r: bool)
    ensures
        r <==> a@ == b@,
{
    let mut i: usize = 0;
    while i < 32
        invariant
            i <= 32,
            forall|j: int| 0 <= j < i ==> a@[j] == b@[j],
        decreases 32 - i,
    {
        if a[i] != b[i] {
            assert(a@ != b@);
            return false;
        }
        i += 1;
    }
    assert(a@ =~= b@);
    true
}

} // verus!
