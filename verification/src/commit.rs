//! The cryptographic binding of the commit-reveal scheme.
//!
//! At setup the creator publishes the Keccak-256 digest of the little-endian
//! encodings of a secret `(max_score, salt)` pair. At settlement the pair is
//! revealed and the digest is recomputed; it must equal the published one byte
//! for byte, or no value moves.

use vstd::prelude::*;
use vstd::bytes::{
    lemma_auto_spec_u64_to_from_le_bytes, spec_u64_from_le_bytes, spec_u64_to_le_bytes,
    u64_to_le_bytes,
};

verus! {

/// The Keccak-256 digest of a byte sequence; it depends on the bytes alone.
pub uninterp spec fn keccak_of(data: Seq<u8>) -> Seq<u8>;

/// The byte string a commitment binds: the little-endian bytes of `max_score`
/// followed by the little-endian bytes of `salt`.
pub open spec fn commit_input(max_score: u64, salt: u64) -> Seq<u8> {
    spec_u64_to_le_bytes(max_score) + spec_u64_to_le_bytes(salt)
}

/// Relies on `solana_program::keccak::hashv`: returns the 32-byte Keccak-256
/// digest of the concatenation of the given slices, a function of the bytes
/// alone.
#[verifier::external_body]
fn keccak256(data: &[u8]) -> (r: [u8; 32])
    ensures
        r@ == keccak_of(data@),
{
    #[allow(deprecated)]
    solana_program::keccak::hashv(&[data]).to_bytes()
}

/// The digest that binds a creator to a secret `(max_score, salt)` pair:
/// published at setup as the game's commitment and recomputed at settlement
/// from the revealed pair.
pub fn make_commitment(max_score: u64, salt: u64) -> (r: [u8; 32])
    ensures
        r@ == keccak_of(commit_input(max_score, salt)),
{
    let mut data = u64_to_le_bytes(max_score);
    let mut tail = u64_to_le_bytes(salt);
    data.append(&mut tail);
    proof {
        assert(data@ == commit_input(max_score, salt));
    }
    keccak256(data.as_slice())
}

/// Byte-for-byte comparison of two 32-byte digests.
pub(crate) fn bytes32_eq(a: &[u8; 32], b: &[u8; 32]) -> (r: bool)
    ensures
        r <==> a@ == b@,
{
    let mut i: usize = 0;
    while i < 32
        invariant
            0 <= i <= 32,
            forall|k: int| 0 <= k < i ==> a@[k] == b@[k],
        decreases 32 - i,
    {
        if a[i] != b[i] {
            return false;
        }
        i = i + 1;
    }
    proof {
        assert(a@ =~= b@);
    }
    true
}

/// Equal commitment inputs reveal equal secret pairs: the encoding is
/// injective, so changing either revealed value changes the byte string whose
/// digest is checked at settlement.
pub proof fn lemma_commit_input_injective(ms1: u64, salt1: u64, ms2: u64, salt2: u64)
    requires
        commit_input(ms1, salt1) == commit_input(ms2, salt2),
    ensures
        ms1 == ms2,
        salt1 == salt2,
{
    lemma_auto_spec_u64_to_from_le_bytes();
    let a = commit_input(ms1, salt1);
    let b = commit_input(ms2, salt2);
    assert(spec_u64_to_le_bytes(ms1) =~= a.subrange(0, 8));
    assert(spec_u64_to_le_bytes(salt1) =~= a.subrange(8, 16));
    assert(spec_u64_to_le_bytes(ms2) =~= b.subrange(0, 8));
    assert(spec_u64_to_le_bytes(salt2) =~= b.subrange(8, 16));
    assert(ms1 == spec_u64_from_le_bytes(spec_u64_to_le_bytes(ms1)));
    assert(salt1 == spec_u64_from_le_bytes(spec_u64_to_le_bytes(salt1)));
}

} // verus!
