//! FNV-1a 64, the hash the game's saves and fingerprints are written
//! against.
use vstd::prelude::*;

use crate::fingerprint::{fnv_mix, FNV_OFFSET, FNV_PRIME};

verus! {

/// FNV-1a 64 over `bytes`, from state `h`.
pub open spec fn spec_fnv1a_from(h: u64, bytes: Seq<u8>) -> u64
    decreases bytes.len(),
{
    if bytes.len() == 0 {
        h
    } else {
        fnv_mix(spec_fnv1a_from(h, bytes.drop_last()), bytes.last())
    }
}

pub open spec fn spec_fnv1a(bytes: Seq<u8>) -> u64 {
    spec_fnv1a_from(FNV_OFFSET, bytes)
}

/// FNV-1a 64 of `bytes`.
pub fn fnv1a(bytes: &[u8]) -> (r: u64)
    ensures
        r == spec_fnv1a(bytes@),
{
    let mut hash: u64 = FNV_OFFSET;
    let mut k: usize = 0;
    while k < bytes.len()
        invariant
            k <= bytes@.len(),
            hash == spec_fnv1a_from(FNV_OFFSET, bytes@.take(k as int)),
        decreases bytes@.len() - k,
    {
        proof {
            assert(bytes@.take(k + 1).drop_last() =~= bytes@.take(k as int));
        }
        hash = (hash ^ (bytes[k] as u64)).wrapping_mul(FNV_PRIME);
        k = k + 1;
    }
    proof {
        assert(bytes@.take(k as int) =~= bytes@);
    }
    hash
}

} // verus!
