//! Bytes from the system's source of randomness.
use vstd::prelude::*;

verus! {

/// `getrandom::fill` on `n` bytes. Nothing is promised of the bytes but their
/// number; they may be anything, also where the source of randomness fails.
#[verifier::external_body]
pub(crate) fn random_bytes(n: usize) -> (r: Vec<u8>)
    ensures
        r@.len() == n,
{
    let mut bytes = vec![0u8; n];
    let _ = getrandom::fill(&mut bytes);
    bytes
}

} // verus!
