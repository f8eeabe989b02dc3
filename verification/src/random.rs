//! Draws from the thread-local random number generator of `rand`.
use rand::Rng;
use vstd::prelude::*;

verus! {

/// A random `u64` from `rand::thread_rng().gen()`.
///
/// The value is drawn by chance, so nothing is stated of it.
#[verifier::external_body]
pub(crate) fn random_u64() -> u64 {
    rand::thread_rng().gen::<u64>()
}

/// 32 random bytes from `rand::random`.
///
/// The value is drawn by chance, so nothing is stated of it.
#[verifier::external_body]
pub(crate) fn random_bytes32() -> [u8; 32] {
    rand::random::<[u8; 32]>()
}

} // verus!
