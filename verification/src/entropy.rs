//! Randomness from the `rand` crate.

use rand::Rng;
use vstd::prelude::*;

verus! {

/// One byte from the thread-local generator: `rand::thread_rng().gen::<u8>()`.
/// Nothing is stated of its value.
#[verifier::external_body]
pub(crate) fn random_byte() -> (b: u8) {
    rand::thread_rng().gen::<u8>()
}

/// A coin flip: `rand::random::<bool>()`. Nothing is stated of its value.
#[verifier::external_body]
pub(crate) fn random_bool() -> (b: bool) {
    rand::random::<bool>()
}

/// `n` random bytes.
pub fn random_bytes(n: usize) -> (bytes: Vec<u8>)
    ensures
        bytes@.len() == n,
{
    let mut bytes: Vec<u8> = Vec::new();
    let mut i: usize = 0;
    while i < n
        invariant
            i <= n,
            bytes@.len() == i,
        decreases n - i,
    {
        bytes.push(random_byte());
        i = i + 1;
    }
    bytes
}

} // verus!
