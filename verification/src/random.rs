//! Randomness.

use vstd::prelude::*;

verus! {

/// A random number.
///
/// `rand::random`. Nothing is claimed of the result: any number can come.
#[verifier::external_body]
pub(crate) fn random_u64() -> u64 {
    rand::random::<u64>()
}

/// Thirty random bytes.
///
/// `rand::fill`. Nothing is claimed of the result: any bytes can come.
#[verifier::external_body]
pub(crate) fn random_key() -> [u8; 30] {
    let mut key = [0u8; 30];
    rand::fill(&mut key);
    key
}

} // verus!
