//! Random bytes and numbers.

use rand::{Rng, RngExt, TryRng};
use vstd::prelude::*;

verus! {

/// `rand::Rng::fill_bytes` of the thread's generator: writes random bytes over the slice.
/// Which bytes they are is left to chance.
#[verifier::external_body]
pub(crate) fn fill_bytes(bytes: &mut [u8])
    ensures
        final(bytes)@.len() == old(bytes)@.len(),
{
    rand::rng().fill_bytes(bytes)
}

/// `rand::TryRng::try_fill_bytes` of the system's generator: writes random bytes over the slice.
/// Returns `false` if the system provides none. Which bytes they are is left to chance.
#[verifier::external_body]
pub(crate) fn fill_from_system(bytes: &mut [u8]) -> (r: bool)
    ensures
        final(bytes)@.len() == old(bytes)@.len(),
{
    rand::rngs::SysRng.try_fill_bytes(bytes).is_ok()
}

/// `rand::RngExt::random` of the thread's generator: a random byte.
/// Which byte it is, is left to chance.
#[verifier::external_body]
pub(crate) fn byte() -> u8 {
    rand::rng().random()
}

/// `rand::RngExt::random_range` of the thread's generator: a random number of the range,
/// both ends of which belong to it. Which number it is, is left to chance.
#[verifier::external_body]
pub(crate) fn in_range(low: usize, high: usize) -> (r: usize)
    requires
        low <= high,
    ensures
        low <= r <= high,
{
    rand::rng().random_range(low..=high)
}

/// Returns `length` random bytes.
pub(crate) fn octets(length: usize) -> (r: Vec<u8>)
    ensures
        r@.len() == length,
{
    let mut out: Vec<u8> = Vec::new();
    out.resize(length, 0);
    fill_bytes(out.as_mut_slice());
    out
}

} // verus!
