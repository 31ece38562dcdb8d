//! Random numbers from the operating system's generators.

use vstd::prelude::*;

verus! {

/// A uniformly random number below `bound`.
///
/// Trusted: calls `rand::Rng::gen_range(0..bound)` on `rand::thread_rng()`;
/// the contract only says that the number lies in the range, which `rand`
/// documents (the range must not be empty, else `gen_range` panics).
#[verifier::external_body]
pub(crate) fn random_below(bound: u32) -> (r: u32)
    requires
        bound > 0,
    ensures
        r < bound,
{
    rand::Rng::gen_range(&mut rand::thread_rng(), 0..bound)
}

/// Fills a buffer with random bytes from the operating system.
///
/// Trusted: calls `rand::RngCore::fill_bytes` on `rand::rngs::OsRng`; the
/// contract only says that the length is unchanged.
#[verifier::external_body]
pub(crate) fn fill_random(buf: &mut [u8])
    ensures
        final(buf)@.len() == old(buf)@.len(),
{
    rand::RngCore::fill_bytes(&mut rand::rngs::OsRng, buf)
}

} // verus!
