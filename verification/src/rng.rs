//! Random draws for exploration, taken from the process-local generator.
//!
//! Each draw is handed to the algorithms as a plain value, so everything that
//! happens after a draw is verified for every value the draw can take.

use vstd::prelude::*;

verus! {

/// Relies on rand::Rng::gen_range over `0..n` on `rand::thread_rng()`:
/// the sample lies in the given range, which is non-empty here.
#[verifier::external_body]
pub fn random_index(n: usize) -> (r: usize)
    requires
        n >= 1,
    ensures
        r < n,
{
    rand::Rng::gen_range(&mut rand::thread_rng(), 0..n)
}

/// Relies on rand::Rng::gen_range over `0..SCALE` on `rand::thread_rng()`:
/// the sample lies in the given range. The result is a uniform fixed-point
/// fraction in `[0, 1)`.
#[verifier::external_body]
pub fn random_frac() -> (r: i64)
    ensures
        0 <= r < crate::fixed::SCALE,
{
    rand::Rng::gen_range(&mut rand::thread_rng(), 0..crate::fixed::SCALE)
}

} // verus!
