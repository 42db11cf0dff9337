//! The one randomness source of the simulation.
//!
//! Launch angles, bonus spawn positions and split directions are drawn
//! through this single wrapper; everything computed from the drawn numbers
//! is verified for every value they can take.

use vstd::prelude::*;
use rand::Rng;

verus! {

/// Relies on rand::Rng::gen_range over the half-open range `0..n`: it
/// returns a value of that range, and panics only on an empty range, which
/// `1 <= n` rules out. Nothing more is assumed of a random draw.
#[verifier::external_body]
pub(crate) fn rand_below(n: u64) -> (r: u64)
    requires
        1 <= n,
    ensures
        r < n,
{
    rand::thread_rng().gen_range(0..n)
}

} // verus!
