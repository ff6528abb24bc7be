//! The source of randomness: the thread-local generator of the `rand` crate.

use vstd::prelude::*;
use rand::rngs::ThreadRng;
use rand::Rng;

verus! {

/// The generator `rand::rngs::ThreadRng`, of which nothing is known but
/// that it exists.
#[verifier::external_type_specification]
#[verifier::external_body]
pub struct ExThreadRng(ThreadRng);

/// Calls `rand::Rng::gen_range(0, bound)` on the generator.
///
/// The call panics unless `0 < bound`, and returns a number that is at least
/// zero and less than `bound`. Which one is left open.
#[verifier::external_body]
pub(crate) fn draw_below(rng: &mut ThreadRng, bound: u64) -> (r: u64)
    requires
        bound > 0,
    ensures
        r < bound,
{
    rng.gen_range(0, bound)
}

/// A random integer that is at least `low` and less than `high`.
pub fn draw_between(rng: &mut ThreadRng, low: i64, high: i64) -> (r: i64)
    requires
        low < high,
    ensures
        low <= r < high,
{
    let width: u64 = (high as i128 - low as i128) as u64;
    let offset: u64 = draw_below(rng, width);
    (low as i128 + offset as i128) as i64
}

/// A random angle in whole degrees, from 0 to 359.
pub fn draw_angle(rng: &mut ThreadRng) -> (r: i32)
    ensures
        0 <= r < 360,
{
    draw_below(rng, 360) as i32
}

} // verus!
