//! The draws the game makes from the `rand` crate.

use rand::rngs::ThreadRng;
use rand::Rng;
use vstd::prelude::*;

verus! {

/// The generator of the thread, as `rand` keeps it.
#[verifier::external_type_specification]
#[verifier::external_body]
pub struct ExThreadRng(ThreadRng);

/// Calls `thread_rng` of `rand`. Nothing is claimed of the generator it
/// hands out. The call fails only where the system cannot seed a generator.
#[verifier::external_body]
pub(crate) fn thread_rng() -> ThreadRng {
    rand::thread_rng()
}

/// Calls `Rng::gen_range` of `rand` with the range `low..high`. Believed of
/// it: it returns for `low < high`, and what it returns lies in the range,
/// `low` included and `high` excluded. Which value comes is left open.
#[verifier::external_body]
pub(crate) fn draw_between(rng: &mut ThreadRng, low: i32, high: i32) -> (r: i32)
    requires
        low < high,
    ensures
        low <= r < high,
{
    rng.gen_range(low..high)
}

/// Calls `Rng::gen_ratio` of `rand`. Believed of it: it returns whenever the
/// denominator is positive and the numerator no larger; a chance of one in
/// one always gives `true` and a chance of none always gives `false`. Any
/// other chance leaves the answer open.
#[verifier::external_body]
pub(crate) fn draw_ratio(rng: &mut ThreadRng, numerator: u32, denominator: u32) -> (r: bool)
    requires
        0 < denominator,
        numerator <= denominator,
    ensures
        numerator == denominator ==> r,
        numerator == 0 ==> !r,
{
    rng.gen_ratio(numerator, denominator)
}

} // verus!
