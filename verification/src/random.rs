//! The draws that the simulation takes from a `rand` generator.
//!
//! Nothing is proved about the generator itself. Each function below states
//! only what holds of every value that a draw can return; the code that uses a
//! draw is verified for all of them.

use rand::rngs::StdRng;
use rand::Rng;
use vstd::prelude::*;

verus! {

/// The standard generator of `rand`, carried through as an opaque value.
#[verifier::external_type_specification]
#[verifier::external_body]
pub struct ExStdRng(StdRng);

/// Calls `Rng::random_range` on the half-open range `low..high`. The range
/// must not be empty, since the call panics on an empty one. The value that
/// comes back lies in the range; which one it is depends on the generator.
#[verifier::external_body]
pub(crate) fn draw_between(rng: &mut StdRng, low: usize, high: usize) -> (r: usize)
    requires
        low < high,
    ensures
        low <= r < high,
{
    rng.random_range(low..high)
}

/// Calls `Rng::random_ratio`, a trial that succeeds with probability
/// `numerator / denominator`. The call panics on a zero denominator and on a
/// ratio above one, so both are excluded. Certain ratios are honoured
/// exactly: zero never succeeds, one always does. Nothing else is claimed of
/// the outcome.
#[verifier::external_body]
pub(crate) fn draw_ratio(rng: &mut StdRng, numerator: u32, denominator: u32) -> (r: bool)
    requires
        0 < denominator,
        numerator <= denominator,
    ensures
        numerator == 0 ==> !r,
        numerator == denominator ==> r,
{
    rng.random_ratio(numerator, denominator)
}

} // verus!
