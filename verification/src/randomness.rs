//! The random draws a process makes, taken from `rand`'s thread-local
//! generator.
use vstd::prelude::*;
use rand::rngs::ThreadRng;
use rand::Rng;

verus! {

/// One call into the random generator, with its arguments and its outcome.
#[derive(Clone, Copy, Debug, PartialEq, Eq, Structural)]
pub enum Draw {
    /// A coin that comes up `true` with probability `numerator / denominator`.
    Coin { numerator: u32, denominator: u32, outcome: bool },
    /// A value drawn from `low..high`.
    Range { low: usize, high: usize, value: usize },
}

#[verifier::external_type_specification]
#[verifier::external_body]
pub struct ExThreadRng(rand::rngs::ThreadRng);

/// Calls `rand::Rng::random_ratio`: a coin that comes up `true` with
/// probability `numerator / denominator`.  The contract claims only what
/// `rand` documents for every outcome: a certain coin (`numerator ==
/// denominator`) is always `true`, an impossible one (`numerator == 0`)
/// always `false`.  `rand` panics when `denominator == 0` or `numerator >
/// denominator`, so those arguments are excluded.  The ghost part of the
/// result records the call with its arguments and its outcome.
#[verifier::external_body]
pub(crate) fn random_ratio(rng: &mut ThreadRng, numerator: u32, denominator: u32) -> (drawn: (bool, Ghost<Draw>))
    requires
        0 < denominator,
        numerator <= denominator,
    ensures
        numerator == denominator ==> drawn.0,
        numerator == 0 ==> !drawn.0,
        drawn.1@ == (Draw::Coin { numerator, denominator, outcome: drawn.0 }),
{
    let outcome = rng.random_ratio(numerator, denominator);
    (outcome, Ghost(Draw::Coin { numerator, denominator, outcome }))
}

/// Calls `rand::Rng::random_range` on the half-open range `low..high`.  The
/// contract claims that the value drawn lies in the range; which value comes
/// out is left open.  `rand` panics on an empty range, so `low < high` is
/// required.  The ghost part of the result records the call with its
/// arguments and the value drawn.
#[verifier::external_body]
pub(crate) fn random_range(rng: &mut ThreadRng, low: usize, high: usize) -> (drawn: (usize, Ghost<Draw>))
    requires
        low < high,
    ensures
        low <= drawn.0 < high,
        drawn.1@ == (Draw::Range { low, high, value: drawn.0 }),
{
    let value = rng.random_range(low..high);
    (value, Ghost(Draw::Range { low, high, value }))
}

} // verus!
