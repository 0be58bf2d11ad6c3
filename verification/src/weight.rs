//! Fixed-point weights and the arithmetic that splits them.
use vstd::prelude::*;
use vstd::arithmetic::div_mod::{lemma_div_is_ordered, lemma_div_multiples_vanish};
use vstd::arithmetic::mul::lemma_mul_inequality;

verus! {

/// Number of weight units that make up a weight of one.
pub const WEIGHT_UNITS: u64 = 1_000_000_000;

/// The weight held by the controlling agent at the start: the whole weight.
pub const INITIAL_WEIGHT: u64 = 1_000_000_000;

/// The smallest weight, a tenth of the whole, above which an active process
/// hands out part of its weight.
pub const MIN_WEIGHT_FRACTION: u64 = 100_000_000;

/// Fractions are expressed in parts per `FRACTION_SCALE`.
pub const FRACTION_SCALE: u64 = 1_000_000;

/// The smallest fraction of its weight (a tenth) that a process sends.
pub const MIN_FRACTION_PPM: u64 = 100_000;

/// The least weight a computation message carries: a tenth of the minimum
/// weight above which a process sends.
pub const MIN_SHARE: u64 = 10_000_000;

/// The weight missing from the controlling agent below which the whole
/// weight counts as recovered (a thousandth of the whole).
pub const TERMINATION_TOLERANCE: u64 = 1_000_000;

/// `ppm` parts per million of `weight`, rounded down.
pub open spec fn fraction_spec(weight: nat, ppm: nat) -> nat {
    (weight * ppm / (FRACTION_SCALE as nat)) as nat
}

/// A share of at most the whole never exceeds the whole.
pub proof fn lemma_fraction_at_most_whole(weight: nat, ppm: nat)
    requires
        ppm <= FRACTION_SCALE,
    ensures
        fraction_spec(weight, ppm) <= weight,
{
    let s = FRACTION_SCALE as int;
    let w = weight as int;
    let x: int = w * ppm;
    lemma_mul_inequality(ppm as int, s, w);
    assert(x <= s * w) by (nonlinear_arith)
        requires ppm as int * w <= s * w, x == w * ppm;
    lemma_div_is_ordered(x, s * w, s);
    lemma_div_multiples_vanish(w, s);
}

/// A share of a process that holds more than the minimum, taken with a
/// fraction in `[MIN_FRACTION_PPM, FRACTION_SCALE)`, is at least
/// `MIN_SHARE` and leaves a positive remainder.
pub proof fn lemma_fraction_strictly_between(weight: nat, ppm: nat)
    requires
        weight > MIN_WEIGHT_FRACTION,
        MIN_FRACTION_PPM <= ppm < FRACTION_SCALE,
    ensures
        MIN_SHARE <= fraction_spec(weight, ppm) < weight,
{
    let s = FRACTION_SCALE as int;
    let w = weight as int;
    let x: int = w * ppm;
    let low: int = 10_000_000_000_000;
    assert(x >= low) by (nonlinear_arith)
        requires w > 100_000_000, ppm >= 100_000, x == w * ppm, low == 10_000_000_000_000;
    lemma_div_is_ordered(low, x, s);
    assert(low / s == 10_000_000) by (nonlinear_arith) requires s == 1_000_000, low == 10_000_000_000_000;
    assert(x < s * w) by (nonlinear_arith)
        requires ppm < s, w > 0, x == w * ppm;
    assert(x / s < w) by (nonlinear_arith)
        requires x < s * w, s > 0, x >= 0;
}

/// `ppm` parts per million of `weight`, rounded down.
pub fn fraction_of(weight: u64, ppm: u64) -> (part: u64)
    requires
        ppm <= FRACTION_SCALE,
    ensures
        part == fraction_spec(weight as nat, ppm as nat),
        part <= weight,
{
    proof {
        lemma_fraction_at_most_whole(weight as nat, ppm as nat);
    }
    let product: u128 = (weight as u128) * (ppm as u128);
    assert(product == weight * ppm) by (nonlinear_arith)
        requires product == (weight as u128) * (ppm as u128);
    let part: u128 = product / (FRACTION_SCALE as u128);
    part as u64
}

} // verus!
