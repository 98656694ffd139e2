//! The reward accrual rule.
//!
//! A rate is given in basis points per year: 1200 stands for 12% a year. A year
//! has 365 days. Reward vests by the completed year: a position earns
//! `balance * rate / 10_000` for each whole year of its accrual window, and the
//! part of a year that has run since is not counted. The product is divided
//! once, at the end, and rounded down.

use vstd::prelude::*;
use vstd::arithmetic::div_mod::lemma_div_is_ordered;
use vstd::arithmetic::mul::lemma_mul_is_associative;
use vstd::arithmetic::mul::lemma_mul_inequality;
use crate::error::Error;

verus! {

/// The number of basis points in the whole.
pub const BASIS_POINTS: u128 = 10_000;

/// The length of a year in seconds.
pub const SECONDS_PER_YEAR: u64 = 31_536_000;

/// The whole years in `elapsed` seconds.
pub open spec fn whole_years(elapsed: int) -> int {
    elapsed / (SECONDS_PER_YEAR as int)
}

/// The reward before the division by the basis-point scale.
pub open spec fn reward_numerator(balance: int, elapsed: int, rate: int) -> int {
    balance * rate * whole_years(elapsed)
}

/// The reward that `balance` earns at `rate` over `elapsed` seconds.
pub open spec fn accrued_reward(balance: int, elapsed: int, rate: int) -> int {
    reward_numerator(balance, elapsed, rate) / (BASIS_POINTS as int)
}

/// Whether the reward can be computed in 128 unsigned bits.
pub open spec fn reward_fits(balance: int, elapsed: int, rate: int) -> bool {
    reward_numerator(balance, elapsed, rate) <= u128::MAX
}

/// What the calculator answers: the reward, or `Overflow` where the
/// intermediate product leaves 128 unsigned bits.
pub open spec fn reward_outcome(balance: int, elapsed: int, rate: int) -> Result<i128, Error> {
    if reward_fits(balance, elapsed, rate) {
        Ok(accrued_reward(balance, elapsed, rate) as i128)
    } else {
        Err(Error::Overflow)
    }
}

/// The numerator is the balance times the rate-years, and is not negative.
pub proof fn lemma_numerator_shape(balance: int, elapsed: int, rate: int)
    requires
        0 <= balance,
        0 <= elapsed,
        0 <= rate,
    ensures
        reward_numerator(balance, elapsed, rate) == balance * (rate * whole_years(elapsed)),
        0 <= whole_years(elapsed) <= elapsed,
        0 <= rate * whole_years(elapsed),
        0 <= reward_numerator(balance, elapsed, rate),
        0 <= accrued_reward(balance, elapsed, rate) <= reward_numerator(balance, elapsed, rate),
{
    let years = whole_years(elapsed);
    lemma_mul_is_associative(balance, rate, years);
    assert(0 <= years <= elapsed);
    assert(0 <= rate * years) by (nonlinear_arith)
        requires
            0 <= rate,
            0 <= years,
    ;
    assert(0 <= balance * (rate * years)) by (nonlinear_arith)
        requires
            0 <= balance,
            0 <= rate * years,
    ;
}

/// A reward that fits 128 unsigned bits fits 128 signed bits once divided.
pub proof fn lemma_reward_in_range(balance: int, elapsed: int, rate: int)
    requires
        0 <= balance,
        0 <= elapsed,
        0 <= rate,
        reward_fits(balance, elapsed, rate),
    ensures
        0 <= accrued_reward(balance, elapsed, rate) <= i128::MAX,
{
    lemma_numerator_shape(balance, elapsed, rate);
}

/// The numerator grows with the balance and with the elapsed time.
pub proof fn lemma_numerator_monotonic(b1: int, e1: int, b2: int, e2: int, rate: int)
    requires
        0 <= b1 <= b2,
        0 <= e1 <= e2,
        0 <= rate,
    ensures
        reward_numerator(b1, e1, rate) <= reward_numerator(b2, e2, rate),
{
    let y1 = whole_years(e1);
    let y2 = whole_years(e2);
    lemma_div_is_ordered(e1, e2, SECONDS_PER_YEAR as int);
    lemma_numerator_shape(b1, e1, rate);
    lemma_numerator_shape(b2, e2, rate);
    assert(rate * y1 <= rate * y2) by (nonlinear_arith)
        requires
            0 <= rate,
            y1 <= y2,
    ;
    lemma_mul_inequality(b1, b2, rate * y1);
    assert(b2 * (rate * y1) <= b2 * (rate * y2)) by (nonlinear_arith)
        requires
            0 <= b2,
            rate * y1 <= rate * y2,
    ;
}

/// Reward never shrinks when the balance or the elapsed time grows.
pub proof fn lemma_reward_monotonic(b1: int, e1: int, b2: int, e2: int, rate: int)
    requires
        0 <= b1 <= b2,
        0 <= e1 <= e2,
        0 <= rate,
    ensures
        accrued_reward(b1, e1, rate) <= accrued_reward(b2, e2, rate),
        reward_fits(b2, e2, rate) ==> reward_fits(b1, e1, rate),
{
    lemma_numerator_monotonic(b1, e1, b2, e2, rate);
    lemma_div_is_ordered(
        reward_numerator(b1, e1, rate),
        reward_numerator(b2, e2, rate),
        BASIS_POINTS as int,
    );
}

/// The calculator's answer never shrinks when the balance or the elapsed time
/// grows: where it answers for the larger pair, it answers for the smaller
/// one too, with a reward that is not negative and no larger.
pub proof fn lemma_outcome_monotonic(b1: i128, e1: u64, b2: i128, e2: u64, rate: u32)
    requires
        0 <= b1 <= b2,
        e1 <= e2,
    ensures
        reward_outcome(b2 as int, e2 as int, rate as int) is Ok ==> {
            &&& reward_outcome(b1 as int, e1 as int, rate as int) is Ok
            &&& 0 <= reward_outcome(b1 as int, e1 as int, rate as int)->Ok_0 <= reward_outcome(
                b2 as int,
                e2 as int,
                rate as int,
            )->Ok_0
        },
{
    lemma_reward_monotonic(b1 as int, e1 as int, b2 as int, e2 as int, rate as int);
    if reward_fits(b2 as int, e2 as int, rate as int) {
        lemma_reward_in_range(b1 as int, e1 as int, rate as int);
        lemma_reward_in_range(b2 as int, e2 as int, rate as int);
    }
}

/// Nothing is earned on nothing, and nothing in no time.
pub proof fn lemma_reward_zero(balance: int, elapsed: int, rate: int)
    ensures
        accrued_reward(0, elapsed, rate) == 0,
        accrued_reward(balance, 0, rate) == 0,
        reward_fits(0, elapsed, rate),
        reward_fits(balance, 0, rate),
        reward_outcome(0, elapsed, rate) == Ok::<i128, Error>(0),
        reward_outcome(balance, 0, rate) == Ok::<i128, Error>(0),
{
    assert(0 * rate * whole_years(elapsed) == 0) by (nonlinear_arith);
    assert(whole_years(0) == 0);
    assert(balance * rate * 0 == 0) by (nonlinear_arith);
}

} // verus!
