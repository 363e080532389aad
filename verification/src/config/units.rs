//! Exact conversions of operator units.

use vstd::prelude::*;

use crate::domain::{AprBps, ArithmeticError, RatePerSecond};
use crate::primitives::{group_u256, u256, word_modulus, U256};

use super::{SECONDS_PER_YEAR, WAD};

verus! {

/// Per-second WAD rate of a simple APR, rounded up.
pub open spec fn rate_up(value: AprBps) -> RatePerSecond {
    let denominator = 10_000nat * SECONDS_PER_YEAR as nat;
    RatePerSecond(u256(((value.0 * WAD + denominator - 1) / denominator as int) as nat))
}

/// Per-second WAD rate of a simple APR, rounded down.
pub open spec fn rate_down(value: AprBps) -> RatePerSecond {
    let denominator = 10_000nat * SECONDS_PER_YEAR as nat;
    RatePerSecond(u256(((value.0 * WAD) / denominator as int) as nat))
}

/// WAD utilization of basis points.
pub open spec fn utilization_wad(value: u32) -> U256 {
    u256(value as nat * 100_000_000_000_000)
}

proof fn lemma_conversion_bounds(value: u32)
    ensures
        0 <= value * WAD <= 0xffff_ffff * 1_000_000_000_000_000_000,
        value as nat * 100_000_000_000_000 <= 0xffff_ffff * 1_000_000_000_000_000_000,
        0xffff_ffffint * 1_000_000_000_000_000_000 + 1_000_000_000_000 < word_modulus(),
{
    assert(0 <= value * WAD <= 0xffff_ffff * 1_000_000_000_000_000_000) by (nonlinear_arith)
        requires
            value <= 0xffff_ffff,
            WAD == 1_000_000_000_000_000_000,
    ;
}

/// Converts simple APR basis points to per-second WAD, rounding upward.
///
/// Input: simple APR basis points. Output: WAD-scaled rate per second. No basis-point value
/// overflows.
pub fn apr_bps_to_rate_per_second_up(value: AprBps) -> (r: Result<RatePerSecond, ArithmeticError>)
    ensures
        r == Ok::<RatePerSecond, ArithmeticError>(rate_up(value)),
{
    broadcast use group_u256;

    proof {
        lemma_conversion_bounds(value.0);
    }
    let numerator = U256::from_u64(value.0 as u64).checked_mul(U256::from_u64(WAD)).ok_or(
        ArithmeticError::Overflow,
    )?;
    let denominator = U256::from_u64(10_000).checked_mul(U256::from_u64(SECONDS_PER_YEAR)).ok_or(
        ArithmeticError::Overflow,
    )?;
    let adjustment = denominator.checked_sub(U256::from_u64(1)).ok_or(ArithmeticError::Underflow)?;
    let adjusted = numerator.checked_add(adjustment).ok_or(ArithmeticError::Overflow)?;
    Ok(RatePerSecond(adjusted.checked_div(denominator).ok_or(ArithmeticError::Overflow)?))
}

/// Converts simple APR basis points to per-second WAD, rounding downward.
///
/// Input: simple APR basis points. Output: WAD-scaled rate per second. No basis-point value
/// overflows.
pub fn apr_bps_to_rate_per_second_down(value: AprBps) -> (r: Result<
    RatePerSecond,
    ArithmeticError,
>)
    ensures
        r == Ok::<RatePerSecond, ArithmeticError>(rate_down(value)),
{
    broadcast use group_u256;

    proof {
        lemma_conversion_bounds(value.0);
    }
    let numerator = U256::from_u64(value.0 as u64).checked_mul(U256::from_u64(WAD)).ok_or(
        ArithmeticError::Overflow,
    )?;
    let denominator = U256::from_u64(10_000).checked_mul(U256::from_u64(SECONDS_PER_YEAR)).ok_or(
        ArithmeticError::Overflow,
    )?;
    Ok(RatePerSecond(numerator.checked_div(denominator).ok_or(ArithmeticError::Overflow)?))
}

/// Converts utilization basis points to exact WAD utilization units.
///
/// One basis point is one ten-thousandth of full utilization. `WAD` is exactly divisible by
/// 10,000, so this conversion has no rounding.
pub fn utilization_bps_to_wad(value: u32) -> (r: Result<U256, ArithmeticError>)
    ensures
        r == Ok::<U256, ArithmeticError>(utilization_wad(value)),
{
    broadcast use group_u256;

    proof {
        lemma_conversion_bounds(value);
    }
    U256::from_u64(value as u64).checked_mul(U256::from_u64(WAD / 10_000)).ok_or(
        ArithmeticError::Overflow,
    )
}

/// The rounded-up rate of an APR is the rounded-down rate or one more, and both are zero for a
/// zero APR.
pub proof fn rounding_directions_differ_by_at_most_one(value: AprBps)
    ensures
        rate_down(value).0@ <= rate_up(value).0@ <= rate_down(value).0@ + 1,
        value.0 == 0 ==> rate_up(value).0@ == 0,
{
    broadcast use group_u256;

    lemma_conversion_bounds(value.0);
    let numerator: int = value.0 * WAD;
    assert(10_000nat * SECONDS_PER_YEAR as nat == 315_360_000_000);
    assert(numerator / 315_360_000_000 <= (numerator + 315_360_000_000 - 1) / 315_360_000_000
        <= numerator / 315_360_000_000 + 1);
    assert(rate_up(value).0@ == (numerator + 315_360_000_000 - 1) / 315_360_000_000);
    assert(rate_down(value).0@ == numerator / 315_360_000_000);
    if value.0 == 0 {
        assert(value.0 * WAD == 0) by (nonlinear_arith)
            requires
                value.0 == 0,
        ;
    }
}

/// A rate held for a year of 31,536,000 seconds comes to the APR: rounded up, the least rate that
/// reaches it; rounded down, the greatest that does not exceed it. A utilization in basis points is
/// the same share of one WAD.
pub proof fn converted_rates_add_up_to_the_apr(value: AprBps, share: u32)
    ensures
        ({
            let year = 315_360_000_000int;
            let apr = value.0 * 1_000_000_000_000_000_000;
            let up = rate_up(value).0@;
            let down = rate_down(value).0@;
            &&& (up - 1) * year < apr <= up * year
            &&& down * year <= apr < (down + 1) * year
            &&& utilization_wad(share)@ * 10_000 == share * 1_000_000_000_000_000_000
        }),
{
    broadcast use group_u256;

    lemma_conversion_bounds(value.0);
    lemma_conversion_bounds(share);
    let apr = value.0 * WAD;
    assert(apr == value.0 * 1_000_000_000_000_000_000);
    assert(0 <= (apr + 315_360_000_000 - 1) / 315_360_000_000 <= apr + 1);
    assert(0 <= apr / 315_360_000_000 <= apr);
}

} // verus!
