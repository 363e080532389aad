//! Exact Adaptive Curve IRM arithmetic.

use vstd::arithmetic::power2::pow2;
use vstd::prelude::*;

use crate::domain::StoredMarketState;
use crate::morpho::blue_math::{w_div_down, w_div_down_spec, WAD};
use crate::morpho::{lift, lifted, MathError};
use crate::primitives::{
    fit_signed, group_i256, group_u256, i256, magnitude, signed_modulus, toward_zero, u256,
    unsigned_of, I256, U256,
};

verus! {

/// Adaptive Curve target utilization.
pub const TARGET_UTILIZATION: u64 = 900_000_000_000_000_000;

/// First-interaction target rate per second.
pub const INITIAL_RATE_AT_TARGET: u64 = 1_268_391_679;

/// Minimum target rate per second.
pub const MIN_RATE_AT_TARGET: u64 = 31_709_791;

/// Maximum target rate per second.
pub const MAX_RATE_AT_TARGET: u64 = 63_419_583_967;

/// Steepness of the curve.
pub const CURVE_STEEPNESS: u64 = 4_000_000_000_000_000_000;

/// Adjustment speed of the target rate per second.
pub const ADJUSTMENT_SPEED: u64 = 1_585_489_599_188;

/// Natural logarithm of two in WAD units.
pub const LN_2: u64 = 693_147_180_559_945_309;

/// Below minus this exponent the exponential is zero.
pub const LN_WEI_ABS: u128 = 41_446_531_673_892_822_312;

/// From this exponent on the exponential is constant.
pub const WEXP_UPPER: u128 = 93_859_467_695_000_404_319;

/// The constant value of the exponential from `WEXP_UPPER` on.
pub open spec fn wexp_upper_value() -> nat {
    57_716_089_161_558_943_949_701_069_502_944_508_345_128_422_502_756_744_429_568nat
}

/// Average accrual rate and ending mutable target rate produced by the IRM.
#[derive(Clone, Copy, Debug, PartialEq, Eq, Structural)]
pub struct AdaptiveCurveProjection {
    /// Average borrow rate used by Morpho for the elapsed period.
    pub average_rate: U256,
    /// Target rate stored by the state-changing IRM call.
    pub ending_rate_at_target: U256,
}

/// Exact mutable Adaptive Curve storage supplied to Morpho accrual.
#[derive(Clone, Copy, Debug, PartialEq, Eq, Structural)]
pub struct AdaptiveCurveState {
    /// Stored market-specific target rate.
    pub stored_rate_at_target: U256,
}

fn positive(value: U256) -> (r: Result<I256, MathError>)
    ensures
        r == fit_signed(value@ as int).ok_or(MathError::SignedConversion),
{
    I256::try_from_unsigned(value).ok_or(MathError::SignedConversion)
}

fn unsigned(value: I256) -> (r: Result<U256, MathError>)
    ensures
        r == unsigned_of(value).ok_or(MathError::SignedConversion),
{
    value.to_unsigned().ok_or(MathError::SignedConversion)
}

fn signed_wad() -> (r: I256)
    ensures
        r == i256(WAD as int),
{
    I256::from_u64(WAD)
}

/// Product of two WAD values divided by WAD toward zero, when the product fits a signed word.
pub open spec fn w_mul_to_zero_spec(x: int, y: int) -> Result<I256, MathError> {
    if -signed_modulus() <= x * y < signed_modulus() {
        Ok(i256(toward_zero(x * y, WAD as int)))
    } else {
        Err(MathError::Invariant)
    }
}

fn w_mul_to_zero(x: I256, y: I256) -> (r: Result<I256, MathError>)
    ensures
        r == w_mul_to_zero_spec(x@, y@),
{
    broadcast use group_i256;

    let scaled = x.checked_mul(y).ok_or(MathError::Invariant)?;
    scaled.checked_div(signed_wad()).ok_or(MathError::Invariant)
}

/// The second-order exponential of a WAD exponent: with `q` the nearest multiple of `ln 2` and
/// `r = x - q ln 2`, it is `(WAD + r + r^2 / 2) * 2^q`, scaled and rounded down.
pub open spec fn w_exp_value(x: int) -> int {
    if x < -LN_WEI_ABS {
        0
    } else if x >= WEXP_UPPER {
        wexp_upper_value() as int
    } else {
        let q = w_exp_shift(x);
        let exp_r = w_exp_mantissa(x - q * LN_2);
        if q >= 0 {
            exp_r * pow2(q as nat)
        } else {
            exp_r / (pow2((-q) as nat) as int)
        }
    }
}

/// The multiple of `ln 2` nearest to `x`.
pub open spec fn w_exp_shift(x: int) -> int {
    toward_zero(
        if x < 0 {
            x - LN_2 / 2
        } else {
            x + LN_2 / 2
        },
        LN_2 as int,
    )
}

/// `WAD + r + r^2 / (2 WAD)`, rounded down.
pub open spec fn w_exp_mantissa(r: int) -> int {
    WAD + r + (r * r) / (WAD as int) / 2
}

proof fn lemma_w_exp_reduction(x: int)
    requires
        -LN_WEI_ABS <= x < WEXP_UPPER,
    ensures
        -61 <= w_exp_shift(x) <= 136,
        -LN_2 <= x - w_exp_shift(x) * LN_2 <= LN_2,
{
    let y = if x < 0 {
        x - LN_2 / 2
    } else {
        x + LN_2 / 2
    };
    let m = magnitude(y) as int;
    let d: int = 693_147_180_559_945_309;
    assert(magnitude(LN_2 as int) == d);
    let n = m / d;
    vstd::arithmetic::div_mod::lemma_fundamental_div_mod(m, d);
    assert(m == d * n + m % d && 0 <= m % d < d);
    assert(n == m / 693_147_180_559_945_309);
    assert(0 <= n <= 136);
    if x < 0 {
        assert(n <= 61);
        assert(w_exp_shift(x) == -n);
    } else {
        assert(w_exp_shift(x) == n);
    }
}

proof fn lemma_square_bound(r: int)
    requires
        -LN_2 <= r <= LN_2,
    ensures
        0 <= r * r <= LN_2 * LN_2,
        0 <= (r * r) / (WAD as int) / 2 <= WAD,
        WAD - LN_2 <= w_exp_mantissa(r) <= 3 * WAD,
{
    assert(0 <= r * r <= LN_2 * LN_2) by (nonlinear_arith)
        requires
            -LN_2 <= r <= LN_2,
    ;
    assert((LN_2 as int) * (LN_2 as int) < (WAD as int) * (WAD as int)) by (nonlinear_arith)
        requires
            LN_2 == 693_147_180_559_945_309,
            WAD == 1_000_000_000_000_000_000,
    ;
}

proof fn lemma_pow2_bounds(q: nat)
    requires
        q <= 136,
    ensures
        1 <= pow2(q) <= pow2(136),
        pow2(136) == 0x1_00000000000000000000000000000000_00nat,
{
    vstd::arithmetic::power2::lemma_pow2_pos(q);
    if q < 136 {
        vstd::arithmetic::power2::lemma_pow2_strictly_increases(q, 136);
    }
    vstd::arithmetic::power2::lemma2_to64();
    vstd::arithmetic::power2::lemma_pow2_adds(64, 64);
    vstd::arithmetic::power2::lemma_pow2_adds(128, 8);
}

fn w_exp(x: I256) -> (r: Result<I256, MathError>)
    ensures
        r == Ok::<I256, MathError>(i256(w_exp_value(x@))),
        0 <= w_exp_value(x@) < signed_modulus(),
{
    broadcast use group_i256, group_u256;

    let ln_wei = positive(U256::from_u128(LN_WEI_ABS))?.checked_neg().ok_or(MathError::Invariant)?;
    if x.lt(ln_wei) {
        return Ok(I256::zero());
    }
    let upper = positive(U256::from_u128(WEXP_UPPER))?;
    if !x.lt(upper) {
        return positive(U256::from_limbs([0, 0, 3_591_645_239_034_022_784, 9]));
    }
    proof {
        lemma_w_exp_reduction(x@);
        lemma_square_bound(x@ - w_exp_shift(x@) * LN_2);
    }
    let ln_two = I256::from_u64(LN_2);
    let half = I256::from_u64(LN_2 / 2);
    let adjustment = if x.is_negative() {
        half.checked_neg().ok_or(MathError::Invariant)?
    } else {
        half
    };
    let q = x.checked_add(adjustment).ok_or(MathError::Invariant)?.checked_div(ln_two).ok_or(
        MathError::Invariant,
    )?;
    assert(q@ == w_exp_shift(x@));
    let r = x.checked_sub(q.checked_mul(ln_two).ok_or(MathError::Invariant)?).ok_or(
        MathError::Invariant,
    )?;
    let square_term = r.checked_mul(r).ok_or(MathError::Invariant)?.checked_div(
        signed_wad(),
    ).ok_or(MathError::Invariant)?.checked_div(I256::from_u64(2)).ok_or(MathError::Invariant)?;
    let exp_r = signed_wad().checked_add(r).ok_or(MathError::Invariant)?.checked_add(
        square_term,
    ).ok_or(MathError::Invariant)?;
    assert(exp_r@ == w_exp_mantissa(r@));
    let shift = q.unsigned_abs().to_usize().ok_or(MathError::Invariant)?;
    proof {
        lemma_pow2_bounds(shift as nat);
        crate::primitives::lemma_i256_bits(exp_r);
        let p = pow2(shift as nat) as int;
        let e = exp_r@;
        assert(0 <= e * p <= 3 * WAD * 0x1_00000000000000000000000000000000_00int) by (nonlinear_arith)
            requires
                0 <= e <= 3 * WAD,
                1 <= p <= 0x1_00000000000000000000000000000000_00int,
        ;
        assert(0 <= e / p <= e) by (nonlinear_arith)
            requires
                0 <= e,
                1 <= p,
        ;
    }
    if q.is_negative() {
        exp_r.checked_shr(shift).ok_or(MathError::Invariant)
    } else {
        exp_r.checked_shl(shift).ok_or(MathError::Invariant)
    }
}

/// Distance of a utilization from the target, relative to the side it lies on, in
/// `-WAD ..= WAD` and rounded toward zero.
pub open spec fn normalized_error_value(utilization: int) -> int {
    if utilization > TARGET_UTILIZATION {
        ((utilization - TARGET_UTILIZATION) * WAD) / (WAD - TARGET_UTILIZATION)
    } else {
        -(((TARGET_UTILIZATION - utilization) * WAD) / (TARGET_UTILIZATION as int))
    }
}

/// The normalized error of a utilization, which may not exceed one.
pub open spec fn normalized_error_spec(utilization: U256) -> Result<I256, MathError> {
    if utilization@ > WAD {
        Err(MathError::Invariant)
    } else {
        Ok(i256(normalized_error_value(utilization@ as int)))
    }
}

proof fn lemma_normalized_error(utilization: int)
    requires
        0 <= utilization <= WAD,
    ensures
        -WAD <= normalized_error_value(utilization) <= WAD,
{
    if utilization > TARGET_UTILIZATION {
        let n = (utilization - TARGET_UTILIZATION) * 1_000_000_000_000_000_000;
        assert(normalized_error_value(utilization) == n / 100_000_000_000_000_000);
    } else {
        let n = (TARGET_UTILIZATION - utilization) * 1_000_000_000_000_000_000;
        assert(normalized_error_value(utilization) == -(n / 900_000_000_000_000_000));
    }
}

fn normalized_error(utilization: U256) -> (r: Result<I256, MathError>)
    ensures
        r == normalized_error_spec(utilization),
        r is Ok ==> -WAD <= r->Ok_0@ <= WAD,
{
    broadcast use group_i256, group_u256;

    if U256::from_u64(WAD).lt(utilization) {
        return Err(MathError::Invariant);
    }
    proof {
        lemma_normalized_error(utilization@ as int);
    }
    let utilization = positive(utilization)?;
    let target = I256::from_u64(TARGET_UTILIZATION);
    let denominator = if target.lt(utilization) {
        signed_wad().checked_sub(target).ok_or(MathError::Invariant)?
    } else {
        target
    };
    let distance = utilization.checked_sub(target).ok_or(MathError::Invariant)?;
    let scaled = distance.checked_mul(signed_wad()).ok_or(MathError::Invariant)?;
    proof {
        let d = distance@;
        assert((-d) * WAD == -(d * WAD)) by (nonlinear_arith);
        assert(d >= 0 ==> d * WAD >= 0) by (nonlinear_arith);
        assert(d < 0 ==> d * WAD < 0) by (nonlinear_arith);
    }
    scaled.checked_div(denominator).ok_or(MathError::Invariant)
}

/// Slope of the curve on the side of an error: three quarters below the target, three above.
pub open spec fn curve_coefficient(error: int) -> int {
    if error < 0 {
        WAD - (WAD * WAD) / (CURVE_STEEPNESS as int)
    } else {
        CURVE_STEEPNESS - WAD
    }
}

/// Multiplier of the target rate at an error.
pub open spec fn curve_multiplier(error: int) -> int {
    toward_zero(curve_coefficient(error) * error, WAD as int) + WAD
}

/// The curve rate, when the scaled product fits a signed word.
pub open spec fn curve_spec(rate_at_target: int, error: int) -> Result<I256, MathError> {
    w_mul_to_zero_spec(curve_multiplier(error), rate_at_target)
}

proof fn lemma_curve_multiplier(error: int)
    requires
        -WAD <= error <= WAD,
    ensures
        curve_coefficient(error) == (if error < 0 {
            750_000_000_000_000_000int
        } else {
            3_000_000_000_000_000_000int
        }),
        -signed_modulus() <= curve_coefficient(error) * error < signed_modulus(),
        WAD / 4 <= curve_multiplier(error) <= 4 * WAD,
{
    let c = curve_coefficient(error);
    assert((WAD as int) * (WAD as int) == 1_000_000_000_000_000_000_000_000_000_000_000_000int)
        by (nonlinear_arith)
        requires
            WAD == 1_000_000_000_000_000_000,
    ;
    assert(error < 0 ==> c == 750_000_000_000_000_000);
    assert(c * error == (if error < 0 {
        750_000_000_000_000_000 * error
    } else {
        3_000_000_000_000_000_000 * error
    }));
    assert(magnitude(WAD as int) == 1_000_000_000_000_000_000);
    let m = magnitude(c * error) as int;
    assert(toward_zero(c * error, WAD as int) == (if error < 0 {
        -(m / 1_000_000_000_000_000_000)
    } else {
        m / 1_000_000_000_000_000_000
    }));
}

fn curve(rate_at_target: I256, error: I256) -> (r: Result<I256, MathError>)
    requires
        -WAD <= error@ <= WAD,
    ensures
        r == curve_spec(rate_at_target@, error@),
{
    broadcast use group_i256;

    proof {
        lemma_curve_multiplier(error@);
    }
    let steepness = I256::from_u64(CURVE_STEEPNESS);
    let coefficient = if error.is_negative() {
        I256::from_u64(WAD - WAD / 4)
    } else {
        steepness.checked_sub(signed_wad()).ok_or(MathError::Invariant)?
    };
    let multiplier = w_mul_to_zero(coefficient, error)?.checked_add(signed_wad()).ok_or(
        MathError::Invariant,
    )?;
    w_mul_to_zero(multiplier, rate_at_target)
}

/// Value clamped into the admissible target-rate band.
pub open spec fn clamp_rate(rate: int) -> int {
    if rate < MIN_RATE_AT_TARGET {
        MIN_RATE_AT_TARGET as int
    } else if rate > MAX_RATE_AT_TARGET {
        MAX_RATE_AT_TARGET as int
    } else {
        rate
    }
}

/// The adapted target rate, when the unclamped product fits a signed word.
pub open spec fn new_rate_spec(start: int, linear_adaptation: int) -> Result<I256, MathError> {
    match w_mul_to_zero_spec(start, w_exp_value(linear_adaptation)) {
        Err(error) => Err(error),
        Ok(candidate) => Ok(i256(clamp_rate(candidate@))),
    }
}

fn new_rate(start: I256, linear_adaptation: I256) -> (r: Result<I256, MathError>)
    ensures
        r == new_rate_spec(start@, linear_adaptation@),
        r is Ok ==> MIN_RATE_AT_TARGET <= r->Ok_0@ <= MAX_RATE_AT_TARGET,
{
    broadcast use group_i256;

    let factor = w_exp(linear_adaptation)?;
    let candidate = w_mul_to_zero(start, factor)?;
    Ok(candidate.clamp(I256::from_u64(MIN_RATE_AT_TARGET), I256::from_u64(MAX_RATE_AT_TARGET)))
}

/// Utilization of a market, zero for an empty one.
pub open spec fn utilization_spec(borrow_assets: U256, supply_assets: U256) -> Result<
    U256,
    MathError,
> {
    if supply_assets@ == 0 {
        Ok(u256(0))
    } else {
        lifted(w_div_down_spec(borrow_assets, supply_assets))
    }
}

/// Computes the utilization of a market, zero for an empty one.
pub(crate) fn market_utilization(borrow_assets: U256, supply_assets: U256) -> (r: Result<
    U256,
    MathError,
>)
    ensures
        r == utilization_spec(borrow_assets, supply_assets),
{
    if supply_assets.is_zero() {
        Ok(U256::zero())
    } else {
        lift(w_div_down(borrow_assets, supply_assets))
    }
}

/// Linear adaptation of the target rate: the adjustment speed times the error, toward zero, times
/// the elapsed seconds.
pub open spec fn linear_adaptation(error: int, elapsed_seconds: u64) -> int {
    toward_zero(ADJUSTMENT_SPEED * error, WAD as int) * elapsed_seconds
}

/// Average and ending target rates from a start rate and a linear adaptation.
pub open spec fn target_rates_spec(start: int, linear: int) -> Result<(I256, I256), MathError> {
    if start == 0 {
        Ok((i256(INITIAL_RATE_AT_TARGET as int), i256(INITIAL_RATE_AT_TARGET as int)))
    } else if linear == 0 {
        Ok((i256(start), i256(start)))
    } else {
        match new_rate_spec(start, linear) {
            Err(error) => Err(error),
            Ok(ending) => match new_rate_spec(start, toward_zero(linear, 2)) {
                Err(error) => Err(error),
                Ok(midpoint) => if start + ending@ + 2 * midpoint@ < signed_modulus() {
                    Ok((i256((start + ending@ + 2 * midpoint@) / 4), ending))
                } else {
                    Err(MathError::Invariant)
                },
            },
        }
    }
}

fn target_rates(start: I256, linear: I256) -> (r: Result<(I256, I256), MathError>)
    requires
        start@ >= 0,
    ensures
        r == target_rates_spec(start@, linear@),
        r is Ok ==> r->Ok_0.0@ >= 0 && r->Ok_0.1@ >= 0,
{
    broadcast use group_i256;

    if start.is_zero() {
        let initial = I256::from_u64(INITIAL_RATE_AT_TARGET);
        return Ok((initial, initial));
    }
    if linear.is_zero() {
        return Ok((start, start));
    }
    let ending = new_rate(start, linear)?;
    let two = I256::from_u64(2);
    let half = linear.checked_div(two).ok_or(MathError::Invariant)?;
    assert(half@ == toward_zero(linear@, 2)) by {
        assert(magnitude(linear@) / magnitude(2) <= magnitude(linear@));
    }
    let midpoint = new_rate(start, half)?;
    let ends = start.checked_add(ending).ok_or(MathError::Invariant)?;
    let twice_midpoint = midpoint.checked_mul(two).ok_or(MathError::Invariant)?;
    let total = ends.checked_add(twice_midpoint).ok_or(MathError::Invariant)?;
    let average = total.checked_div(I256::from_u64(4)).ok_or(MathError::Invariant)?;
    Ok((average, ending))
}

/// The IRM projection of a market: the curve at the average target rate, and the ending target
/// rate.
pub open spec fn adaptive_curve_borrow_rate_spec(
    borrow_assets: U256,
    supply_assets: U256,
    stored_rate_at_target: U256,
    elapsed_seconds: u64,
) -> Result<AdaptiveCurveProjection, MathError> {
    match utilization_spec(borrow_assets, supply_assets) {
        Err(error) => Err(error),
        Ok(utilization) => match normalized_error_spec(utilization) {
            Err(error) => Err(error),
            Ok(error) => if stored_rate_at_target@ >= signed_modulus() {
                Err(MathError::SignedConversion)
            } else {
                match target_rates_spec(
                    stored_rate_at_target@ as int,
                    linear_adaptation(error@, elapsed_seconds),
                ) {
                    Err(error) => Err(error),
                    Ok((average_target, ending_target)) => match curve_spec(
                        average_target@,
                        error@,
                    ) {
                        Err(error) => Err(error),
                        Ok(average) => Ok(
                            AdaptiveCurveProjection {
                                average_rate: u256(average@ as nat),
                                ending_rate_at_target: u256(ending_target@ as nat),
                            },
                        ),
                    },
                }
            },
        },
    }
}

proof fn lemma_linear_adaptation(error: int, elapsed_seconds: u64)
    requires
        -WAD <= error <= WAD,
    ensures
        -signed_modulus() <= ADJUSTMENT_SPEED * error < signed_modulus(),
        -signed_modulus() <= linear_adaptation(error, elapsed_seconds) < signed_modulus(),
{
    assert(magnitude(WAD as int) == 1_000_000_000_000_000_000);
    let scaled = ADJUSTMENT_SPEED * error;
    let m = magnitude(scaled) as int;
    let speed = toward_zero(scaled, WAD as int);
    assert(m / 1_000_000_000_000_000_000 <= ADJUSTMENT_SPEED);
    assert(-ADJUSTMENT_SPEED <= speed <= ADJUSTMENT_SPEED);
    assert(-(0x10000000000000000int * 0x10000000000000000int) <= speed * elapsed_seconds
        <= 0x10000000000000000int * 0x10000000000000000int) by (nonlinear_arith)
        requires
            -0x10000000000000000int <= speed <= 0x10000000000000000int,
            0 <= elapsed_seconds <= 0x10000000000000000int,
    ;
}

proof fn lemma_curve_nonnegative(rate: int, error: int)
    requires
        rate >= 0,
        -WAD <= error <= WAD,
        curve_spec(rate, error) is Ok,
    ensures
        curve_spec(rate, error)->Ok_0@ >= 0,
{
    broadcast use group_i256;

    lemma_curve_multiplier(error);
    let p = curve_multiplier(error) * rate;
    assert(p >= 0) by (nonlinear_arith)
        requires
            p == curve_multiplier(error) * rate,
            curve_multiplier(error) >= 0,
            rate >= 0,
    ;
    assert(magnitude(WAD as int) == 1_000_000_000_000_000_000);
    assert(toward_zero(p, WAD as int) == p / 1_000_000_000_000_000_000);
}

/// Computes WAD-per-second average and ending target rates from asset-unit market balances and
/// elapsed seconds, matching `AdaptiveCurveIrm._borrowRate`. Signed operations round toward zero
/// and any impossible checked intermediate errors.
pub fn adaptive_curve_borrow_rate(
    market: &StoredMarketState,
    stored_rate_at_target: U256,
    elapsed_seconds: u64,
) -> (r: Result<AdaptiveCurveProjection, MathError>)
    ensures
        r == adaptive_curve_borrow_rate_spec(
            market.total_borrow_assets,
            market.total_supply_assets,
            stored_rate_at_target,
            elapsed_seconds,
        ),
{
    broadcast use group_i256, group_u256;

    let utilization = market_utilization(market.total_borrow_assets, market.total_supply_assets)?;
    let error = normalized_error(utilization)?;
    let start = positive(stored_rate_at_target)?;
    proof {
        lemma_linear_adaptation(error@, elapsed_seconds);
    }
    let speed = w_mul_to_zero(I256::from_u64(ADJUSTMENT_SPEED), error)?;
    let elapsed = I256::from_u64(elapsed_seconds);
    proof {
        assert(magnitude(WAD as int) == 1_000_000_000_000_000_000);
        assert(speed@ == toward_zero(ADJUSTMENT_SPEED * error@, WAD as int));
    }
    let linear = speed.checked_mul(elapsed).ok_or(MathError::Invariant)?;
    let (average_target, ending_target) = target_rates(start, linear)?;
    let average = curve(average_target, error)?;
    proof {
        lemma_curve_nonnegative(average_target@, error@);
    }
    Ok(
        AdaptiveCurveProjection {
            average_rate: unsigned(average)?,
            ending_rate_at_target: unsigned(ending_target)?,
        },
    )
}

/// The curve rate at a utilization.
pub open spec fn adaptive_curve_spot_rate_spec(utilization: U256, rate_at_target: U256) -> Result<
    U256,
    MathError,
> {
    if rate_at_target@ >= signed_modulus() {
        Err(MathError::SignedConversion)
    } else {
        match normalized_error_spec(utilization) {
            Err(error) => Err(error),
            Ok(error) => match curve_spec(rate_at_target@ as int, error@) {
                Err(error) => Err(error),
                Ok(rate) => Ok(u256(rate@ as nat)),
            },
        }
    }
}

/// Computes the immediate WAD-per-second borrow rate from WAD utilization and WAD-per-second
/// target rate, matching `AdaptiveCurveIrm._curve` with toward-zero signed rounding and checked
/// overflow.
pub fn adaptive_curve_spot_rate(utilization: U256, rate_at_target: U256) -> (r: Result<
    U256,
    MathError,
>)
    ensures
        r == adaptive_curve_spot_rate_spec(utilization, rate_at_target),
{
    broadcast use group_i256, group_u256;

    let rate = positive(rate_at_target)?;
    let error = normalized_error(utilization)?;
    let spot = curve(rate, error)?;
    proof {
        lemma_curve_nonnegative(rate@, error@);
    }
    unsigned(spot)
}

/// Whatever the inputs, a projected target rate other than the unchanged one lies in the
/// admissible band.
pub proof fn adapted_target_rate_is_clamped(start: int, linear: int)
    requires
        start > 0,
        linear != 0,
        target_rates_spec(start, linear) is Ok,
    ensures
        MIN_RATE_AT_TARGET <= target_rates_spec(start, linear)->Ok_0.1@ <= MAX_RATE_AT_TARGET,
{
    broadcast use group_i256;

}

/// At the target utilization the spot rate is the target rate itself.
pub proof fn spot_rate_at_target_is_target_rate(rate_at_target: U256)
    requires
        adaptive_curve_spot_rate_spec(u256(TARGET_UTILIZATION as nat), rate_at_target) is Ok,
    ensures
        adaptive_curve_spot_rate_spec(u256(TARGET_UTILIZATION as nat), rate_at_target)->Ok_0
            == rate_at_target,
{
    broadcast use group_i256, group_u256;

    lemma_curve_multiplier(0);
    assert(normalized_error_value(TARGET_UTILIZATION as int) == 0);
    assert(magnitude(WAD as int) == 1_000_000_000_000_000_000);
    assert(curve_coefficient(0) * 0 == 0);
    assert(curve_multiplier(0) == WAD);
    let p = curve_multiplier(0) * rate_at_target@;
    assert(p == 1_000_000_000_000_000_000 * rate_at_target@);
    assert(toward_zero(p, WAD as int) == p / 1_000_000_000_000_000_000);
}

/// Multiplier of the target rate at a utilization, in WAD units: one at the target of 90%, falling
/// in a straight line to a quarter for an idle market and rising to four for a fully used one.
pub open spec fn utilization_multiplier(utilization: int) -> int {
    let one: int = 1_000_000_000_000_000_000;
    let target: int = 900_000_000_000_000_000;
    if utilization <= target {
        let below = ((target - utilization) * one) / target;
        one - (750_000_000_000_000_000 * below) / one
    } else {
        let above = ((utilization - target) * one) / (one - target);
        one + 3 * above
    }
}

proof fn lemma_multiplier_of_utilization(utilization: int)
    requires
        0 <= utilization <= 1_000_000_000_000_000_000,
    ensures
        curve_multiplier(normalized_error_value(utilization)) == utilization_multiplier(
            utilization,
        ),
        250_000_000_000_000_000 <= utilization_multiplier(utilization)
            <= 4_000_000_000_000_000_000,
        utilization == 900_000_000_000_000_000 ==> utilization_multiplier(utilization)
            == 1_000_000_000_000_000_000,
        utilization == 0 ==> utilization_multiplier(utilization) == 250_000_000_000_000_000,
        utilization == 1_000_000_000_000_000_000 ==> utilization_multiplier(utilization)
            == 4_000_000_000_000_000_000,
{
    lemma_normalized_error(utilization);
    let error = normalized_error_value(utilization);
    lemma_curve_multiplier(error);
    assert(magnitude(WAD as int) == 1_000_000_000_000_000_000);
    let c = curve_coefficient(error);
    assert(c * error == (if error < 0 {
        750_000_000_000_000_000 * error
    } else {
        3_000_000_000_000_000_000 * error
    }));
    if utilization <= 900_000_000_000_000_000 {
        let below = ((900_000_000_000_000_000 - utilization) * 1_000_000_000_000_000_000int)
            / 900_000_000_000_000_000int;
        assert(error == -below);
        assert(magnitude(c * error) == 750_000_000_000_000_000 * below || error == 0);
    } else {
        let above = ((utilization - 900_000_000_000_000_000) * 1_000_000_000_000_000_000int)
            / 100_000_000_000_000_000int;
        assert(error == above);
        assert(magnitude(c * error) == 3_000_000_000_000_000_000 * above);
    }
}

/// The spot rate is the target rate times the multiplier of the utilization, rounded down. A
/// utilization above one has no rate.
pub proof fn spot_rate_follows_the_curve(utilization: U256, rate_at_target: U256)
    requires
        adaptive_curve_spot_rate_spec(utilization, rate_at_target) is Ok,
    ensures
        utilization@ <= 1_000_000_000_000_000_000,
        ({
            let spot = adaptive_curve_spot_rate_spec(utilization, rate_at_target)->Ok_0@;
            let scaled = utilization_multiplier(utilization@ as int) * rate_at_target@;
            spot * 1_000_000_000_000_000_000 <= scaled < (spot + 1) * 1_000_000_000_000_000_000
        }),
{
    broadcast use group_i256, group_u256;

    let u = utilization@ as int;
    lemma_normalized_error(u);
    lemma_multiplier_of_utilization(u);
    let m = utilization_multiplier(u);
    let r = rate_at_target@ as int;
    lemma_curve_nonnegative(r, normalized_error_value(u));
    assert(m * r >= 0) by (nonlinear_arith)
        requires
            m >= 0,
            r >= 0,
    ;
    assert(magnitude(WAD as int) == 1_000_000_000_000_000_000);
    assert(toward_zero(m * r, WAD as int) == (m * r) / 1_000_000_000_000_000_000);
}

/// A more utilized market never has a lower spot rate.
pub proof fn spot_rate_rises_with_utilization(lower: U256, higher: U256, rate_at_target: U256)
    requires
        lower@ <= higher@,
        adaptive_curve_spot_rate_spec(lower, rate_at_target) is Ok,
        adaptive_curve_spot_rate_spec(higher, rate_at_target) is Ok,
    ensures
        adaptive_curve_spot_rate_spec(lower, rate_at_target)->Ok_0@
            <= adaptive_curve_spot_rate_spec(higher, rate_at_target)->Ok_0@,
{
    spot_rate_follows_the_curve(lower, rate_at_target);
    spot_rate_follows_the_curve(higher, rate_at_target);
    lemma_multiplier_of_utilization(lower@ as int);
    lemma_multiplier_of_utilization(higher@ as int);
    let low = utilization_multiplier(lower@ as int);
    let high = utilization_multiplier(higher@ as int);
    assert(low <= high);
    let r = rate_at_target@ as int;
    assert(low * r <= high * r) by (nonlinear_arith)
        requires
            low <= high,
            r >= 0,
    ;
}

/// The exponential of a small exponent is its second-order series, and an exponent larger by the
/// logarithm of two gives twice the value.
pub proof fn exponential_doubles(x: int)
    ensures
        w_exp_value(0) == 1_000_000_000_000_000_000,
        0 <= x < 346_573_590_279_972_654 ==> w_exp_value(x) == 1_000_000_000_000_000_000 + x + (x
            * x) / 1_000_000_000_000_000_000 / 2,
        -346_573_590_279_972_654 < x < 0 ==> w_exp_value(x) == 1_000_000_000_000_000_000 + x + (x
            * x) / 1_000_000_000_000_000_000 / 2,
        0 <= x < 93_000_000_000_000_000_000 ==> w_exp_value(x + 693_147_180_559_945_309) == 2
            * w_exp_value(x),
        -40_000_000_000_000_000_000 < x < 0 ==> w_exp_value(x - 693_147_180_559_945_309)
            == w_exp_value(x) / 2,
{
    vstd::arithmetic::power2::lemma2_to64();
    assert(magnitude(LN_2 as int) == 693_147_180_559_945_309);
    if 0 <= x < 93_000_000_000_000_000_000 {
        let q = w_exp_shift(x);
        assert(q >= 0);
        assert(w_exp_shift(x + 693_147_180_559_945_309) == q + 1);
        assert((x + 693_147_180_559_945_309) - (q + 1) * LN_2 == x - q * LN_2) by (nonlinear_arith)
            requires
                LN_2 == 693_147_180_559_945_309,
        ;
        vstd::arithmetic::power2::lemma_pow2_unfold((q + 1) as nat);
        let m = w_exp_mantissa(x - q * LN_2);
        let p = pow2(q as nat) as int;
        assert(m * (2 * p) == 2 * (m * p)) by (nonlinear_arith);
    }
    if -40_000_000_000_000_000_000 < x < 0 {
        let q = w_exp_shift(x);
        assert(q <= 0);
        assert(w_exp_shift(x - 693_147_180_559_945_309) == q - 1);
        assert((x - 693_147_180_559_945_309) - (q - 1) * LN_2 == x - q * LN_2) by (nonlinear_arith)
            requires
                LN_2 == 693_147_180_559_945_309,
        ;
        vstd::arithmetic::power2::lemma_pow2_unfold((1 - q) as nat);
        lemma_w_exp_reduction(x);
        lemma_square_bound(x - q * LN_2);
        let m = w_exp_mantissa(x - q * LN_2);
        let p = pow2((-q) as nat) as int;
        vstd::arithmetic::power2::lemma_pow2_pos((-q) as nat);
        vstd::arithmetic::div_mod::lemma_div_denominator(m, p, 2);
        assert(p * 2 == 2 * p);
        if q == 0 {
            assert(m * pow2(0) == m) by (nonlinear_arith)
                requires
                    pow2(0) == 1,
            ;
            assert(m / 1 == m);
        }
    }
    assert(w_exp_shift(0) == 0);
    assert(w_exp_mantissa(0) == 1_000_000_000_000_000_000) by {
        assert(0int * 0int == 0);
    }
    if -346_573_590_279_972_654 < x < 346_573_590_279_972_654 {
        assert(w_exp_shift(x) == 0);
        let m = w_exp_mantissa(x);
        assert(x - 0 * LN_2 == x);
        assert(m * pow2(0) == m) by (nonlinear_arith)
            requires
                pow2(0) == 1,
        ;
    }
}

proof fn lemma_exponential_side(x: int)
    requires
        -LN_WEI_ABS <= x < WEXP_UPPER,
    ensures
        x >= 0 ==> w_exp_value(x) >= WAD,
        x <= 0 ==> w_exp_value(x) <= WAD,
{
    vstd::arithmetic::power2::lemma2_to64();
    lemma_w_exp_reduction(x);
    let q = w_exp_shift(x);
    let r = x - q * LN_2;
    lemma_square_bound(r);
    let m = w_exp_mantissa(r);
    assert(magnitude(LN_2 as int) == 693_147_180_559_945_309);
    assert(-346_573_590_279_972_655 <= r <= 346_573_590_279_972_655);
    assert(0 <= r * r <= 346_573_590_279_972_655int * 346_573_590_279_972_655int)
        by (nonlinear_arith)
        requires
            -346_573_590_279_972_655 <= r <= 346_573_590_279_972_655,
    ;
    assert(r * r <= 120_113_253_479_000_000_000_000_000_000_000_000int + 1_000_000_000_000_000_000_000_000_000_000int);
    if q == 0 {
        assert(m * pow2(0) == m) by (nonlinear_arith)
            requires
                pow2(0) == 1,
        ;
        if x <= 0 {
            assert(r * r <= (-r) * 346_573_590_279_972_655int) by (nonlinear_arith)
                requires
                    -346_573_590_279_972_655 <= r <= 0,
            ;
        }
    } else if q > 0 {
        vstd::arithmetic::power2::lemma_pow2_unfold(q as nat);
        vstd::arithmetic::power2::lemma_pow2_pos((q - 1) as nat);
        let p = pow2(q as nat) as int;
        assert(m * p >= 2 * m) by (nonlinear_arith)
            requires
                p >= 2,
                m >= 0,
        ;
    } else {
        vstd::arithmetic::power2::lemma_pow2_unfold((-q) as nat);
        vstd::arithmetic::power2::lemma_pow2_pos((-q - 1) as nat);
        let p = pow2((-q) as nat) as int;
        assert(m / p <= m / 2) by (nonlinear_arith)
            requires
                p >= 2,
                m >= 0,
        ;
    }
}

/// The adapted target rate is the start rate times the exponential of the adaptation, rounded down
/// and held within its band; the average weighs start, end and twice the midpoint.
pub proof fn target_rate_adapts_exponentially(start: int, linear: int)
    requires
        0 <= start < signed_modulus(),
        target_rates_spec(start, linear) is Ok,
    ensures
        ({
            let (average, ending) = target_rates_spec(start, linear)->Ok_0;
            let one: int = 1_000_000_000_000_000_000;
            let held = |rate: int|
                if rate < 31_709_791 {
                    31_709_791
                } else if rate > 63_419_583_967 {
                    63_419_583_967
                } else {
                    rate
                };
            let half = if linear >= 0 {
                linear / 2
            } else {
                -((-linear) / 2)
            };
            let midpoint = held((start * w_exp_value(half)) / one);
            if start == 0 {
                average@ == 1_268_391_679 && ending@ == 1_268_391_679
            } else if linear == 0 {
                average@ == start && ending@ == start
            } else {
                &&& ending@ == held((start * w_exp_value(linear)) / one)
                &&& average@ == (start + ending@ + 2 * midpoint) / 4
            }
        }),
{
    broadcast use group_i256;

    if start != 0 && linear != 0 {
        let half = toward_zero(linear, 2);
        assert(magnitude(2) == 2);
        assert(magnitude(WAD as int) == 1_000_000_000_000_000_000);
        lemma_exponential_nonnegative(linear);
        lemma_exponential_nonnegative(half);
        let a = start * w_exp_value(linear);
        let b = start * w_exp_value(half);
        assert(a >= 0 && b >= 0) by (nonlinear_arith)
            requires
                a == start * w_exp_value(linear),
                b == start * w_exp_value(half),
                start >= 0,
                w_exp_value(linear) >= 0,
                w_exp_value(half) >= 0,
        ;
        assert(toward_zero(a, WAD as int) == a / 1_000_000_000_000_000_000);
        assert(toward_zero(b, WAD as int) == b / 1_000_000_000_000_000_000);
    }
}

proof fn lemma_exponential_nonnegative(x: int)
    ensures
        w_exp_value(x) >= 0,
{
    if -LN_WEI_ABS <= x < WEXP_UPPER {
        lemma_w_exp_reduction(x);
        let q = w_exp_shift(x);
        lemma_square_bound(x - q * LN_2);
        let m = w_exp_mantissa(x - q * LN_2);
        if q >= 0 {
            let p = pow2(q as nat) as int;
            assert(m * p >= 0) by (nonlinear_arith)
                requires
                    m >= 0,
                    p >= 0,
            ;
        } else {
            vstd::arithmetic::power2::lemma_pow2_pos((-q) as nat);
            let p = pow2((-q) as nat) as int;
            assert(m / p >= 0) by (nonlinear_arith)
                requires
                    m >= 0,
                    p > 0,
            ;
        }
    }
}

/// A target rate in its band rises while utilization is above the target, falls while it is below,
/// and stays where it is at the target. Adaptation is linear in the elapsed time.
pub proof fn target_rate_follows_utilization(error: int, elapsed: u64, start: int)
    requires
        -1_000_000_000_000_000_000 <= error <= 1_000_000_000_000_000_000,
        31_709_791 <= start <= 63_419_583_967,
        target_rates_spec(start, linear_adaptation(error, elapsed)) is Ok,
    ensures
        linear_adaptation(error, elapsed) == (if error >= 0 {
            (1_585_489_599_188 * error) / 1_000_000_000_000_000_000
        } else {
            -((1_585_489_599_188 * (-error)) / 1_000_000_000_000_000_000)
        }) * elapsed,
        ({
            let ending = target_rates_spec(start, linear_adaptation(error, elapsed))->Ok_0.1@;
            &&& error >= 0 ==> ending >= start
            &&& error <= 0 ==> ending <= start
            &&& error == 0 || elapsed == 0 ==> ending == start
        }),
{
    broadcast use group_i256;

    assert(magnitude(WAD as int) == 1_000_000_000_000_000_000);
    lemma_linear_adaptation(error, elapsed);
    let linear = linear_adaptation(error, elapsed);
    let speed = toward_zero(ADJUSTMENT_SPEED * error, WAD as int);
    assert(speed >= 0 && error >= 0 || speed <= 0 && error <= 0);
    assert(linear == speed * elapsed);
    assert(speed >= 0 ==> linear >= 0) by (nonlinear_arith)
        requires
            linear == speed * elapsed,
    ;
    assert(speed <= 0 ==> linear <= 0) by (nonlinear_arith)
        requires
            linear == speed * elapsed,
    ;
    assert(speed == 0 || elapsed == 0 ==> linear == 0) by (nonlinear_arith)
        requires
            linear == speed * elapsed,
    ;
    if linear != 0 {
        target_rate_adapts_exponentially(start, linear);
        let factor = w_exp_value(linear);
        if -LN_WEI_ABS <= linear < WEXP_UPPER {
            lemma_exponential_side(linear);
        }
        assert(linear > 0 ==> factor >= 1_000_000_000_000_000_000);
        assert(linear < 0 ==> factor <= 1_000_000_000_000_000_000);
        lemma_exponential_nonnegative(linear);
        let product = start * factor;
        assert(factor >= 1_000_000_000_000_000_000 ==> product >= start * 1_000_000_000_000_000_000)
            by (nonlinear_arith)
            requires
                product == start * factor,
                start > 0,
        ;
        assert(factor <= 1_000_000_000_000_000_000 ==> product <= start * 1_000_000_000_000_000_000)
            by (nonlinear_arith)
            requires
                product == start * factor,
                start > 0,
        ;
    }
}

/// The average rate of a market is the curve at its utilization and average target rate, rounded
/// down, and its target rate ends where the adaptation takes it.
pub proof fn borrow_rate_follows_the_curve(
    borrow_assets: U256,
    supply_assets: U256,
    stored_rate_at_target: U256,
    elapsed_seconds: u64,
)
    requires
        adaptive_curve_borrow_rate_spec(
            borrow_assets,
            supply_assets,
            stored_rate_at_target,
            elapsed_seconds,
        ) is Ok,
    ensures
        utilization_spec(borrow_assets, supply_assets) is Ok,
        ({
            let projected = adaptive_curve_borrow_rate_spec(
                borrow_assets,
                supply_assets,
                stored_rate_at_target,
                elapsed_seconds,
            )->Ok_0;
            let utilization = utilization_spec(borrow_assets, supply_assets)->Ok_0@ as int;
            let error = normalized_error_value(utilization);
            let rates = target_rates_spec(
                stored_rate_at_target@ as int,
                linear_adaptation(error, elapsed_seconds),
            );
            let scaled = utilization_multiplier(utilization) * rates->Ok_0.0@;
            let average = projected.average_rate@;
            &&& rates is Ok
            &&& utilization <= 1_000_000_000_000_000_000
            &&& projected.ending_rate_at_target@ == rates->Ok_0.1@
            &&& average * 1_000_000_000_000_000_000 <= scaled < (average + 1)
                * 1_000_000_000_000_000_000
            &&& utilization > 900_000_000_000_000_000 ==> error >= 0
            &&& utilization <= 900_000_000_000_000_000 ==> error <= 0
        }),
{
    broadcast use group_i256, group_u256;

    let utilization = utilization_spec(borrow_assets, supply_assets)->Ok_0@ as int;
    lemma_normalized_error(utilization);
    let error = normalized_error_value(utilization);
    lemma_multiplier_of_utilization(utilization);
    let linear = linear_adaptation(error, elapsed_seconds);
    lemma_linear_adaptation(error, elapsed_seconds);
    target_rate_adapts_exponentially(stored_rate_at_target@ as int, linear);
    let (average_target, ending_target) = target_rates_spec(
        stored_rate_at_target@ as int,
        linear,
    )->Ok_0;
    assert(average_target@ >= 0 && ending_target@ >= 0);
    lemma_curve_nonnegative(average_target@, error);
    let m = utilization_multiplier(utilization);
    let p = m * average_target@;
    assert(p >= 0) by (nonlinear_arith)
        requires
            p == m * average_target@,
            m >= 0,
            average_target@ >= 0,
    ;
    assert(magnitude(WAD as int) == 1_000_000_000_000_000_000);
    assert(toward_zero(p, WAD as int) == p / 1_000_000_000_000_000_000);
}

} // verus!
