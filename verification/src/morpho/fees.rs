//! Exact Morpho fee-share and market-accrual arithmetic.

use vstd::prelude::*;

use crate::domain::{ArithmeticError, ProjectedMarketState, StoredMarketState};
use crate::morpho::adaptive_curve::{
    adaptive_curve_borrow_rate, adaptive_curve_borrow_rate_spec, adaptive_curve_spot_rate,
    adaptive_curve_spot_rate_spec, market_utilization, utilization_spec, AdaptiveCurveProjection,
    AdaptiveCurveState,
};
use crate::morpho::blue_math::{
    minus, minus_spec, plus, plus_spec, to_supply_shares_down, to_supply_shares_down_spec, wad,
    w_mul_down, w_mul_down_spec, w_taylor_compounded, w_taylor_compounded_spec, VIRTUAL_SHARES, WAD,
};
use crate::morpho::{lift, lifted, MathError};
use crate::primitives::{difference, group_u256, u256, U256};

verus! {

/// Exact result of Morpho market accrual.
#[derive(Clone, Copy, Debug, PartialEq, Eq, Structural)]
pub struct MarketAccrualResult {
    /// Fully projected market state.
    pub market: ProjectedMarketState,
    /// Assets of borrow interest accrued.
    pub interest_assets: U256,
    /// Supply shares minted to Morpho's fee recipient.
    pub fee_shares: U256,
}

/// A sum that must fit 128 bits.
pub open spec fn uint128_sum(a: U256, b: U256) -> Result<U256, MathError> {
    match plus_spec(a, b) {
        Err(error) => Err(MathError::Arithmetic(error)),
        Ok(value) => if value@ > u128::MAX {
            Err(MathError::Invariant)
        } else {
            Ok(value)
        },
    }
}

fn add_uint128(a: U256, b: U256) -> (r: Result<U256, MathError>)
    ensures
        r == uint128_sum(a, b),
{
    broadcast use group_u256;

    let value = lift(plus(a, b))?;
    if U256::from_u128(u128::MAX).lt(value) {
        Err(MathError::Invariant)
    } else {
        Ok(value)
    }
}

/// The IRM rates of an accrual: unchanged when no time has elapsed.
pub open spec fn accrual_rates(
    stored: StoredMarketState,
    rate_at_target: U256,
    elapsed: u64,
) -> Result<AdaptiveCurveProjection, MathError> {
    if elapsed == 0 {
        Ok(
            AdaptiveCurveProjection {
                average_rate: u256(0),
                ending_rate_at_target: rate_at_target,
            },
        )
    } else {
        adaptive_curve_borrow_rate_spec(
            stored.total_borrow_assets,
            stored.total_supply_assets,
            rate_at_target,
            elapsed,
        )
    }
}

/// Interest on the borrowed assets over the elapsed time.
pub open spec fn accrual_interest(
    borrow_assets: U256,
    average_rate: U256,
    elapsed: u64,
) -> Result<U256, MathError> {
    match lifted(w_taylor_compounded_spec(average_rate, u256(elapsed as nat))) {
        Err(error) => Err(error),
        Ok(compounded) => lifted(w_mul_down_spec(borrow_assets, compounded)),
    }
}

/// Shares minted for the fee cut of the interest, at the totals without that cut.
pub open spec fn accrual_fee_shares(
    interest: U256,
    fee: U256,
    supply_assets: U256,
    supply_shares: U256,
) -> Result<U256, MathError> {
    if fee@ == 0 {
        Ok(u256(0))
    } else {
        match lifted(w_mul_down_spec(interest, fee)) {
            Err(error) => Err(error),
            Ok(fee_assets) => match lifted(minus_spec(supply_assets, fee_assets)) {
                Err(error) => Err(error),
                Ok(remaining) => lifted(
                    to_supply_shares_down_spec(fee_assets, remaining, supply_shares),
                ),
            },
        }
    }
}

/// Utilization, borrow rate and supply rate of market totals under a target rate and fee.
pub open spec fn spot_rates_spec(
    borrow_assets: U256,
    supply_assets: U256,
    rate_at_target: U256,
    fee: U256,
) -> Result<(U256, U256, U256), MathError> {
    match utilization_spec(borrow_assets, supply_assets) {
        Err(error) => Err(error),
        Ok(utilization) => match adaptive_curve_spot_rate_spec(utilization, rate_at_target) {
            Err(error) => Err(error),
            Ok(borrow_rate) => match lifted(w_mul_down_spec(borrow_rate, utilization)) {
                Err(error) => Err(error),
                Ok(gross) => match lifted(minus_spec(u256(WAD as nat), fee)) {
                    Err(error) => Err(error),
                    Ok(retained) => match lifted(w_mul_down_spec(gross, retained)) {
                        Err(error) => Err(error),
                        Ok(supply_rate) => Ok((utilization, borrow_rate, supply_rate)),
                    },
                },
            },
        },
    }
}

/// Computes utilization, borrow rate and supply rate of market totals.
pub(crate) fn spot_rates(
    borrow_assets: U256,
    supply_assets: U256,
    rate_at_target: U256,
    fee: U256,
) -> (r: Result<(U256, U256, U256), MathError>)
    ensures
        r == spot_rates_spec(borrow_assets, supply_assets, rate_at_target, fee),
{
    let utilization = market_utilization(borrow_assets, supply_assets)?;
    let borrow_rate = adaptive_curve_spot_rate(utilization, rate_at_target)?;
    let gross = lift(w_mul_down(borrow_rate, utilization))?;
    let retained = lift(minus(wad(), fee))?;
    let supply_rate = lift(w_mul_down(gross, retained))?;
    Ok((utilization, borrow_rate, supply_rate))
}

/// The accrued market: interest grows both sides, the fee mints shares, and the rates are taken
/// at the new totals and the ending target rate.
pub open spec fn accrue_market_spec(
    stored: StoredMarketState,
    timestamp: u64,
    rate_at_target: U256,
) -> Result<MarketAccrualResult, MathError> {
    if timestamp < stored.last_update {
        Err(MathError::TimestampRegression)
    } else if stored.total_borrow_assets@ > stored.total_supply_assets@ || stored.fee@ > WAD {
        Err(MathError::Invariant)
    } else {
        let elapsed = (timestamp - stored.last_update) as u64;
        match accrual_rates(stored, rate_at_target, elapsed) {
            Err(error) => Err(error),
            Ok(rates) => match accrual_interest(
                stored.total_borrow_assets,
                rates.average_rate,
                elapsed,
            ) {
                Err(error) => Err(error),
                Ok(interest) => match uint128_sum(stored.total_borrow_assets, interest) {
                    Err(error) => Err(error),
                    Ok(borrow_assets) => match uint128_sum(stored.total_supply_assets, interest) {
                        Err(error) => Err(error),
                        Ok(supply_assets) => accrue_totals_spec(
                            stored,
                            timestamp,
                            rates,
                            interest,
                            borrow_assets,
                            supply_assets,
                        ),
                    },
                },
            },
        }
    }
}

/// The accrued market from its new asset totals.
pub open spec fn accrue_totals_spec(
    stored: StoredMarketState,
    timestamp: u64,
    rates: AdaptiveCurveProjection,
    interest: U256,
    borrow_assets: U256,
    supply_assets: U256,
) -> Result<MarketAccrualResult, MathError> {
    match accrual_fee_shares(interest, stored.fee, supply_assets, stored.total_supply_shares) {
        Err(error) => Err(error),
        Ok(fee_shares) => match uint128_sum(stored.total_supply_shares, fee_shares) {
            Err(error) => Err(error),
            Ok(supply_shares) => match spot_rates_spec(
                borrow_assets,
                supply_assets,
                rates.ending_rate_at_target,
                stored.fee,
            ) {
                Err(error) => Err(error),
                Ok((utilization, borrow_rate, supply_rate)) => match difference(
                    supply_assets,
                    borrow_assets,
                ) {
                    None => Err(MathError::Invariant),
                    Some(liquidity) => Ok(
                        MarketAccrualResult {
                            market: ProjectedMarketState {
                                market_id: stored.market_id,
                                timestamp,
                                total_supply_assets: supply_assets,
                                total_supply_shares: supply_shares,
                                total_borrow_assets: borrow_assets,
                                total_borrow_shares: stored.total_borrow_shares,
                                average_accrual_borrow_rate: rates.average_rate,
                                ending_rate_at_target: rates.ending_rate_at_target,
                                spot_borrow_rate: borrow_rate,
                                spot_supply_rate: supply_rate,
                                utilization,
                                accounting_liquidity: liquidity,
                            },
                            interest_assets: interest,
                            fee_shares,
                        },
                    ),
                },
            },
        },
    }
}

/// Accrues asset/share-unit market state to a Unix timestamp in `Morpho._accrueInterest` order.
/// WAD rates round as the source specifies; overflow, timestamp regression, or uint128-bound
/// violations return errors.
pub fn accrue_market(stored: &StoredMarketState, timestamp: u64, irm: &AdaptiveCurveState) -> (r:
    Result<MarketAccrualResult, MathError>)
    ensures
        r == accrue_market_spec(*stored, timestamp, irm.stored_rate_at_target),
{
    broadcast use group_u256;

    if timestamp < stored.last_update {
        return Err(MathError::TimestampRegression);
    }
    if stored.total_supply_assets.lt(stored.total_borrow_assets) || wad().lt(stored.fee) {
        return Err(MathError::Invariant);
    }
    let elapsed: u64 = timestamp - stored.last_update;
    let rates = if elapsed == 0 {
        AdaptiveCurveProjection {
            average_rate: U256::zero(),
            ending_rate_at_target: irm.stored_rate_at_target,
        }
    } else {
        adaptive_curve_borrow_rate(stored, irm.stored_rate_at_target, elapsed)?
    };
    let compounded = lift(w_taylor_compounded(rates.average_rate, U256::from_u64(elapsed)))?;
    let interest = lift(w_mul_down(stored.total_borrow_assets, compounded))?;
    let total_borrow_assets = add_uint128(stored.total_borrow_assets, interest)?;
    let total_supply_assets = add_uint128(stored.total_supply_assets, interest)?;
    let fee_shares = if stored.fee.is_zero() {
        U256::zero()
    } else {
        let fee_assets = lift(w_mul_down(interest, stored.fee))?;
        let remaining = lift(minus(total_supply_assets, fee_assets))?;
        lift(to_supply_shares_down(fee_assets, remaining, stored.total_supply_shares))?
    };
    let total_supply_shares = add_uint128(stored.total_supply_shares, fee_shares)?;
    let (utilization, spot_borrow_rate, spot_supply_rate) = spot_rates(
        total_borrow_assets,
        total_supply_assets,
        rates.ending_rate_at_target,
        stored.fee,
    )?;
    let accounting_liquidity = total_supply_assets.checked_sub(total_borrow_assets).ok_or(
        MathError::Invariant,
    )?;
    Ok(
        MarketAccrualResult {
            market: ProjectedMarketState {
                market_id: stored.market_id,
                timestamp,
                total_supply_assets,
                total_supply_shares,
                total_borrow_assets,
                total_borrow_shares: stored.total_borrow_shares,
                average_accrual_borrow_rate: rates.average_rate,
                ending_rate_at_target: rates.ending_rate_at_target,
                spot_borrow_rate,
                spot_supply_rate,
                utilization,
                accounting_liquidity,
            },
            interest_assets: interest,
            fee_shares,
        },
    )
}

/// Accrual adds the same interest to both sides, so accounting liquidity is unchanged by it, and
/// it never shrinks a total.
pub proof fn accrual_preserves_liquidity(
    stored: StoredMarketState,
    timestamp: u64,
    rate_at_target: U256,
)
    requires
        accrue_market_spec(stored, timestamp, rate_at_target) is Ok,
    ensures
        ({
            let accrued = accrue_market_spec(stored, timestamp, rate_at_target)->Ok_0;
            &&& accrued.market.total_borrow_assets@ == stored.total_borrow_assets@
                + accrued.interest_assets@
            &&& accrued.market.total_supply_assets@ == stored.total_supply_assets@
                + accrued.interest_assets@
            &&& accrued.market.accounting_liquidity@ == stored.total_supply_assets@
                - stored.total_borrow_assets@
            &&& accrued.market.total_supply_shares@ == stored.total_supply_shares@
                + accrued.fee_shares@
            &&& accrued.market.total_supply_assets@ <= u128::MAX
        }),
{
    broadcast use group_u256;

}

/// With no time elapsed, accrual leaves the totals and the target rate as they were.
pub proof fn accrual_without_elapsed_time_is_identity(
    stored: StoredMarketState,
    rate_at_target: U256,
)
    requires
        accrue_market_spec(stored, stored.last_update, rate_at_target) is Ok,
    ensures
        ({
            let accrued = accrue_market_spec(stored, stored.last_update, rate_at_target)->Ok_0;
            &&& accrued.interest_assets@ == 0
            &&& accrued.fee_shares@ == 0
            &&& accrued.market.total_supply_assets == stored.total_supply_assets
            &&& accrued.market.total_borrow_assets == stored.total_borrow_assets
            &&& accrued.market.total_supply_shares == stored.total_supply_shares
            &&& accrued.market.ending_rate_at_target == rate_at_target
        }),
{
    broadcast use group_u256;

    let accrued = accrue_market_spec(stored, stored.last_update, rate_at_target)->Ok_0;
    let b = stored.total_borrow_assets@ as int;
    assert(u256(0)@ * u256(0)@ == 0) by (nonlinear_arith)
        requires
            u256(0)@ == 0,
    ;
    assert(b * 0 == 0);
    assert(w_taylor_compounded_spec(u256(0), u256(0)) == Ok::<U256, ArithmeticError>(u256(0)));
    assert(accrued.interest_assets == u256(0)) by {
        assert(stored.total_borrow_assets@ * u256(0)@ == 0) by (nonlinear_arith)
            requires
                u256(0)@ == 0,
        ;
    }
    if stored.fee@ != 0 {
        assert(u256(0)@ * stored.fee@ == 0) by (nonlinear_arith)
            requires
                u256(0)@ == 0,
        ;
        let shares = u256((stored.total_supply_shares@ + VIRTUAL_SHARES) as nat);
        assert(u256(0)@ * shares@ == 0) by (nonlinear_arith)
            requires
                u256(0)@ == 0,
        ;
    }
    assert(accrued.fee_shares@ == 0);
}

} // verus!
