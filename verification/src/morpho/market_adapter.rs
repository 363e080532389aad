//! Exact direct market-adapter allocation arithmetic.

use vstd::prelude::*;

use crate::domain::{CapRef, ProjectedMarketState};
use crate::morpho::blue_math::{
    minus, minus_spec, plus, plus_spec, to_supply_assets_down, to_supply_assets_down_spec,
    to_supply_shares_down, to_supply_shares_down_spec, to_supply_shares_up,
    to_supply_shares_up_spec, wad, WAD,
};
use crate::morpho::fees::{spot_rates, spot_rates_spec};
use crate::morpho::{lift, lifted, MathError};
use crate::primitives::{group_i256, group_u256, i256, signed_modulus, u256, I256, U256};

verus! {

/// Exact direct-adapter transition result.
#[derive(Clone, Copy, Debug)]
pub struct AdapterTransitionResult {
    /// Market state after the supply or withdrawal.
    pub market: ProjectedMarketState,
    /// Adapter internal supply shares after the action.
    pub internal_supply_shares: U256,
    /// Shares minted by supply or burned by withdrawal.
    pub changed_shares: U256,
    /// Adapter expected assets after the action.
    pub expected_assets: U256,
    /// Signed change relative to the parent's recorded pre-action allocation.
    pub allocation_change: I256,
    /// Adapter, collateral-token, and exact-market cap references.
    pub affected_caps: [CapRef; 3],
}

/// Asset value of internal shares at the projected totals, rounded down.
pub open spec fn expected_adapter_assets_spec(
    internal_supply_shares: U256,
    market: ProjectedMarketState,
) -> Result<U256, MathError> {
    lifted(
        to_supply_assets_down_spec(
            internal_supply_shares,
            market.total_supply_assets,
            market.total_supply_shares,
        ),
    )
}

/// Values internal share units in asset units with down rounding, matching
/// `MorphoMarketV1AdapterV2.expectedSupplyAssets`; overflow returns an error.
pub fn expected_adapter_assets(
    internal_supply_shares: U256,
    projected_market: &ProjectedMarketState,
) -> (r: Result<U256, MathError>)
    ensures
        r == expected_adapter_assets_spec(internal_supply_shares, *projected_market),
{
    lift(
        to_supply_assets_down(
            internal_supply_shares,
            projected_market.total_supply_assets,
            projected_market.total_supply_shares,
        ),
    )
}

/// `after - before` as a signed word, when both are below `2^255`.
pub open spec fn signed_change_spec(after: U256, before: U256) -> Result<I256, MathError> {
    if after@ < signed_modulus() && before@ < signed_modulus() {
        Ok(i256(after@ - before@))
    } else {
        Err(MathError::SignedConversion)
    }
}

/// Computes `after - before` as a signed word.
pub(crate) fn signed_change(after: U256, before: U256) -> (r: Result<I256, MathError>)
    ensures
        r == signed_change_spec(after, before),
{
    broadcast use group_i256;

    let after = I256::try_from_unsigned(after).ok_or(MathError::SignedConversion)?;
    let before = I256::try_from_unsigned(before).ok_or(MathError::SignedConversion)?;
    after.checked_sub(before).ok_or(MathError::Invariant)
}

/// The market with rates and liquidity taken at its totals.
pub open spec fn refreshed(market: ProjectedMarketState, fee: U256) -> Result<
    ProjectedMarketState,
    MathError,
> {
    if market.total_borrow_assets@ > market.total_supply_assets@ || fee@ > WAD {
        Err(MathError::Invariant)
    } else {
        match spot_rates_spec(
            market.total_borrow_assets,
            market.total_supply_assets,
            market.ending_rate_at_target,
            fee,
        ) {
            Err(error) => Err(error),
            Ok((utilization, borrow_rate, supply_rate)) => Ok(
                ProjectedMarketState {
                    utilization,
                    spot_borrow_rate: borrow_rate,
                    spot_supply_rate: supply_rate,
                    accounting_liquidity: u256(
                        (market.total_supply_assets@ - market.total_borrow_assets@) as nat,
                    ),
                    ..market
                },
            ),
        }
    }
}

fn refresh_rates(market: ProjectedMarketState, fee: U256) -> (r: Result<
    ProjectedMarketState,
    MathError,
>)
    ensures
        r == refreshed(market, fee),
{
    broadcast use group_u256;

    if market.total_supply_assets.lt(market.total_borrow_assets) || wad().lt(fee) {
        return Err(MathError::Invariant);
    }
    let (utilization, spot_borrow_rate, spot_supply_rate) = spot_rates(
        market.total_borrow_assets,
        market.total_supply_assets,
        market.ending_rate_at_target,
        fee,
    )?;
    let accounting_liquidity = market.total_supply_assets.checked_sub(
        market.total_borrow_assets,
    ).ok_or(MathError::Invariant)?;
    let mut result = market;
    result.utilization = utilization;
    result.spot_borrow_rate = spot_borrow_rate;
    result.spot_supply_rate = spot_supply_rate;
    result.accounting_liquidity = accounting_liquidity;
    Ok(result)
}

/// The transition to new totals and internal shares: rates refreshed, shares revalued, and the
/// allocation change taken against the recorded allocation.
pub open spec fn settled(
    market: ProjectedMarketState,
    supply_assets: U256,
    supply_shares: U256,
    internal_shares: U256,
    changed_shares: U256,
    recorded: U256,
    fee: U256,
    affected_caps: [CapRef; 3],
) -> Result<AdapterTransitionResult, MathError> {
    match refreshed(
        ProjectedMarketState {
            total_supply_assets: supply_assets,
            total_supply_shares: supply_shares,
            ..market
        },
        fee,
    ) {
        Err(error) => Err(error),
        Ok(after) => match expected_adapter_assets_spec(internal_shares, after) {
            Err(error) => Err(error),
            Ok(expected) => match signed_change_spec(expected, recorded) {
                Err(error) => Err(error),
                Ok(change) => Ok(
                    AdapterTransitionResult {
                        market: after,
                        internal_supply_shares: internal_shares,
                        changed_shares,
                        expected_assets: expected,
                        allocation_change: change,
                        affected_caps,
                    },
                ),
            },
        },
    }
}

fn settle(
    market: &ProjectedMarketState,
    supply_assets: U256,
    supply_shares: U256,
    internal_shares: U256,
    changed_shares: U256,
    recorded: U256,
    fee: U256,
    affected_caps: [CapRef; 3],
) -> (r: Result<AdapterTransitionResult, MathError>)
    ensures
        r == settled(
            *market,
            supply_assets,
            supply_shares,
            internal_shares,
            changed_shares,
            recorded,
            fee,
            affected_caps,
        ),
{
    let mut moved = *market;
    moved.total_supply_assets = supply_assets;
    moved.total_supply_shares = supply_shares;
    let after = refresh_rates(moved, fee)?;
    let expected_assets = expected_adapter_assets(internal_shares, &after)?;
    let allocation_change = signed_change(expected_assets, recorded)?;
    Ok(
        AdapterTransitionResult {
            market: after,
            internal_supply_shares: internal_shares,
            changed_shares,
            expected_assets,
            allocation_change,
            affected_caps,
        },
    )
}

/// Supply of `requested` assets: shares minted rounded down, at least one per asset.
pub open spec fn allocate_spec(
    market: ProjectedMarketState,
    internal_shares: U256,
    requested: U256,
    recorded: U256,
    fee: U256,
    affected_caps: [CapRef; 3],
) -> Result<AdapterTransitionResult, MathError> {
    match lifted(
        to_supply_shares_down_spec(
            requested,
            market.total_supply_assets,
            market.total_supply_shares,
        ),
    ) {
        Err(error) => Err(error),
        Ok(minted) => if requested@ != 0 && minted@ < requested@ {
            Err(MathError::SharePriceAboveOne)
        } else {
            match lifted(plus_spec(market.total_supply_assets, requested)) {
                Err(error) => Err(error),
                Ok(supply_assets) => match lifted(plus_spec(market.total_supply_shares, minted)) {
                    Err(error) => Err(error),
                    Ok(supply_shares) => match lifted(plus_spec(internal_shares, minted)) {
                        Err(error) => Err(error),
                        Ok(internal) => settled(
                            market,
                            supply_assets,
                            supply_shares,
                            internal,
                            minted,
                            recorded,
                            fee,
                            affected_caps,
                        ),
                    },
                },
            }
        },
    }
}

/// Applies asset-unit supply after accrual, matching adapter `allocate`. Minted shares round
/// down; every state intermediate and signed cap delta is checked.
pub fn allocate(
    accrued_market: &ProjectedMarketState,
    internal_supply_shares: U256,
    requested_assets: U256,
    parent_recorded_allocation: U256,
    market_fee: U256,
    affected_caps: [CapRef; 3],
) -> (r: Result<AdapterTransitionResult, MathError>)
    ensures
        r == allocate_spec(
            *accrued_market,
            internal_supply_shares,
            requested_assets,
            parent_recorded_allocation,
            market_fee,
            affected_caps,
        ),
{
    let minted_shares = lift(
        to_supply_shares_down(
            requested_assets,
            accrued_market.total_supply_assets,
            accrued_market.total_supply_shares,
        ),
    )?;
    if !requested_assets.is_zero() && minted_shares.lt(requested_assets) {
        return Err(MathError::SharePriceAboveOne);
    }
    let supply_assets = lift(plus(accrued_market.total_supply_assets, requested_assets))?;
    let supply_shares = lift(plus(accrued_market.total_supply_shares, minted_shares))?;
    let internal_shares = lift(plus(internal_supply_shares, minted_shares))?;
    settle(
        accrued_market,
        supply_assets,
        supply_shares,
        internal_shares,
        minted_shares,
        parent_recorded_allocation,
        market_fee,
        affected_caps,
    )
}

/// Withdrawal of `requested` assets: both liquidity domains cover it, and the shares burned,
/// rounded up, are owned.
pub open spec fn deallocate_spec(
    market: ProjectedMarketState,
    internal_shares: U256,
    requested: U256,
    recorded: U256,
    token_balance: U256,
    fee: U256,
    affected_caps: [CapRef; 3],
) -> Result<AdapterTransitionResult, MathError> {
    if requested@ > market.accounting_liquidity@ || requested@ > token_balance@ {
        Err(MathError::InsufficientLiquidity)
    } else {
        match lifted(
            to_supply_shares_up_spec(
                requested,
                market.total_supply_assets,
                market.total_supply_shares,
            ),
        ) {
            Err(error) => Err(error),
            Ok(burned) => if burned@ > internal_shares@ {
                Err(MathError::InsufficientShares)
            } else {
                match lifted(minus_spec(market.total_supply_assets, requested)) {
                    Err(error) => Err(error),
                    Ok(supply_assets) => match lifted(
                        minus_spec(market.total_supply_shares, burned),
                    ) {
                        Err(error) => Err(error),
                        Ok(supply_shares) => settled(
                            market,
                            supply_assets,
                            supply_shares,
                            u256((internal_shares@ - burned@) as nat),
                            burned,
                            recorded,
                            fee,
                            affected_caps,
                        ),
                    },
                }
            },
        }
    }
}

/// Applies asset-unit withdrawal after accrual, matching adapter `deallocate`. Burned shares
/// round up; ownership, both liquidity domains, and every state intermediate are checked.
pub fn deallocate(
    accrued_market: &ProjectedMarketState,
    internal_supply_shares: U256,
    requested_assets: U256,
    parent_recorded_allocation: U256,
    morpho_token_balance: U256,
    market_fee: U256,
    affected_caps: [CapRef; 3],
) -> (r: Result<AdapterTransitionResult, MathError>)
    ensures
        r == deallocate_spec(
            *accrued_market,
            internal_supply_shares,
            requested_assets,
            parent_recorded_allocation,
            morpho_token_balance,
            market_fee,
            affected_caps,
        ),
{
    if accrued_market.accounting_liquidity.lt(requested_assets) || morpho_token_balance.lt(
        requested_assets,
    ) {
        return Err(MathError::InsufficientLiquidity);
    }
    let burned_shares = lift(
        to_supply_shares_up(
            requested_assets,
            accrued_market.total_supply_assets,
            accrued_market.total_supply_shares,
        ),
    )?;
    if internal_supply_shares.lt(burned_shares) {
        return Err(MathError::InsufficientShares);
    }
    let supply_assets = lift(minus(accrued_market.total_supply_assets, requested_assets))?;
    let supply_shares = lift(minus(accrued_market.total_supply_shares, burned_shares))?;
    let internal_shares = lift(minus(internal_supply_shares, burned_shares))?;
    settle(
        accrued_market,
        supply_assets,
        supply_shares,
        internal_shares,
        burned_shares,
        parent_recorded_allocation,
        market_fee,
        affected_caps,
    )
}

/// A supply raises the market's assets by exactly the request, mints the same shares to the
/// market and to the adapter, and leaves the borrow side alone.
pub proof fn allocation_conserves_market(
    market: ProjectedMarketState,
    internal_shares: U256,
    requested: U256,
    recorded: U256,
    fee: U256,
    affected_caps: [CapRef; 3],
)
    requires
        allocate_spec(market, internal_shares, requested, recorded, fee, affected_caps) is Ok,
    ensures
        ({
            let after = allocate_spec(
                market,
                internal_shares,
                requested,
                recorded,
                fee,
                affected_caps,
            )->Ok_0;
            &&& after.market.total_supply_assets@ == market.total_supply_assets@ + requested@
            &&& after.market.total_supply_shares@ == market.total_supply_shares@
                + after.changed_shares@
            &&& after.internal_supply_shares@ == internal_shares@ + after.changed_shares@
            &&& after.market.total_borrow_assets == market.total_borrow_assets
            &&& after.market.accounting_liquidity@ == after.market.total_supply_assets@
                - market.total_borrow_assets@
            &&& after.allocation_change@ == after.expected_assets@ - recorded@
        }),
{
    broadcast use group_u256, group_i256;

}

/// A withdrawal lowers the market's assets by exactly the request, burns the same shares from the
/// market and from the adapter, and leaves the borrow side alone.
pub proof fn deallocation_conserves_market(
    market: ProjectedMarketState,
    internal_shares: U256,
    requested: U256,
    recorded: U256,
    token_balance: U256,
    fee: U256,
    affected_caps: [CapRef; 3],
)
    requires
        deallocate_spec(
            market,
            internal_shares,
            requested,
            recorded,
            token_balance,
            fee,
            affected_caps,
        ) is Ok,
    ensures
        ({
            let after = deallocate_spec(
                market,
                internal_shares,
                requested,
                recorded,
                token_balance,
                fee,
                affected_caps,
            )->Ok_0;
            &&& after.market.total_supply_assets@ == market.total_supply_assets@ - requested@
            &&& after.market.total_supply_shares@ == market.total_supply_shares@
                - after.changed_shares@
            &&& after.internal_supply_shares@ == internal_shares@ - after.changed_shares@
            &&& after.market.total_borrow_assets == market.total_borrow_assets
            &&& after.market.total_borrow_assets@ <= after.market.total_supply_assets@
            &&& requested@ <= market.accounting_liquidity@
            &&& requested@ <= token_balance@
            &&& after.allocation_change@ == after.expected_assets@ - recorded@
        }),
{
    broadcast use group_u256, group_i256;

}

} // verus!
