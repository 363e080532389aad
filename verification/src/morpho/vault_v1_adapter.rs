//! Exact ERC-4626 arithmetic for the Morpho Vault V1 idle adapter profile.

use vstd::arithmetic::power::pow;
use vstd::prelude::*;

use crate::domain::VaultV1LiquidityAdapterState;
use crate::morpho::blue_math::{
    mul_div_down, mul_div_down_spec, mul_div_up, mul_div_up_spec, to_supply_shares_down,
    to_supply_shares_down_spec, to_supply_shares_up, to_supply_shares_up_spec,
};
use crate::morpho::market_adapter::{signed_change, signed_change_spec};
use crate::morpho::{lift, lifted, MathError};
use crate::primitives::{difference, group_u256, sum, u256, word_modulus, I256, U256};

verus! {

/// Exact state transition produced by one liquidity-adapter action.
#[derive(Clone, Copy, Debug, PartialEq, Eq, Structural)]
pub struct VaultV1AdapterTransition {
    /// Wrapped-vault totals after the action.
    pub vault_total_assets: U256,
    /// Wrapped-vault share supply after the action.
    pub vault_total_supply: U256,
    /// Adapter share balance after the action.
    pub share_balance: U256,
    /// Exact adapter redeem value after the action.
    pub real_assets: U256,
    /// Signed change returned to the parent cap ledger.
    pub allocation_change: I256,
    /// Exact Morpho idle-market shares minted or burned.
    pub changed_morpho_shares: U256,
    /// Idle-market supply assets after the action.
    pub idle_market_total_supply_assets: U256,
    /// Idle-market supply shares after the action.
    pub idle_market_total_supply_shares: U256,
    /// Wrapped vault's idle-market position shares after the action.
    pub idle_market_supply_shares: U256,
}

proof fn lemma_pow10_growth(a: nat, b: nat)
    requires
        a <= b,
    ensures
        1 <= pow(10, a) <= pow(10, b),
{
    vstd::arithmetic::power::lemma_pow_positive(10, a);
    vstd::arithmetic::power::lemma_pow_increases(10, a, b);
}

/// `10^offset` when it fits a word.
pub open spec fn virtual_shares_spec(offset: u8) -> Result<U256, MathError> {
    if pow(10, offset as nat) < word_modulus() {
        Ok(u256(pow(10, offset as nat) as nat))
    } else {
        Err(MathError::Invariant)
    }
}

fn virtual_shares(offset: u8) -> (r: Result<U256, MathError>)
    ensures
        r == virtual_shares_spec(offset),
{
    broadcast use group_u256;

    let mut value = U256::one();
    let mut i: u8 = 0;
    assert(pow(10, 0) == 1) by {
        reveal(pow);
    }
    while i < offset
        invariant
            i <= offset,
            pow(10, i as nat) < word_modulus(),
            value == u256(pow(10, i as nat) as nat),
            pow(10, i as nat) >= 1,
        decreases offset - i,
    {
        broadcast use group_u256;

        proof {
            vstd::arithmetic::power::lemma_pow_adds(10, i as nat, 1);
            vstd::arithmetic::power::lemma_pow1(10);
            assert(pow(10, (i + 1) as nat) == pow(10, i as nat) * 10);
            lemma_pow10_growth((i + 1) as nat, offset as nat);
            assert(value@ * u256(10)@ == value@ * 10) by (nonlinear_arith)
                requires
                    u256(10)@ == 10,
            ;
        }
        value = value.checked_mul(U256::from_u64(10)).ok_or(MathError::Invariant)?;
        i = i + 1;
    }
    Ok(value)
}

/// Totals with the virtual balances added, when both fit a word.
pub open spec fn conversion_totals_spec(
    total_assets: U256,
    total_supply: U256,
    offset: u8,
) -> Result<(U256, U256), MathError> {
    match sum(total_assets, u256(1)) {
        None => Err(MathError::Invariant),
        Some(assets) => match virtual_shares_spec(offset) {
            Err(error) => Err(error),
            Ok(shares) => match sum(total_supply, shares) {
                None => Err(MathError::Invariant),
                Some(supply) => Ok((assets, supply)),
            },
        },
    }
}

fn conversion_totals(total_assets: U256, total_supply: U256, offset: u8) -> (r: Result<
    (U256, U256),
    MathError,
>)
    ensures
        r == conversion_totals_spec(total_assets, total_supply, offset),
{
    let assets = total_assets.checked_add(U256::one()).ok_or(MathError::Invariant)?;
    let shares = virtual_shares(offset)?;
    let supply = total_supply.checked_add(shares).ok_or(MathError::Invariant)?;
    Ok((assets, supply))
}

/// Shares for a deposit, rounded down.
pub open spec fn preview_deposit_spec(
    assets: U256,
    total_assets: U256,
    total_supply: U256,
    offset: u8,
) -> Result<U256, MathError> {
    match conversion_totals_spec(total_assets, total_supply, offset) {
        Err(error) => Err(error),
        Ok((asset_total, share_total)) => lifted(
            mul_div_down_spec(assets, share_total, asset_total),
        ),
    }
}

/// Exact MetaMorpho ERC-4626 previewDeposit conversion.
pub fn preview_deposit(assets: U256, total_assets: U256, total_supply: U256, offset: u8) -> (r:
    Result<U256, MathError>)
    ensures
        r == preview_deposit_spec(assets, total_assets, total_supply, offset),
{
    let (asset_total, share_total) = conversion_totals(total_assets, total_supply, offset)?;
    lift(mul_div_down(assets, share_total, asset_total))
}

/// Shares for a withdrawal, rounded up.
pub open spec fn preview_withdraw_spec(
    assets: U256,
    total_assets: U256,
    total_supply: U256,
    offset: u8,
) -> Result<U256, MathError> {
    match conversion_totals_spec(total_assets, total_supply, offset) {
        Err(error) => Err(error),
        Ok((asset_total, share_total)) => lifted(mul_div_up_spec(assets, share_total, asset_total)),
    }
}

/// Exact MetaMorpho ERC-4626 previewWithdraw conversion.
pub fn preview_withdraw(assets: U256, total_assets: U256, total_supply: U256, offset: u8) -> (r:
    Result<U256, MathError>)
    ensures
        r == preview_withdraw_spec(assets, total_assets, total_supply, offset),
{
    let (asset_total, share_total) = conversion_totals(total_assets, total_supply, offset)?;
    lift(mul_div_up(assets, share_total, asset_total))
}

/// Assets for redeemed shares, rounded down.
pub open spec fn preview_redeem_spec(
    shares: U256,
    total_assets: U256,
    total_supply: U256,
    offset: u8,
) -> Result<U256, MathError> {
    match conversion_totals_spec(total_assets, total_supply, offset) {
        Err(error) => Err(error),
        Ok((asset_total, share_total)) => lifted(
            mul_div_down_spec(shares, asset_total, share_total),
        ),
    }
}

/// Exact MetaMorpho ERC-4626 previewRedeem conversion.
pub fn preview_redeem(shares: U256, total_assets: U256, total_supply: U256, offset: u8) -> (r:
    Result<U256, MathError>)
    ensures
        r == preview_redeem_spec(shares, total_assets, total_supply, offset),
{
    let (asset_total, share_total) = conversion_totals(total_assets, total_supply, offset)?;
    lift(mul_div_down(shares, asset_total, share_total))
}

/// The transition to new wrapped-vault and idle-market balances.
pub open spec fn v1_settled(
    vault_total_assets: U256,
    vault_total_supply: U256,
    share_balance: U256,
    offset: u8,
    recorded: U256,
    changed_morpho_shares: U256,
    idle_assets: Option<U256>,
    idle_shares: Option<U256>,
    idle_position: Option<U256>,
) -> Result<VaultV1AdapterTransition, MathError> {
    match preview_redeem_spec(share_balance, vault_total_assets, vault_total_supply, offset) {
        Err(error) => Err(error),
        Ok(real_assets) => match signed_change_spec(real_assets, recorded) {
            Err(error) => Err(error),
            Ok(change) => match (idle_assets, idle_shares, idle_position) {
                (Some(assets), Some(shares), Some(position)) => Ok(
                    VaultV1AdapterTransition {
                        vault_total_assets,
                        vault_total_supply,
                        share_balance,
                        real_assets,
                        allocation_change: change,
                        changed_morpho_shares,
                        idle_market_total_supply_assets: assets,
                        idle_market_total_supply_shares: shares,
                        idle_market_supply_shares: position,
                    },
                ),
                _ => Err(MathError::Invariant),
            },
        },
    }
}

fn v1_settle(
    vault_total_assets: U256,
    vault_total_supply: U256,
    share_balance: U256,
    offset: u8,
    recorded: U256,
    changed_morpho_shares: U256,
    idle_assets: Option<U256>,
    idle_shares: Option<U256>,
    idle_position: Option<U256>,
) -> (r: Result<VaultV1AdapterTransition, MathError>)
    ensures
        r == v1_settled(
            vault_total_assets,
            vault_total_supply,
            share_balance,
            offset,
            recorded,
            changed_morpho_shares,
            idle_assets,
            idle_shares,
            idle_position,
        ),
{
    let real_assets = preview_redeem(
        share_balance,
        vault_total_assets,
        vault_total_supply,
        offset,
    )?;
    let allocation_change = signed_change(real_assets, recorded)?;
    match (idle_assets, idle_shares, idle_position) {
        (Some(assets), Some(shares), Some(position)) => Ok(
            VaultV1AdapterTransition {
                vault_total_assets,
                vault_total_supply,
                share_balance,
                real_assets,
                allocation_change,
                changed_morpho_shares,
                idle_market_total_supply_assets: assets,
                idle_market_total_supply_shares: shares,
                idle_market_supply_shares: position,
            },
        ),
        _ => Err(MathError::Invariant),
    }
}

/// Deposit of `assets` through the liquidity adapter.
pub open spec fn v1_allocate_spec(state: VaultV1LiquidityAdapterState, assets: U256) -> Result<
    VaultV1AdapterTransition,
    MathError,
> {
    if assets@ == 0 || assets@ > state.max_deposit@ {
        Err(MathError::Invariant)
    } else {
        match preview_deposit_spec(
            assets,
            state.vault_total_assets,
            state.vault_total_supply,
            state.decimals_offset,
        ) {
            Err(error) => Err(error),
            Ok(minted) => if minted@ == 0 {
                Err(MathError::Invariant)
            } else {
                match lifted(
                    to_supply_shares_down_spec(
                        assets,
                        state.idle_market_total_supply_assets,
                        state.idle_market_total_supply_shares,
                    ),
                ) {
                    Err(error) => Err(error),
                    Ok(changed) => if changed@ == 0 {
                        Err(MathError::Invariant)
                    } else {
                        match (
                            sum(state.vault_total_assets, assets),
                            sum(state.vault_total_supply, minted),
                            sum(state.share_balance, minted),
                        ) {
                            (Some(total_assets), Some(total_supply), Some(balance)) => v1_settled(
                                total_assets,
                                total_supply,
                                balance,
                                state.decimals_offset,
                                state.recorded_allocation,
                                changed,
                                sum(state.idle_market_total_supply_assets, assets),
                                sum(state.idle_market_total_supply_shares, changed),
                                sum(state.idle_market_supply_shares, changed),
                            ),
                            _ => Err(MathError::Invariant),
                        }
                    },
                }
            },
        }
    }
}

/// Simulates an exact deposit through the liquidity adapter.
pub fn allocate(state: &VaultV1LiquidityAdapterState, assets: U256) -> (r: Result<
    VaultV1AdapterTransition,
    MathError,
>)
    ensures
        r == v1_allocate_spec(*state, assets),
{
    if assets.is_zero() || state.max_deposit.lt(assets) {
        return Err(MathError::Invariant);
    }
    let minted = preview_deposit(
        assets,
        state.vault_total_assets,
        state.vault_total_supply,
        state.decimals_offset,
    )?;
    if minted.is_zero() {
        return Err(MathError::Invariant);
    }
    let changed_morpho_shares = lift(
        to_supply_shares_down(
            assets,
            state.idle_market_total_supply_assets,
            state.idle_market_total_supply_shares,
        ),
    )?;
    if changed_morpho_shares.is_zero() {
        return Err(MathError::Invariant);
    }
    let vault_total_assets = state.vault_total_assets.checked_add(assets).ok_or(
        MathError::Invariant,
    )?;
    let vault_total_supply = state.vault_total_supply.checked_add(minted).ok_or(
        MathError::Invariant,
    )?;
    let share_balance = state.share_balance.checked_add(minted).ok_or(MathError::Invariant)?;
    v1_settle(
        vault_total_assets,
        vault_total_supply,
        share_balance,
        state.decimals_offset,
        state.recorded_allocation,
        changed_morpho_shares,
        state.idle_market_total_supply_assets.checked_add(assets),
        state.idle_market_total_supply_shares.checked_add(changed_morpho_shares),
        state.idle_market_supply_shares.checked_add(changed_morpho_shares),
    )
}

/// Withdrawal of `assets` through the liquidity adapter.
pub open spec fn v1_deallocate_spec(state: VaultV1LiquidityAdapterState, assets: U256) -> Result<
    VaultV1AdapterTransition,
    MathError,
> {
    if assets@ == 0 || assets@ > state.max_withdraw@ || assets@ > state.vault_total_assets@ {
        Err(MathError::InsufficientLiquidity)
    } else {
        match preview_withdraw_spec(
            assets,
            state.vault_total_assets,
            state.vault_total_supply,
            state.decimals_offset,
        ) {
            Err(error) => Err(error),
            Ok(burned) => if burned@ > state.share_balance@ || burned@
                > state.vault_total_supply@ {
                Err(MathError::InsufficientShares)
            } else {
                match lifted(
                    to_supply_shares_up_spec(
                        assets,
                        state.idle_market_total_supply_assets,
                        state.idle_market_total_supply_shares,
                    ),
                ) {
                    Err(error) => Err(error),
                    Ok(changed) => if changed@ > state.idle_market_supply_shares@ || changed@
                        > state.idle_market_total_supply_shares@ {
                        Err(MathError::InsufficientShares)
                    } else {
                        v1_settled(
                            u256((state.vault_total_assets@ - assets@) as nat),
                            u256((state.vault_total_supply@ - burned@) as nat),
                            u256((state.share_balance@ - burned@) as nat),
                            state.decimals_offset,
                            state.recorded_allocation,
                            changed,
                            difference(state.idle_market_total_supply_assets, assets),
                            difference(state.idle_market_total_supply_shares, changed),
                            difference(state.idle_market_supply_shares, changed),
                        )
                    },
                }
            },
        }
    }
}

/// Simulates an exact withdrawal through the liquidity adapter.
pub fn deallocate(state: &VaultV1LiquidityAdapterState, assets: U256) -> (r: Result<
    VaultV1AdapterTransition,
    MathError,
>)
    ensures
        r == v1_deallocate_spec(*state, assets),
{
    if assets.is_zero() || state.max_withdraw.lt(assets) || state.vault_total_assets.lt(assets) {
        return Err(MathError::InsufficientLiquidity);
    }
    let burned = preview_withdraw(
        assets,
        state.vault_total_assets,
        state.vault_total_supply,
        state.decimals_offset,
    )?;
    if state.share_balance.lt(burned) || state.vault_total_supply.lt(burned) {
        return Err(MathError::InsufficientShares);
    }
    let changed_morpho_shares = lift(
        to_supply_shares_up(
            assets,
            state.idle_market_total_supply_assets,
            state.idle_market_total_supply_shares,
        ),
    )?;
    if state.idle_market_supply_shares.lt(changed_morpho_shares)
        || state.idle_market_total_supply_shares.lt(changed_morpho_shares) {
        return Err(MathError::InsufficientShares);
    }
    let vault_total_assets = state.vault_total_assets.checked_sub(assets).ok_or(
        MathError::Invariant,
    )?;
    let vault_total_supply = state.vault_total_supply.checked_sub(burned).ok_or(
        MathError::Invariant,
    )?;
    let share_balance = state.share_balance.checked_sub(burned).ok_or(MathError::Invariant)?;
    v1_settle(
        vault_total_assets,
        vault_total_supply,
        share_balance,
        state.decimals_offset,
        state.recorded_allocation,
        changed_morpho_shares,
        state.idle_market_total_supply_assets.checked_sub(assets),
        state.idle_market_total_supply_shares.checked_sub(changed_morpho_shares),
        state.idle_market_supply_shares.checked_sub(changed_morpho_shares),
    )
}

/// Withdrawing what was deposited restores the wrapped vault's total assets and the idle market's
/// supply assets.
pub proof fn liquidity_withdrawal_restores_assets(
    state: VaultV1LiquidityAdapterState,
    after: VaultV1LiquidityAdapterState,
    assets: U256,
)
    requires
        v1_allocate_spec(state, assets) is Ok,
        after.vault_total_assets == v1_allocate_spec(state, assets)->Ok_0.vault_total_assets,
        after.idle_market_total_supply_assets == v1_allocate_spec(
            state,
            assets,
        )->Ok_0.idle_market_total_supply_assets,
        v1_deallocate_spec(after, assets) is Ok,
    ensures
        v1_deallocate_spec(after, assets)->Ok_0.vault_total_assets == state.vault_total_assets,
        v1_deallocate_spec(after, assets)->Ok_0.idle_market_total_supply_assets
            == state.idle_market_total_supply_assets,
{
    broadcast use group_u256;

}

} // verus!
