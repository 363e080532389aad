//! Exact Vault V2 parent accrual arithmetic.

use vstd::prelude::*;

use crate::collections::OrderedMap;
use crate::domain::{AdapterAddress, ArithmeticError, ParentAccounting, ParentVaultState};
use crate::morpho::blue_math::{
    mul_div_down, mul_div_down_spec, plus, plus_spec, times, times_spec, wad, WAD,
};
use crate::morpho::{lift, lifted, MathError};
use crate::primitives::{group_u256, saturating_difference, smaller, u256, word_modulus, U256};

verus! {

/// Exact result returned by the modeled `accrueInterestView` path.
#[derive(Clone, Copy, Debug, PartialEq, Eq, Structural)]
pub struct ParentAccrualResult {
    /// Max-rate-limited total assets, including realized losses.
    pub total_assets: U256,
    /// Parent share supply after both possible fee mints.
    pub projected_total_supply: U256,
    /// Performance fee shares minted.
    pub performance_fee_shares: U256,
    /// Management fee shares minted.
    pub management_fee_shares: U256,
}

/// Sum of the values from index `from` on, added to `total`.
pub open spec fn values_sum_from<K>(entries: Seq<(K, U256)>, from: int, total: U256) -> Result<
    U256,
    ArithmeticError,
>
    decreases entries.len() - from,
{
    if from >= entries.len() {
        Ok(total)
    } else {
        match plus_spec(total, entries[from].1) {
            Err(error) => Err(error),
            Ok(next) => values_sum_from(entries, from + 1, next),
        }
    }
}

fn add_values(values: &OrderedMap<AdapterAddress, U256>, start: U256) -> (r: Result<
    U256,
    ArithmeticError,
>)
    ensures
        r == values_sum_from(values@, 0, start),
{
    let mut total = start;
    let mut i: usize = 0;
    while i < values.len()
        invariant
            i <= values@.len(),
            values_sum_from(values@, 0, start) == values_sum_from(values@, i as int, total),
        decreases values@.len() - i,
    {
        total = plus(total, values.at(i).1)?;
        i = i + 1;
    }
    Ok(total)
}

/// Total assets after growth limited by the maximum rate.
pub open spec fn limited_total_assets(
    parent: ParentAccounting,
    real_assets: U256,
    elapsed: U256,
) -> Result<U256, MathError> {
    match lifted(times_spec(parent.stored_total_assets, elapsed)) {
        Err(error) => Err(error),
        Ok(elapsed_assets) => match lifted(
            mul_div_down_spec(elapsed_assets, parent.max_rate, u256(WAD as nat)),
        ) {
            Err(error) => Err(error),
            Ok(growth) => match lifted(plus_spec(parent.stored_total_assets, growth)) {
                Err(error) => Err(error),
                Ok(maximum) => Ok(smaller(real_assets, maximum)),
            },
        },
    }
}

/// Performance fee on the interest.
pub open spec fn performance_fee_assets_spec(parent: ParentAccounting, interest: U256) -> Result<
    U256,
    MathError,
> {
    if interest@ != 0 && parent.performance_fee@ != 0
        && parent.performance_fee_recipient_allowed {
        lifted(mul_div_down_spec(interest, parent.performance_fee, u256(WAD as nat)))
    } else {
        Ok(u256(0))
    }
}

/// Management fee on the time-weighted total assets.
pub open spec fn management_fee_assets_spec(
    parent: ParentAccounting,
    total_assets: U256,
    elapsed: U256,
) -> Result<U256, MathError> {
    if elapsed@ != 0 && parent.management_fee@ != 0 && parent.management_fee_recipient_allowed {
        match lifted(times_spec(total_assets, elapsed)) {
            Err(error) => Err(error),
            Ok(weighted) => lifted(
                mul_div_down_spec(weighted, parent.management_fee, u256(WAD as nat)),
            ),
        }
    } else {
        Ok(u256(0))
    }
}

/// Fee shares minted at the totals net of both fees, and the supply after the mints.
pub open spec fn fee_mint_spec(
    parent: ParentAccounting,
    total_assets: U256,
    performance_fee_assets: U256,
    management_fee_assets: U256,
) -> Result<ParentAccrualResult, MathError> {
    if performance_fee_assets@ + management_fee_assets@ > total_assets@ {
        Err(MathError::Invariant)
    } else {
        let net = u256(
            (total_assets@ - performance_fee_assets@ - management_fee_assets@) as nat,
        );
        match lifted(plus_spec(net, u256(1))) {
            Err(error) => Err(error),
            Ok(denominator) => match lifted(
                plus_spec(parent.total_supply, parent.virtual_shares),
            ) {
                Err(error) => Err(error),
                Ok(shares) => match lifted(
                    mul_div_down_spec(performance_fee_assets, shares, denominator),
                ) {
                    Err(error) => Err(error),
                    Ok(performance_fee_shares) => match lifted(
                        mul_div_down_spec(management_fee_assets, shares, denominator),
                    ) {
                        Err(error) => Err(error),
                        Ok(management_fee_shares) => if parent.total_supply@
                            + performance_fee_shares@ + management_fee_shares@ >= word_modulus() {
                            Err(MathError::Arithmetic(ArithmeticError::Overflow))
                        } else {
                            Ok(
                                ParentAccrualResult {
                                    total_assets,
                                    projected_total_supply: u256(
                                        parent.total_supply@ + performance_fee_shares@
                                            + management_fee_shares@,
                                    ),
                                    performance_fee_shares,
                                    management_fee_shares,
                                },
                            )
                        },
                    },
                },
            },
        }
    }
}

/// Parent accrual from authoritative adapter values.
pub open spec fn accrue_parent_spec(
    parent: ParentAccounting,
    adapter_real_assets: Seq<(AdapterAddress, U256)>,
    timestamp: u64,
) -> Result<ParentAccrualResult, MathError> {
    if timestamp < parent.last_update {
        Err(MathError::TimestampRegression)
    } else {
        let elapsed = u256((timestamp - parent.last_update) as nat);
        match lifted(values_sum_from(adapter_real_assets, 0, parent.idle_assets)) {
            Err(error) => Err(error),
            Ok(real_assets) => match limited_total_assets(parent, real_assets, elapsed) {
                Err(error) => Err(error),
                Ok(total_assets) => match performance_fee_assets_spec(
                    parent,
                    saturating_difference(total_assets, parent.stored_total_assets),
                ) {
                    Err(error) => Err(error),
                    Ok(performance) => match management_fee_assets_spec(
                        parent,
                        total_assets,
                        elapsed,
                    ) {
                        Err(error) => Err(error),
                        Ok(management) => fee_mint_spec(
                            parent,
                            total_assets,
                            performance,
                            management,
                        ),
                    },
                },
            },
        }
    }
}

/// Accrues parent quantities from authoritative adapter values.
pub fn accrue_accounting(
    parent: &ParentAccounting,
    adapter_real_assets: &OrderedMap<AdapterAddress, U256>,
    timestamp: u64,
) -> (r: Result<ParentAccrualResult, MathError>)
    ensures
        r == accrue_parent_spec(*parent, adapter_real_assets@, timestamp),
{
    broadcast use group_u256;

    if timestamp < parent.last_update {
        return Err(MathError::TimestampRegression);
    }
    let real_assets = lift(add_values(adapter_real_assets, parent.idle_assets))?;
    let elapsed = U256::from_u64(timestamp - parent.last_update);
    let elapsed_assets = lift(times(parent.stored_total_assets, elapsed))?;
    let maximum_growth = lift(mul_div_down(elapsed_assets, parent.max_rate, wad()))?;
    let maximum_total_assets = lift(plus(parent.stored_total_assets, maximum_growth))?;
    let new_total_assets = real_assets.min(maximum_total_assets);
    let interest = new_total_assets.saturating_sub(parent.stored_total_assets);
    let performance_fee_assets = if !interest.is_zero() && !parent.performance_fee.is_zero()
        && parent.performance_fee_recipient_allowed {
        lift(mul_div_down(interest, parent.performance_fee, wad()))?
    } else {
        U256::zero()
    };
    let management_fee_assets = if !elapsed.is_zero() && !parent.management_fee.is_zero()
        && parent.management_fee_recipient_allowed {
        let time_weighted_assets = lift(times(new_total_assets, elapsed))?;
        lift(mul_div_down(time_weighted_assets, parent.management_fee, wad()))?
    } else {
        U256::zero()
    };
    mint_fees(parent, new_total_assets, performance_fee_assets, management_fee_assets)
}

fn mint_fees(
    parent: &ParentAccounting,
    total_assets: U256,
    performance_fee_assets: U256,
    management_fee_assets: U256,
) -> (r: Result<ParentAccrualResult, MathError>)
    ensures
        r == fee_mint_spec(*parent, total_assets, performance_fee_assets, management_fee_assets),
{
    broadcast use group_u256;

    let after_performance = total_assets.checked_sub(performance_fee_assets).ok_or(
        MathError::Invariant,
    )?;
    let assets_without_fees = after_performance.checked_sub(management_fee_assets).ok_or(
        MathError::Invariant,
    )?;
    let denominator = lift(plus(assets_without_fees, U256::one()))?;
    let shares_with_virtual = lift(plus(parent.total_supply, parent.virtual_shares))?;
    let performance_fee_shares = lift(
        mul_div_down(performance_fee_assets, shares_with_virtual, denominator),
    )?;
    let management_fee_shares = lift(
        mul_div_down(management_fee_assets, shares_with_virtual, denominator),
    )?;
    let with_performance = lift(plus(parent.total_supply, performance_fee_shares))?;
    let projected_total_supply = lift(plus(with_performance, management_fee_shares))?;
    Ok(
        ParentAccrualResult {
            total_assets,
            projected_total_supply,
            performance_fee_shares,
            management_fee_shares,
        },
    )
}

/// Reproduces Vault V2 `accrueInterestView` from asset-unit authoritative adapter values and a
/// Unix timestamp. Fee shares round down; all source-width arithmetic and timestamp ordering are
/// checked.
pub fn accrue_parent_view(
    parent: &ParentVaultState,
    adapter_real_assets: &OrderedMap<AdapterAddress, U256>,
    timestamp: u64,
) -> (r: Result<ParentAccrualResult, MathError>)
    ensures
        r == accrue_parent_spec(parent.accounting_spec(), adapter_real_assets@, timestamp),
{
    accrue_accounting(&parent.accounting(), adapter_real_assets, timestamp)
}

/// Accrued total assets never exceed the assets that back them, nor the stored total grown at the
/// maximum rate, and the share supply never shrinks.
pub proof fn parent_accrual_is_bounded(
    parent: ParentAccounting,
    adapter_real_assets: Seq<(AdapterAddress, U256)>,
    timestamp: u64,
)
    requires
        accrue_parent_spec(parent, adapter_real_assets, timestamp) is Ok,
    ensures
        values_sum_from(adapter_real_assets, 0, parent.idle_assets) is Ok,
        ({
            let accrued = accrue_parent_spec(parent, adapter_real_assets, timestamp)->Ok_0;
            let backing = values_sum_from(adapter_real_assets, 0, parent.idle_assets)->Ok_0;
            &&& accrued.total_assets@ <= backing@
            &&& accrued.projected_total_supply@ == parent.total_supply@
                + accrued.performance_fee_shares@ + accrued.management_fee_shares@
        }),
{
    broadcast use group_u256;

}

} // verus!
