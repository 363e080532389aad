use morpho_v2_reallocator::collections::OrderedMap;
use morpho_v2_reallocator::domain::{
    AdapterAddress, ArithmeticError, CapId, CapRef, CapState, MarketId, MarketParams,
    ParentAccounting, ProjectedMarketState, RewardPolicy, StoredMarketState, VaultAddress,
    VaultV1LiquidityAdapterState,
};
use morpho_v2_reallocator::morpho::adaptive_curve::{
    adaptive_curve_borrow_rate, adaptive_curve_spot_rate, AdaptiveCurveState,
    INITIAL_RATE_AT_TARGET, MAX_RATE_AT_TARGET, MIN_RATE_AT_TARGET, TARGET_UTILIZATION,
};
use morpho_v2_reallocator::morpho::blue_math::{
    mul_div_down, mul_div_up, to_supply_assets_down, to_supply_assets_up, to_supply_shares_down,
    to_supply_shares_up, w_div_down, w_div_up, w_mul_down, w_taylor_compounded,
};
use morpho_v2_reallocator::morpho::fees::accrue_market;
use morpho_v2_reallocator::morpho::market_adapter::{allocate, deallocate, expected_adapter_assets};
use morpho_v2_reallocator::morpho::rewards::{
    release_one_reward_contribution, RewardContribution, RewardError,
};
use morpho_v2_reallocator::morpho::vault_v1_adapter;
use morpho_v2_reallocator::morpho::vault_v1_adapter::{
    preview_deposit, preview_redeem, preview_withdraw,
};
use morpho_v2_reallocator::morpho::vault_v2::accrue_accounting;
use morpho_v2_reallocator::morpho::MathError;
use morpho_v2_reallocator::primitives::{Address, B256, I256, U256};
use morpho_v2_reallocator::state::caps::{validate_allocation_cap, CapAdmissionError};

const WAD: u64 = 1_000_000_000_000_000_000;

fn n(value: u64) -> U256 {
    U256::from_u64(value)
}

fn live_seed_state() -> VaultV1LiquidityAdapterState {
    VaultV1LiquidityAdapterState {
        adapter: AdapterAddress(Address::with_last_byte(1)),
        parent_vault: Address::with_last_byte(2),
        morpho_vault_v1: Address::with_last_byte(3),
        adapter_id: CapId(B256::with_last_byte(4)),
        runtime_code_hash: B256::with_last_byte(5),
        morpho_vault_v1_runtime_code_hash: B256::with_last_byte(6),
        real_assets: n(1_000_000),
        recorded_allocation: n(1_000_000),
        share_balance: n(1_000_000_000_000_000_000),
        vault_total_assets: n(1_000_001),
        vault_total_supply: n(1_000_001_000_000_000_000),
        decimals_offset: 12,
        max_deposit: U256::max_value(),
        max_withdraw: n(1_000_000),
        idle_market_id: MarketId(B256::with_last_byte(7)),
        idle_market_total_supply_assets: n(1_715_610_570),
        idle_market_total_supply_shares: n(1_715_610_570_000_000),
        idle_market_supply_shares: n(1_000_001_000_000),
        skim_recipient: Address::zero(),
    }
}

fn stored(supply: u64, borrow: u64, last_update: u64) -> StoredMarketState {
    StoredMarketState {
        market_id: MarketId(B256::with_last_byte(1)),
        params: MarketParams {
            loan_token: Address::with_last_byte(2),
            collateral_token: Address::with_last_byte(3),
            oracle: Address::with_last_byte(4),
            irm: Address::with_last_byte(5),
            lltv: n(860_000_000_000_000_000),
        },
        total_supply_assets: n(supply),
        total_supply_shares: n(supply * 1_000_000),
        total_borrow_assets: n(borrow),
        total_borrow_shares: n(borrow * 1_000_000),
        last_update,
        fee: U256::zero(),
        irm: Address::with_last_byte(5),
        stored_rate_at_target: n(INITIAL_RATE_AT_TARGET),
        morpho_loan_token_balance: n(supply),
    }
}

fn curve() -> AdaptiveCurveState {
    AdaptiveCurveState { stored_rate_at_target: n(INITIAL_RATE_AT_TARGET) }
}

fn accrued(supply: u64, borrow: u64) -> ProjectedMarketState {
    accrue_market(&stored(supply, borrow, 100), 100, &curve()).unwrap().market
}

fn caps() -> [CapRef; 3] {
    let reference = |byte: u8| CapRef {
        vault: VaultAddress(Address::with_last_byte(9)),
        id: CapId(B256::with_last_byte(byte)),
    };
    [reference(1), reference(2), reference(3)]
}

fn parent(idle: u64, total: u64) -> ParentAccounting {
    ParentAccounting {
        idle_assets: n(idle),
        stored_total_assets: n(total),
        last_update: 100,
        max_rate: n(WAD),
        total_supply: n(total),
        virtual_shares: U256::one(),
        performance_fee: U256::zero(),
        performance_fee_recipient_allowed: true,
        management_fee: U256::zero(),
        management_fee_recipient_allowed: true,
    }
}

#[test]
fn live_hyperevm_seed_vectors_match_views() -> Result<(), MathError> {
    let state = live_seed_state();
    assert_eq!(
        preview_deposit(
            n(1_000_000),
            state.vault_total_assets,
            state.vault_total_supply,
            state.decimals_offset,
        )?,
        n(1_000_000_000_000_000_000)
    );
    assert_eq!(
        preview_withdraw(
            n(500_000),
            state.vault_total_assets,
            state.vault_total_supply,
            state.decimals_offset,
        )?,
        n(500_000_000_000_000_000)
    );
    Ok(())
}

#[test]
fn products_round_in_the_named_direction() {
    assert_eq!(mul_div_down(n(10), n(3), n(4)), Ok(n(7)));
    assert_eq!(mul_div_up(n(10), n(3), n(4)), Ok(n(8)));
    assert_eq!(mul_div_up(n(10), n(2), n(4)), Ok(n(5)));
    assert_eq!(mul_div_down(n(1), n(1), n(0)), Err(ArithmeticError::DivisionByZero));
    assert_eq!(
        mul_div_down(U256::max_value(), n(2), n(2)),
        Err(ArithmeticError::Overflow)
    );
    assert_eq!(w_mul_down(n(3), n(WAD / 2)), Ok(n(1)));
    assert_eq!(w_div_down(n(1), n(3)), Ok(n(333_333_333_333_333_333)));
    assert_eq!(w_div_up(n(1), n(3)), Ok(n(333_333_333_333_333_334)));
}

#[test]
fn compounding_uses_three_terms() {
    assert_eq!(
        w_taylor_compounded(n(10_000_000_000_000_000), n(10)),
        Ok(n(105_166_666_666_666_666))
    );
    assert_eq!(w_taylor_compounded(U256::zero(), n(10)), Ok(U256::zero()));
}

#[test]
fn shares_use_virtual_amounts() {
    assert_eq!(to_supply_shares_down(n(100), n(1_000), n(1_000_000_000)), Ok(n(100_000_000)));
    assert_eq!(to_supply_assets_down(n(100_000_000), n(1_000), n(1_000_000_000)), Ok(n(100)));
    assert_eq!(to_supply_shares_down(n(1), U256::zero(), U256::zero()), Ok(n(1_000_000)));
    assert_eq!(to_supply_shares_up(n(1), n(2), U256::zero()), Ok(n(333_334)));
    assert_eq!(to_supply_assets_up(n(1), n(2), U256::zero()), Ok(n(1)));
    assert_eq!(to_supply_assets_down(n(1), n(2), U256::zero()), Ok(n(0)));
}

#[test]
fn spot_rate_follows_the_curve() {
    let target = n(INITIAL_RATE_AT_TARGET);
    assert_eq!(adaptive_curve_spot_rate(n(TARGET_UTILIZATION), target), Ok(target));
    assert_eq!(adaptive_curve_spot_rate(U256::zero(), target), Ok(n(317_097_919)));
    assert_eq!(adaptive_curve_spot_rate(n(WAD), target), Ok(n(5_073_566_716)));
}

#[test]
fn target_rate_adapts_within_its_bounds() {
    let fresh = adaptive_curve_borrow_rate(&stored(1_000, 900, 100), U256::zero(), 0).unwrap();
    assert_eq!(fresh.ending_rate_at_target, n(INITIAL_RATE_AT_TARGET));
    let full =
        adaptive_curve_borrow_rate(&stored(1_000, 1_000, 100), n(MAX_RATE_AT_TARGET), 31_536_000)
            .unwrap();
    assert_eq!(full.ending_rate_at_target, n(MAX_RATE_AT_TARGET));
    let empty =
        adaptive_curve_borrow_rate(&stored(1_000, 0, 100), n(MIN_RATE_AT_TARGET), 31_536_000)
            .unwrap();
    assert_eq!(empty.ending_rate_at_target, n(MIN_RATE_AT_TARGET));
    let rising =
        adaptive_curve_borrow_rate(&stored(1_000, 1_000, 100), n(INITIAL_RATE_AT_TARGET), 86_400)
            .unwrap();
    assert!(n(INITIAL_RATE_AT_TARGET).lt(rising.ending_rate_at_target));
}

#[test]
fn accrual_keeps_liquidity() {
    let market = stored(1_000_000_000_000, 900_000_000_000, 100);
    let still = accrue_market(&market, 100, &curve()).unwrap();
    assert_eq!(still.interest_assets, U256::zero());
    assert_eq!(still.market.total_supply_assets, market.total_supply_assets);
    assert_eq!(still.market.accounting_liquidity, n(100_000_000_000));

    let later = accrue_market(&market, 100 + 31_536_000, &curve()).unwrap();
    assert!(U256::zero().lt(later.interest_assets));
    assert_eq!(later.market.accounting_liquidity, n(100_000_000_000));
    assert_eq!(later.fee_shares, U256::zero());
    assert_eq!(
        accrue_market(&market, 99, &curve()),
        Err(MathError::TimestampRegression)
    );
    let mut taxed = market;
    taxed.fee = n(WAD / 10);
    let taxed = accrue_market(&taxed, 100 + 31_536_000, &curve()).unwrap();
    assert!(U256::zero().lt(taxed.fee_shares));
}

#[test]
fn parent_growth_is_limited() {
    let mut adapters = OrderedMap::new();
    adapters.insert(AdapterAddress(Address::with_last_byte(1)), n(50));
    let grown = accrue_accounting(&parent(100, 100), &adapters, 110).unwrap();
    assert_eq!(grown.total_assets, n(150));
    let still = accrue_accounting(&parent(100, 100), &adapters, 100).unwrap();
    assert_eq!(still.total_assets, n(100));
    let loss = accrue_accounting(&parent(100, 200), &adapters, 110).unwrap();
    assert_eq!(loss.total_assets, n(150));
    assert_eq!(
        accrue_accounting(&parent(100, 100), &adapters, 99),
        Err(MathError::TimestampRegression)
    );
    let mut fees = parent(100, 100);
    fees.performance_fee = n(WAD / 10);
    let minted = accrue_accounting(&fees, &adapters, 110).unwrap();
    assert!(U256::zero().lt(minted.performance_fee_shares));
    fees.performance_fee_recipient_allowed = false;
    let barred = accrue_accounting(&fees, &adapters, 110).unwrap();
    assert_eq!(barred.performance_fee_shares, U256::zero());
}

#[test]
fn adapter_moves_assets_exactly() {
    let market = accrued(1_000_000_000, 500_000_000);
    let supplied =
        allocate(&market, U256::zero(), n(1_000), U256::zero(), U256::zero(), caps()).unwrap();
    assert_eq!(supplied.market.total_supply_assets, n(1_000_001_000));
    assert_eq!(supplied.allocation_change, I256::from_u64(1_000));
    assert_eq!(
        expected_adapter_assets(supplied.internal_supply_shares, &supplied.market),
        Ok(n(1_000))
    );
    let withdrawn = deallocate(
        &supplied.market,
        supplied.internal_supply_shares,
        n(400),
        n(1_000),
        n(1_000_001_000),
        U256::zero(),
        caps(),
    )
    .unwrap();
    assert_eq!(withdrawn.market.total_supply_assets, n(1_000_000_600));
    assert_eq!(withdrawn.expected_assets, n(600));
    assert!(withdrawn.allocation_change.is_negative());

    let drained = deallocate(
        &supplied.market,
        supplied.internal_supply_shares,
        n(400),
        n(1_000),
        n(399),
        U256::zero(),
        caps(),
    );
    assert_eq!(drained.unwrap_err(), MathError::InsufficientLiquidity);
    let excessive = deallocate(
        &supplied.market,
        supplied.internal_supply_shares,
        n(1_001),
        n(1_000),
        n(1_000_001_000),
        U256::zero(),
        caps(),
    );
    assert_eq!(excessive.unwrap_err(), MathError::InsufficientShares);
}

#[test]
fn liquidity_withdrawal_restores_the_deposit() {
    let state = live_seed_state();
    let deposited = vault_v1_adapter::allocate(&state, n(500_000)).unwrap();
    assert_eq!(deposited.real_assets, n(1_500_000));
    let mut after = state;
    after.vault_total_assets = deposited.vault_total_assets;
    after.vault_total_supply = deposited.vault_total_supply;
    after.share_balance = deposited.share_balance;
    after.real_assets = deposited.real_assets;
    after.recorded_allocation = n(1_500_000);
    after.max_withdraw = n(1_500_000);
    after.idle_market_total_supply_assets = deposited.idle_market_total_supply_assets;
    after.idle_market_total_supply_shares = deposited.idle_market_total_supply_shares;
    after.idle_market_supply_shares = deposited.idle_market_supply_shares;
    let withdrawn = vault_v1_adapter::deallocate(&after, n(500_000)).unwrap();
    assert_eq!(withdrawn.real_assets, n(1_000_000));
    assert_eq!(withdrawn.share_balance, state.share_balance);
    assert_eq!(
        preview_redeem(
            state.share_balance,
            state.vault_total_assets,
            state.vault_total_supply,
            state.decimals_offset,
        ),
        Ok(n(1_000_000))
    );
    assert!(vault_v1_adapter::deallocate(&state, n(1_000_001)).is_err());
}

#[test]
fn rewards_are_explicitly_zero_or_refused() {
    let valid = RewardPolicy::NoMaterialRewards {
        checked_at_block: 1,
        valid_until_timestamp: 100,
        evidence_hash: B256::with_last_byte(1),
    };
    assert_eq!(
        release_one_reward_contribution(&valid, 100),
        Ok(RewardContribution::ExplicitlyZero)
    );
    assert_eq!(release_one_reward_contribution(&valid, 101), Err(RewardError::Expired));
    assert_eq!(
        release_one_reward_contribution(&RewardPolicy::FixedUntilModeled, 1),
        Err(RewardError::Fixed)
    );
    let modeled = RewardPolicy::Modeled {
        model_revision: B256::with_last_byte(1),
        valid_until_timestamp: 100,
    };
    assert_eq!(
        release_one_reward_contribution(&modeled, 1),
        Err(RewardError::UnsupportedModel)
    );
    let anonymous = RewardPolicy::IgnoreRewardsByCuratorMandate { policy_revision: B256::zero() };
    assert_eq!(
        release_one_reward_contribution(&anonymous, 1),
        Err(RewardError::InvalidIdentity)
    );
}

#[test]
fn caps_admit_up_to_both_limits() {
    let cap = |absolute: u64, relative: u64| CapState {
        reference: caps()[0],
        id_data_hash: B256::zero(),
        absolute_cap: n(absolute),
        relative_cap: n(relative),
        recorded_allocation: U256::zero(),
    };
    assert_eq!(validate_allocation_cap(&cap(100, WAD), n(10), n(100)), Ok(()));
    assert_eq!(
        validate_allocation_cap(&cap(100, WAD), n(10), n(101)),
        Err(CapAdmissionError)
    );
    assert_eq!(validate_allocation_cap(&cap(100, WAD / 2), n(10), n(5)), Ok(()));
    assert_eq!(
        validate_allocation_cap(&cap(100, WAD / 2), n(10), n(6)),
        Err(CapAdmissionError)
    );
    assert_eq!(
        validate_allocation_cap(&cap(0, WAD), n(10), U256::zero()),
        Err(CapAdmissionError)
    );
}
