use morpho_v2_reallocator::collections::OrderedMap;
use morpho_v2_reallocator::config::{
    RuntimeMode, TopKApyConfig, ValidatedPositionConfig, ValidatedRateGroupConfig,
    ValidatedTopKApyConfig, ValidatedVaultConfig, VaultStrategy,
};
use morpho_v2_reallocator::domain::{
    derive_market_id, derive_position_key, AdapterAddress, MarketId, MarketMode, MarketParams,
    RateGroupId, RewardPolicy, TokenAddress, V2Action, VaultAddress,
};
use morpho_v2_reallocator::planner::top_k_apy::{
    annualized_supply_yield, candidate_amounts, effective_target_weights, fourth_market_allowed,
    market_can_hold_target, market_transition_allowed, membership_confirmed,
    movement_action_candidates, proposed_membership, smoothed_rate, target_allocations,
    top_market_boost_required, transition_apy_improvements_allowed, TopKApyError, TopKApyMemory,
    TopKApyTarget, TopKMarketEvidence,
};
use morpho_v2_reallocator::primitives::{Address, B256, U256};

fn units(value: u64) -> U256 {
    U256::from_u64(value)
}

fn market(byte: u64) -> MarketId {
    let limb = byte * 0x0101_0101_0101_0101;
    MarketId(B256::from_word(U256::from_limbs([limb, limb, limb, limb])))
}

fn settings() -> ValidatedTopKApyConfig {
    let config = TopKApyConfig {
        enter_apy_bps: 200,
        exit_apy_bps: 250,
        replacement_apy_bps: 100,
        fourth_market_max_gap_apy_bps: 250,
        top_market_boost_threshold_apy_bps: 200,
        top_market_boost_weight_bps: 7_000,
        three_market_weights_bps: vec![5_000, 3_000, 2_000],
        four_market_weights_bps: vec![4_000, 3_000, 2_000, 1_000],
        ..TopKApyConfig::default()
    };
    assert!(config.validate(RuntimeMode::Shadow, true).is_ok());
    config.canonical().unwrap()
}

fn position(byte: u8) -> ValidatedPositionConfig {
    let adapter = AdapterAddress(Address::with_last_byte(10));
    let market_params = MarketParams {
        loan_token: Address::with_last_byte(2),
        collateral_token: Address::with_last_byte(byte),
        oracle: Address::with_last_byte(4),
        irm: Address::with_last_byte(5),
        lltv: units(860_000_000_000_000_000),
    };
    ValidatedPositionConfig {
        position_key: derive_position_key(adapter, &market_params),
        adapter,
        market_params,
        market_id: derive_market_id(&market_params),
        mode: MarketMode::Active,
        rate_group: RateGroupId(B256::with_last_byte(1)),
        minimum_position_assets: U256::zero(),
        maximum_position_assets: U256::max_value(),
        minimum_source_liquidity_assets: U256::zero(),
        maximum_source_utilization_wad: units(1_000_000_000_000_000_000),
        minimum_relevance_entry_assets: U256::zero(),
        minimum_relevance_exit_assets: U256::zero(),
        minimum_rate_relevant_market_supply_assets: U256::zero(),
        minimum_rate_relevant_market_borrow_assets: U256::zero(),
        minimum_destination_market_supply_assets: U256::zero(),
        minimum_destination_market_supply_shares: U256::zero(),
        maximum_action_assets: U256::max_value(),
        allow_active_complete_exit: true,
        complete_exit_dust_threshold_assets: U256::zero(),
        reward_policy: RewardPolicy::FixedUntilModeled,
    }
}

fn vault(count: u8) -> ValidatedVaultConfig {
    let mut positions: Vec<ValidatedPositionConfig> = (0..count).map(|i| position(30 + i)).collect();
    positions.sort_by_key(|position| position.position_key.0.to_bytes());
    ValidatedVaultConfig {
        name: "vault".to_owned(),
        address: VaultAddress(Address::with_last_byte(1)),
        asset: TokenAddress(Address::with_last_byte(2)),
        asset_decimals: 6,
        expected_vault_code_hash: B256::with_last_byte(3),
        deployment_block: 1,
        signer_address: Address::with_last_byte(20),
        strategy: VaultStrategy::TopKApyDiversified,
        strict_zero_routine_idle: true,
        minimum_action_assets: U256::one(),
        maximum_rounding_dust_assets: U256::zero(),
        maximum_immediate_rebalance_loss_assets: U256::zero(),
        maximum_terminal_value_sacrifice_assets: U256::zero(),
        minimum_active_positions_after_economic_exit: 0,
        maximum_movement_per_hour_assets: U256::max_value(),
        maximum_movement_per_day_assets: U256::max_value(),
        minimum_independent_event_assets: U256::one(),
        minimum_atomic_exit_coverage_assets: U256::zero(),
        minimum_liquidity_adapter_assets: U256::zero(),
        minimum_deposit_headroom_assets: U256::zero(),
        deposit_headroom_search_upper_bound_assets: U256::one(),
        minimum_source_token_liquidity_assets: U256::zero(),
        lock_operator_clearance_required: false,
        unattributed_idle_fail_closed: false,
        require_supported_nonzero_liquidity_adapter: false,
        require_zero_gates: false,
        required_vault_dead_address: Address::zero(),
        minimum_market_dead_supply_shares: U256::zero(),
        approved_allocators: Vec::new(),
        approved_sentinels: Vec::new(),
        rate_group: ValidatedRateGroupConfig {
            name: "core".to_owned(),
            id: RateGroupId(B256::with_last_byte(1)),
            minimum_assets: U256::zero(),
            target_assets: U256::zero(),
            maximum_assets: U256::max_value(),
            allow_cross_group_movement: false,
        },
        adapters: Vec::new(),
        liquidity_adapter: None,
        positions,
    }
}

fn evidence(market: MarketId, rate: U256) -> TopKMarketEvidence {
    TopKMarketEvidence {
        market,
        current_rate: rate,
        post_probe_rate: rate,
        smoothed_rate: rate,
        ranking_rate: rate,
        destination_capacity: U256::max_value(),
    }
}

fn empty_memory(selected_markets: Vec<MarketId>) -> TopKApyMemory {
    TopKApyMemory {
        last_observed_block: 0,
        last_observed_timestamp: 0,
        generation: 0,
        selected_markets,
        smoothed_rate_by_market: OrderedMap::new(),
        pending_selected_markets: Vec::new(),
        pending_selection_since_timestamp: None,
        last_reconciled_rebalance_timestamp: 0,
    }
}

fn amount(value: U256, factor: u64) -> U256 {
    U256::from_u64(value.to_u64().unwrap() * factor)
}

fn moved(actions: &Vec<V2Action>, allocates: bool, position: &ValidatedPositionConfig, assets: U256) -> bool {
    actions.iter().any(|action| match action {
        V2Action::Allocate { position: key, requested_assets, .. } => {
            allocates && *key == position.position_key && requested_assets.0 == assets
        }
        V2Action::Deallocate { position: key, requested_assets, .. } => {
            !allocates && *key == position.position_key && requested_assets.0 == assets
        }
    })
}

#[test]
fn downside_is_immediate_and_upside_uses_twenty_percent() {
    assert_eq!(smoothed_rate(Some(units(1_000)), units(900), 2_000), Some(units(900)));
    assert_eq!(smoothed_rate(Some(units(1_000)), units(2_000), 2_000), Some(units(1_200)));
}

#[test]
fn immediate_candidate_uses_ninety_percent_before_smaller_fallbacks() {
    let result = candidate_amounts(units(1_000), 9_000, units(10));
    assert!(result.is_ok());
    let amounts = result.unwrap_or_default();
    assert_eq!(amounts.first(), Some(&units(900)));
}

#[test]
fn movement_search_enumerates_the_source_that_releases_a_shared_destination_cap() {
    let vault = vault(4);
    assert!(vault.positions.len() >= 3);
    let [source_a, source_b, destination, ..] = vault.positions.as_slice() else {
        return;
    };
    let unit = units(1_000_000);
    let mut current = OrderedMap::new();
    current.insert(source_a.market_id, amount(unit, 500));
    current.insert(source_b.market_id, amount(unit, 200));
    current.insert(destination.market_id, U256::zero());
    let mut targets = OrderedMap::new();
    targets.insert(source_a.market_id, amount(unit, 200));
    targets.insert(source_b.market_id, U256::zero());
    targets.insert(destination.market_id, amount(unit, 500));
    let mut evidence_by_market = OrderedMap::new();
    for position in [source_a, source_b, destination] {
        evidence_by_market.insert(position.market_id, evidence(position.market_id, U256::one()));
    }
    let target = TopKApyTarget {
        selected_markets: vec![source_a.market_id, destination.market_id],
        target_assets_by_market: targets,
        current_assets_by_market: current,
        evidence_by_market,
        target_direct_assets: amount(unit, 700),
        current_score_wad: U256::max_value(),
    };
    let candidates = movement_action_candidates(&target, &vault, amount(unit, 450), 10_000);
    assert!(candidates.is_ok());
    let Ok(candidates) = candidates else {
        return;
    };
    assert!(candidates.search_complete);
    assert!(candidates.actions.iter().any(|actions| {
        moved(actions, false, source_a, amount(unit, 250))
            && moved(actions, false, source_b, amount(unit, 200))
            && moved(actions, true, destination, amount(unit, 450))
    }));
}

#[test]
fn fourth_market_uses_one_inclusive_best_to_fourth_250_bps_boundary() {
    let best = units(1_000);
    assert!(fourth_market_allowed(best, units(750), units(250)));
    assert!(!fourth_market_allowed(best, units(749), units(250)));
    assert!(fourth_market_allowed(units(999), best, U256::zero()));
}

#[test]
fn fourth_market_requires_a_meaningful_reachable_target() {
    let evidence = TopKMarketEvidence {
        market: market(4),
        current_rate: units(100),
        post_probe_rate: units(100),
        smoothed_rate: units(100),
        ranking_rate: units(100),
        destination_capacity: units(80),
    };
    assert!(market_can_hold_target(&evidence, units(20), units(100), units(10)));
    assert!(!market_can_hold_target(&evidence, units(19), units(100), units(10)));
    assert!(!market_can_hold_target(&evidence, units(20), units(9), units(10)));
}

#[test]
fn fourth_market_membership_depends_on_best_to_fourth_apy_not_vault_size() {
    let vault = vault(5);
    let settings = settings();
    let markets: Vec<MarketId> = vault
        .positions
        .iter()
        .filter(|position| position.mode == MarketMode::Active)
        .take(4)
        .map(|position| position.market_id)
        .collect();
    assert_eq!(markets.len(), 4);
    let mut current = OrderedMap::new();
    for market in &markets {
        current.insert(*market, U256::zero());
    }
    let equal: Vec<TopKMarketEvidence> =
        markets.iter().map(|market| evidence(*market, U256::one())).collect();
    let selected = proposed_membership(
        &equal,
        units(100),
        &current,
        &vault,
        &empty_memory(Vec::new()),
        &settings,
    );
    assert_eq!(selected, Ok(markets.clone()));

    let separated: Vec<TopKMarketEvidence> = markets
        .iter()
        .enumerate()
        .map(|(offset, market)| {
            let rate = if offset == 0 { units(3_170_979_198) } else { U256::zero() };
            evidence(*market, rate)
        })
        .collect();
    let selected = proposed_membership(
        &separated,
        units(100),
        &current,
        &vault,
        &empty_memory(Vec::new()),
        &settings,
    );
    assert_eq!(selected, Ok(markets[..3].to_vec()));

    let previously_four = empty_memory(markets.clone());
    let selected = proposed_membership(
        &separated,
        units(100),
        &current,
        &vault,
        &previously_four,
        &settings,
    );
    assert_eq!(selected, Ok(markets[..3].to_vec()));
}

#[test]
fn market_transition_enforces_exact_200_250_and_100_bps_boundaries() {
    let settings = settings();
    let base = 100_000_000_000_000_000_u64;
    let enter = settings.enter_apy_wad.to_u64().unwrap();
    let exit = settings.exit_apy_wad.to_u64().unwrap();
    let replacement = settings.replacement_apy_wad.to_u64().unwrap();
    assert_eq!(enter, 20_000_000_000_000_000);
    assert_eq!(exit, 25_000_000_000_000_000);
    assert_eq!(replacement, 10_000_000_000_000_000);
    let allowed = |ranking: u64, current: u64, probe: u64| {
        transition_apy_improvements_allowed(
            units(ranking),
            units(base),
            units(current),
            units(base),
            units(probe),
            units(base),
            &settings,
        )
    };
    assert!(allowed(base + enter, base + exit, base + replacement));
    assert!(!allowed(base + enter - 1, base + exit, base + replacement));
    assert!(!allowed(base + enter, base + exit - 1, base + replacement));
    assert!(!allowed(base + enter, base + exit, base + replacement - 1));
}

#[test]
fn annualized_supply_yield_uses_compounding_not_simple_apr() {
    let one_percent_apr_rate = units(317_097_919);
    let apy = annualized_supply_yield(one_percent_apr_rate);
    assert!(apy.is_ok());
    assert!(units(10_000_000_000_000_000).lt(apy.unwrap()));
}

#[test]
fn canonical_membership_confirmation_is_inclusive_and_overflow_safe() {
    assert!(!membership_confirmed(Some(1_000), 2_799, 1_800));
    assert!(membership_confirmed(Some(1_000), 2_800, 1_800));
    assert!(!membership_confirmed(Some(u64::MAX), u64::MAX, 1));
    assert!(!membership_confirmed(None, 2_800, 1_800));
}

#[test]
fn target_weights_are_exact_and_conservative() {
    let settings = settings();
    let three = vec![market(1), market(2), market(3)];
    let targets = target_allocations(&three, units(1_000), &settings.three_market_weights_bps);
    assert!(targets.is_ok());
    let targets = targets.unwrap();
    assert_eq!(targets.get(three[0]), Some(units(500)));
    assert_eq!(targets.get(three[1]), Some(units(300)));
    assert_eq!(targets.get(three[2]), Some(units(200)));

    let four = vec![three[0], three[1], three[2], market(4)];
    let targets = target_allocations(&four, units(1_003), &settings.four_market_weights_bps);
    assert!(targets.is_ok());
    let targets = targets.unwrap();
    assert_eq!(targets.get(four[0]), Some(units(401)));
    assert_eq!(targets.get(four[1]), Some(units(300)));
    assert_eq!(targets.get(four[2]), Some(units(200)));
    assert_eq!(targets.get(four[3]), Some(units(102)));
}

#[test]
fn top_market_boost_is_strictly_above_200_bps() {
    let threshold = units(200);
    let other_sum = units(1_600);
    assert_eq!(top_market_boost_required(units(1_000), other_sum, 2, threshold), Ok(false));
    assert_eq!(top_market_boost_required(units(1_001), other_sum, 2, threshold), Ok(true));
}

#[test]
fn top_market_boost_caps_at_seventy_percent_and_preserves_other_proportions() {
    let settings = settings();
    let markets = vec![market(1), market(2), market(3), market(4)];
    let three = markets[..3].to_vec();
    let equal: Vec<TopKMarketEvidence> =
        markets.iter().map(|market| evidence(*market, U256::one())).collect();
    assert_eq!(
        effective_target_weights(&three, &equal, &settings),
        Ok(vec![5_000, 3_000, 2_000])
    );
    assert_eq!(
        effective_target_weights(&markets, &equal, &settings),
        Ok(vec![4_000, 3_000, 2_000, 1_000])
    );

    let leading: Vec<TopKMarketEvidence> = markets
        .iter()
        .enumerate()
        .map(|(offset, market)| {
            let rate = if offset == 0 { units(3_170_979_198) } else { U256::zero() };
            evidence(*market, rate)
        })
        .collect();
    assert_eq!(
        effective_target_weights(&three, &leading, &settings),
        Ok(vec![7_000, 1_800, 1_200])
    );
    assert_eq!(
        effective_target_weights(&markets, &leading, &settings),
        Ok(vec![7_000, 1_500, 1_000, 500])
    );
}

#[test]
fn first_observation_is_not_smoothed() {
    assert_eq!(smoothed_rate(None, units(77), 2_000), Some(units(77)));
    assert_eq!(smoothed_rate(Some(units(0)), U256::max_value(), 10_000), None);
}

#[test]
fn weights_need_three_or_four_markets() {
    assert_eq!(
        effective_target_weights(&vec![market(1)], &Vec::new(), &settings()),
        Err(TopKApyError::IncompleteState)
    );
}

#[test]
fn equal_markets_do_not_replace_each_other() {
    let rate = units(1_000_000_000);
    assert_eq!(
        market_transition_allowed(
            &evidence(market(1), rate),
            &evidence(market(2), rate),
            &settings()
        ),
        Ok(false)
    );
    assert_eq!(
        market_transition_allowed(
            &evidence(market(1), U256::max_value()),
            &evidence(market(2), rate),
            &settings()
        ),
        Err(TopKApyError::Arithmetic)
    );
}

#[test]
fn yearly_yield_of_zero_is_zero() {
    assert_eq!(annualized_supply_yield(U256::zero()), Ok(U256::zero()));
}
