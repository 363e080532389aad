use morpho_v2_reallocator::collections::{OrderedMap, OrderedSet};
use morpho_v2_reallocator::config::{
    AdapterKind, SolverConfigCanonical, StrategyObjective, TopKApyConfig, ValidatedAdapterConfig,
    ValidatedPositionConfig, ValidatedRateGroupConfig, ValidatedStrategyConfig,
    ValidatedTopKApyConfig, ValidatedVaultConfig, VaultStrategy,
};
use morpho_v2_reallocator::domain::{
    derive_market_id, derive_position_key, encode_adapter_data, AdapterAddress, Assets,
    BlockHashBinding, BlockRef, CapId, CapRef, CapState, DirectAdapterState,
    DirectMarketPositionState, ExactVaultSnapshot, FeeShareProjection, IdleLockLedgerSnapshot,
    IdleLockSnapshot, MarketId, MarketMode, MarketParams, ParentVaultState, PlanReason,
    PositionKey, ProjectedVaultState, ProjectedVaultView, RateGroupId, RateObjectiveBranch,
    RatePerSecond, RequestedAssets, RewardPolicy, StateContext, StoredMarketState, TokenAddress, V2Action,
    VaultAddress, VaultCapabilities,
};
use morpho_v2_reallocator::morpho::adaptive_curve::{AdaptiveCurveState, INITIAL_RATE_AT_TARGET};
use morpho_v2_reallocator::morpho::fees::accrue_market;
use morpho_v2_reallocator::planner::cap_order::search_allocation_orders;
use morpho_v2_reallocator::planner::candidates::build_candidate_lattice;
use morpho_v2_reallocator::planner::capital::{
    cap_limited_allocation, capital_distributions, projected_cap_headroom,
    solve_capital_deployment,
};
use morpho_v2_reallocator::planner::certificate::{RejectionReason, SearchCertificate};
use morpho_v2_reallocator::planner::distributions::bounded_distributions;
use morpho_v2_reallocator::planner::episodes::{
    EpisodeError, IndependentRateEvent, RateEpisodeState, RateEpisodeStopReason,
    RateSignalEpisode,
};
use morpho_v2_reallocator::planner::liquidity::{
    solve_liquidity_maintenance, source_constraints_hold, LiquidityError, SharedTokenLiquidity,
};
use morpho_v2_reallocator::planner::objective::{
    complete_rate_spread, rate_spread, ranks_before, strategy_market_mode_included,
    ObjectiveMetrics,
};
use morpho_v2_reallocator::planner::rate::{constrained_movement_limit, solve_rate_rebalance};
use morpho_v2_reallocator::planner::scheduler::{
    priority, select_next, ResourceReservations, SchedulablePlan,
};
use morpho_v2_reallocator::planner::simulator::{
    no_plan_terminal_existing_shareholder_assets, simulate_actions, SimulationError,
    SimulationState,
};
use morpho_v2_reallocator::planner::top_k_apy::{
    observe_top_k_target, solve_top_k_rebalance, verified_deployable_capital,
    TopKApyNoActionReason, TopKApySolveResult, TopKApyTarget, TopKMarketEvidence, TopKSolveLimits,
};
use morpho_v2_reallocator::planner::{
    CandidatePlanSet, CapitalPlanBuilder, InclusionScenario, PlanBuilder, PlanningError,
    PlanningInput, RatePlanBuilder,
};
use morpho_v2_reallocator::primitives::{Address, B256, I256, U256};

const WAD: u64 = 1_000_000_000_000_000_000;

fn n(value: u64) -> U256 {
    U256::from_u64(value)
}

fn a(byte: u8) -> Address {
    Address::with_last_byte(byte)
}

fn b(byte: u8) -> B256 {
    B256::with_last_byte(byte)
}

fn params(collateral: u8) -> MarketParams {
    MarketParams {
        loan_token: a(2),
        collateral_token: a(collateral),
        oracle: a(4),
        irm: a(5),
        lltv: n(860_000_000_000_000_000),
    }
}

fn adapter() -> AdapterAddress {
    AdapterAddress(a(10))
}

fn key(collateral: u8) -> PositionKey {
    derive_position_key(adapter(), &params(collateral))
}

fn market(collateral: u8) -> MarketId {
    derive_market_id(&params(collateral))
}

fn cap_ref(byte: u8) -> CapRef {
    CapRef { vault: VaultAddress(a(1)), id: CapId(b(byte)) }
}

fn caps_of(collateral: u8) -> [CapRef; 3] {
    [cap_ref(1), cap_ref(collateral), cap_ref(collateral + 100)]
}

fn head() -> BlockRef {
    BlockRef {
        number: 50,
        hash: b(51),
        parent_hash: b(49),
        timestamp: 100,
        gas_limit: 2_000_000,
    }
}

fn stored(collateral: u8, borrow: u64) -> StoredMarketState {
    StoredMarketState {
        market_id: market(collateral),
        params: params(collateral),
        total_supply_assets: n(1_000_000),
        total_supply_shares: n(1_000_000_000_000),
        total_borrow_assets: n(borrow),
        total_borrow_shares: n(borrow * 1_000_000),
        last_update: 100,
        fee: U256::zero(),
        irm: a(5),
        stored_rate_at_target: n(INITIAL_RATE_AT_TARGET),
        morpho_loan_token_balance: n(5_000_000),
    }
}

fn direct_position(collateral: u8, assets: u64) -> DirectMarketPositionState {
    DirectMarketPositionState {
        position_key: key(collateral),
        adapter: adapter(),
        market_params: params(collateral),
        market_id: market(collateral),
        internal_supply_shares: n(assets * 1_000_000),
        actual_morpho_supply_shares: n(assets * 1_000_000),
        ignored_donation_shares: U256::zero(),
        market_dead_supply_shares: U256::zero(),
        expected_assets: n(assets),
        parent_recorded_market_allocation: n(assets),
        affected_caps: caps_of(collateral),
        mode: MarketMode::Active,
        reward_policy: RewardPolicy::FixedUntilModeled,
    }
}

fn cap(byte: u8, recorded: u64) -> CapState {
    CapState {
        reference: cap_ref(byte),
        id_data_hash: b(byte),
        absolute_cap: n(1_000_000),
        relative_cap: n(WAD),
        recorded_allocation: n(recorded),
    }
}

fn snapshot() -> ExactVaultSnapshot {
    let mut adapters = OrderedMap::new();
    adapters.insert(
        adapter(),
        DirectAdapterState {
            adapter: adapter(),
            parent_vault: a(1),
            asset: a(2),
            morpho: a(40),
            adaptive_curve_irm: a(5),
            adapter_id: CapId(b(1)),
            current_market_ids: vec![market(30), market(31)],
            historical_market_ids: OrderedSet::new(),
            runtime_code_hash: b(11),
            real_assets: n(1_000),
            skim_recipient: Address::zero(),
            pending_operations: Vec::new(),
        },
    );
    let mut positions = OrderedMap::new();
    positions.insert(key(30), direct_position(30, 1_000));
    positions.insert(key(31), direct_position(31, 0));
    let mut markets = OrderedMap::new();
    markets.insert(market(30), stored(30, 200_000));
    markets.insert(market(31), stored(31, 800_000));
    let mut caps = OrderedMap::new();
    for (byte, recorded) in [(1, 1_000), (30, 1_000), (130, 1_000), (31, 0), (131, 0)] {
        caps.insert(cap_ref(byte), cap(byte, recorded));
    }
    ExactVaultSnapshot {
        context: StateContext {
            chain_id: 999,
            block: head(),
            block_hash_binding: BlockHashBinding::Proven,
            static_config_revision: b(60),
            dynamic_topology_revision: b(61),
        },
        parent: ParentVaultState {
            vault: a(1),
            asset: a(2),
            idle_assets: n(500),
            stored_total_assets: n(1_500),
            last_update: 100,
            max_rate: U256::zero(),
            total_supply: n(1_500),
            virtual_shares: U256::one(),
            performance_fee: U256::zero(),
            performance_fee_recipient: Address::zero(),
            performance_fee_recipient_allowed: true,
            management_fee: U256::zero(),
            management_fee_recipient: Address::zero(),
            management_fee_recipient_allowed: true,
            receive_shares_gate: Address::zero(),
            send_shares_gate: Address::zero(),
            receive_assets_gate: Address::zero(),
            send_assets_gate: Address::zero(),
            adapter_registry: Address::zero(),
            liquidity_adapter: Address::zero(),
            liquidity_data: Vec::new(),
            force_deallocate_penalties: OrderedMap::new(),
            approved_allocators: OrderedSet::new(),
            approved_sentinels: OrderedSet::new(),
            dead_address: a(13),
            dead_share_balance: U256::zero(),
            required_dead_shares: U256::zero(),
        },
        adapters,
        liquidity_adapter: None,
        positions,
        markets,
        caps,
        pending_admin: Vec::new(),
        capabilities: VaultCapabilities {
            can_observe: true,
            can_project: true,
            can_allocate: true,
            can_deallocate_supported_position: true,
            can_model_user_deposit: true,
            can_model_user_withdrawal: true,
            lock_ledger_verified: true,
            seed_requirements_verified: true,
            reward_policy_ready: true,
            rate_episode_state_verified: true,
        },
        idle_locks: IdleLockLedgerSnapshot {
            locks: Vec::new(),
            unattributed_idle_assets: U256::zero(),
            verified: true,
        },
        snapshot_hash: b(62),
    }
}

fn projection() -> ProjectedVaultView {
    let curve = AdaptiveCurveState { stored_rate_at_target: n(INITIAL_RATE_AT_TARGET) };
    let mut markets = OrderedMap::new();
    for (collateral, borrow) in [(30, 200_000), (31, 800_000)] {
        let accrued = accrue_market(&stored(collateral, borrow), 100, &curve).unwrap();
        markets.insert(market(collateral), accrued.market);
    }
    let mut position_expected_assets = OrderedMap::new();
    position_expected_assets.insert(key(30), n(1_000));
    position_expected_assets.insert(key(31), U256::zero());
    let mut cap_catch_up = OrderedMap::new();
    for byte in [1, 30, 130, 31, 131] {
        cap_catch_up.insert(cap_ref(byte), I256::zero());
    }
    ProjectedVaultView {
        head: head(),
        markets,
        vault: ProjectedVaultState {
            timestamp: 100,
            parent_total_assets: n(1_500),
            projected_total_supply: n(1_500),
            fee_shares: FeeShareProjection {
                performance_fee_shares: U256::zero(),
                management_fee_shares: U256::zero(),
            },
            position_expected_assets,
            cap_catch_up,
            max_executable_deposit_assets: n(1_000_000),
            atomic_exit_coverage_assets: n(500),
        },
    }
}

fn projection_to(timestamp: u64) -> ProjectedVaultView {
    let mut view = projection();
    view.head.timestamp = timestamp;
    view.vault.timestamp = timestamp;
    view
}

fn position_config(collateral: u8) -> ValidatedPositionConfig {
    ValidatedPositionConfig {
        position_key: key(collateral),
        adapter: adapter(),
        market_params: params(collateral),
        market_id: market(collateral),
        mode: MarketMode::Active,
        rate_group: RateGroupId(b(1)),
        minimum_position_assets: U256::zero(),
        maximum_position_assets: n(1_000_000),
        minimum_source_liquidity_assets: U256::zero(),
        maximum_source_utilization_wad: n(WAD),
        minimum_relevance_entry_assets: U256::zero(),
        minimum_relevance_exit_assets: U256::zero(),
        minimum_rate_relevant_market_supply_assets: U256::zero(),
        minimum_rate_relevant_market_borrow_assets: U256::zero(),
        minimum_destination_market_supply_assets: U256::zero(),
        minimum_destination_market_supply_shares: U256::zero(),
        maximum_action_assets: n(1_000_000),
        allow_active_complete_exit: true,
        complete_exit_dust_threshold_assets: U256::zero(),
        reward_policy: RewardPolicy::FixedUntilModeled,
    }
}

fn vault() -> ValidatedVaultConfig {
    let mut positions = vec![position_config(30), position_config(31)];
    positions.sort_by_key(|position| position.position_key.0.to_bytes());
    ValidatedVaultConfig {
        name: "vault".to_owned(),
        address: VaultAddress(a(1)),
        asset: TokenAddress(a(2)),
        asset_decimals: 6,
        expected_vault_code_hash: b(3),
        deployment_block: 1,
        signer_address: a(20),
        strategy: VaultStrategy::SpreadEqualization,
        strict_zero_routine_idle: true,
        minimum_action_assets: n(10),
        maximum_rounding_dust_assets: n(2),
        maximum_immediate_rebalance_loss_assets: n(2),
        maximum_terminal_value_sacrifice_assets: n(2),
        minimum_active_positions_after_economic_exit: 1,
        maximum_movement_per_hour_assets: n(1_000_000),
        maximum_movement_per_day_assets: n(1_000_000),
        minimum_independent_event_assets: U256::one(),
        minimum_atomic_exit_coverage_assets: U256::zero(),
        minimum_liquidity_adapter_assets: U256::zero(),
        minimum_deposit_headroom_assets: U256::zero(),
        deposit_headroom_search_upper_bound_assets: n(1_000),
        minimum_source_token_liquidity_assets: U256::zero(),
        lock_operator_clearance_required: false,
        unattributed_idle_fail_closed: false,
        require_supported_nonzero_liquidity_adapter: false,
        require_zero_gates: false,
        required_vault_dead_address: a(13),
        minimum_market_dead_supply_shares: U256::zero(),
        approved_allocators: vec![a(20)],
        approved_sentinels: Vec::new(),
        rate_group: ValidatedRateGroupConfig {
            name: "core".to_owned(),
            id: RateGroupId(b(1)),
            minimum_assets: U256::zero(),
            target_assets: U256::zero(),
            maximum_assets: n(1_000_000),
            allow_cross_group_movement: false,
        },
        adapters: vec![ValidatedAdapterConfig {
            address: adapter(),
            kind: AdapterKind::MorphoMarketV1AdapterV2,
            expected_code_hash: b(11),
            maximum_markets: 8,
        }],
        liquidity_adapter: None,
        positions,
    }
}

fn solver() -> SolverConfigCanonical {
    SolverConfigCanonical {
        maximum_nodes: 10_000,
        maximum_amount_candidates_per_position: 32,
        maximum_source_sets: 1_000,
        maximum_destination_sets: 1_000,
        allow_incomplete_rate_solver: false,
    }
}

fn deallocate(collateral: u8, assets: u64) -> V2Action {
    V2Action::Deallocate {
        position: key(collateral),
        adapter: adapter(),
        data: encode_adapter_data(&params(collateral)),
        requested_assets: RequestedAssets(n(assets)),
    }
}

fn allocate(collateral: u8, assets: u64) -> V2Action {
    V2Action::Allocate {
        position: key(collateral),
        adapter: adapter(),
        data: encode_adapter_data(&params(collateral)),
        requested_assets: RequestedAssets(n(assets)),
    }
}

fn failure(result: Result<SimulationState, SimulationError>) -> SimulationError {
    match result {
        Ok(_) => panic!("the sequence was accepted"),
        Err(error) => error,
    }
}

fn only(market: MarketId) -> OrderedSet<MarketId> {
    let mut markets = OrderedSet::new();
    markets.insert(market);
    markets
}

fn both() -> OrderedSet<MarketId> {
    let mut markets = only(market(30));
    markets.insert(market(31));
    markets
}

fn episode() -> RateSignalEpisode {
    let started = RateSignalEpisode::start(
        VaultAddress(a(1)),
        RateGroupId(b(1)),
        RateObjectiveBranch::Portfolio,
        head(),
        b(60),
        b(61),
        both(),
        both(),
        only(market(30)),
        only(market(31)),
        100,
        1_000,
    );
    match started {
        Ok(episode) => episode,
        Err(error) => panic!("the episode did not start: {:?}", error),
    }
}

fn reservations(vault: u8) -> ResourceReservations {
    let mut vaults = OrderedSet::new();
    vaults.insert(VaultAddress(a(vault)));
    ResourceReservations {
        vaults,
        signer_lanes: OrderedSet::new(),
        markets: OrderedSet::new(),
        loan_tokens: OrderedSet::new(),
        caps: OrderedSet::new(),
        idle_lock_vaults: OrderedSet::new(),
    }
}

fn nothing_reserved() -> ResourceReservations {
    ResourceReservations {
        vaults: OrderedSet::new(),
        signer_lanes: OrderedSet::new(),
        markets: OrderedSet::new(),
        loan_tokens: OrderedSet::new(),
        caps: OrderedSet::new(),
        idle_lock_vaults: OrderedSet::new(),
    }
}

fn schedulable(reason: PlanReason, vault: u8, eligible_since_block: u64) -> SchedulablePlan {
    SchedulablePlan {
        reason,
        vault: VaultAddress(a(vault)),
        service_deficit_assets: U256::zero(),
        unreserved_idle_assets: U256::zero(),
        spread_above_entry: U256::zero(),
        eligible_since_block,
        resources: reservations(vault),
    }
}

fn metrics(spread: u64, movement: u64) -> ObjectiveMetrics {
    ObjectiveMetrics {
        final_unreserved_idle: U256::zero(),
        deployed_assets: U256::zero(),
        applicable_spread: n(spread),
        secondary_spread: U256::zero(),
        terminal_value_delta: I256::zero(),
        movement_assets: n(movement),
        action_count: 2,
    }
}

#[test]
fn capital_distributions_are_bounded_conservative_and_pairwise() {
    let maximums = vec![n(10); 3];
    let lattices = vec![vec![U256::zero(), n(5), n(10)]; 3];
    let distributions = capital_distributions(&maximums, &lattices, n(15), n(5));
    assert!(!distributions.is_empty());
    for distribution in distributions {
        let total: u64 = distribution.iter().map(|amount| amount.to_u64().unwrap()).sum();
        assert_eq!(total, 15);
        assert!(distribution.iter().filter(|amount| !amount.is_zero()).count() <= 2);
        assert!(distribution.iter().zip(&maximums).all(|(amount, maximum)| amount.le(*maximum)));
    }
}

#[test]
fn tranche_is_taken_from_optimal_movement_not_raw_capacity() {
    let raw_capacity = 1_000_u64;
    let optimal_movement = n(101);
    let old_capacity_based_limit = n(raw_capacity * 9 / 10);

    assert_eq!(
        constrained_movement_limit(optimal_movement, old_capacity_based_limit, 9_000),
        Some(n(90)),
    );
    assert_ne!(
        constrained_movement_limit(optimal_movement, old_capacity_based_limit, 9_000),
        Some(old_capacity_based_limit),
    );
    assert_eq!(constrained_movement_limit(optimal_movement, n(80), 9_000), Some(n(80)));
}

#[test]
fn distribution_bound_never_reports_a_truncated_search_as_complete() {
    let amounts = vec![U256::zero(), U256::one(), n(2)];
    assert!(bounded_distributions(
        &vec![n(2); 3],
        &vec![amounts.clone(), amounts.clone(), amounts],
        n(2),
        U256::one(),
        1,
    )
    .is_none());
    assert_eq!(
        bounded_distributions(&vec![n(5)], &vec![vec![U256::zero()]], n(5), U256::one(), 1)
            .map(|distributions| distributions.len()),
        Some(1)
    );
}

#[test]
fn lattices_keep_exact_boundaries() {
    let all = build_candidate_lattice(n(2), n(4), &Vec::new(), 8);
    assert_eq!(all.amounts, vec![n(0), n(1), n(2), n(3), n(4)]);
    let mut encoded = Vec::new();
    for amount in 0..5_u64 {
        encoded.extend_from_slice(&alloy::primitives::U256::from(amount).to_be_bytes::<32>());
    }
    assert_eq!(all.hash.to_bytes(), alloy::primitives::keccak256(encoded).to_vec());
    let few = build_candidate_lattice(n(10), n(1_000), &vec![n(400)], 4);
    assert_eq!(few.amounts, vec![n(0), n(10), n(400), n(1_000)]);
    let two = build_candidate_lattice(n(10), n(1_000), &vec![n(700), n(2_000), n(400)], 6);
    assert_eq!(two.amounts, vec![n(0), n(1), n(10), n(400), n(700), n(1_000)]);
    let least = build_candidate_lattice(n(10), n(1_000), &vec![n(400)], 0);
    assert_eq!(least.amounts, vec![n(0)]);
}

#[test]
fn simulation_moves_assets_between_markets() {
    let state =
        simulate_actions(&snapshot(), &projection(), &vault(), &vec![
            deallocate(30, 400),
            allocate(31, 400),
        ])
        .ok()
        .unwrap();
    assert_eq!(state.vault_idle, n(500));
    assert_eq!(state.actions.len(), 2);
    assert_eq!(state.position_expected_assets(key(30)), Some(n(600)));
    assert_eq!(state.position_expected_assets(key(31)), Some(n(400)));
    assert_eq!(state.cap_ledger.get(cap_ref(1)), Some(n(1_000)));
    assert_eq!(state.cap_ledger.get(cap_ref(30)), Some(n(600)));
    assert_eq!(state.cap_ledger.get(cap_ref(131)), Some(n(400)));
    assert_eq!(state.unreserved_idle(), Ok(n(500)));
    assert_eq!(state.validate_service_constraints(&snapshot(), &vault()), Ok(()));
}

#[test]
fn simulation_refuses_broken_sequences() {
    let run = |actions: Vec<V2Action>| simulate_actions(&snapshot(), &projection(), &vault(), &actions);
    assert_eq!(
        failure(run(vec![allocate(31, 100), deallocate(30, 100)])),
        SimulationError::InvalidAction
    );
    assert_eq!(
        failure(run(vec![deallocate(30, 100), allocate(30, 100)])),
        SimulationError::InvalidAction
    );
    assert_eq!(failure(run(vec![deallocate(30, 0)])), SimulationError::InvalidAction);
    assert_eq!(failure(run(vec![allocate(31, 501)])), SimulationError::InsufficientIdle);
    let mut capped = snapshot();
    let mut tight = cap(131, 0);
    tight.absolute_cap = n(99);
    capped.caps.insert(cap_ref(131), tight);
    assert_eq!(
        failure(simulate_actions(&capped, &projection(), &vault(), &vec![allocate(31, 100)])),
        SimulationError::AllocationCap
    );
    let mut locked = snapshot();
    locked.idle_locks.locks.push(IdleLockSnapshot {
        lock_id: b(1),
        remaining_assets: n(450),
        created_block: 1,
        release_timestamp: None,
    });
    assert_eq!(
        failure(simulate_actions(&locked, &projection(), &vault(), &vec![allocate(31, 100)])),
        SimulationError::InsufficientIdle
    );
    locked.idle_locks.verified = false;
    assert_eq!(
        failure(simulate_actions(&locked, &projection(), &vault(), &Vec::new())),
        SimulationError::InsufficientIdle
    );
}

#[test]
fn allocation_orders_are_searched_within_the_bound() {
    let result = search_allocation_orders(
        &snapshot(),
        &projection(),
        &vault(),
        &Vec::new(),
        &vec![allocate(30, 100), allocate(31, 100)],
        100,
    )
    .ok()
    .unwrap();
    assert!(result.complete);
    assert!(!result.feasible.is_empty());
    for (actions, state) in &result.feasible {
        assert_eq!(actions.len(), 2);
        assert_eq!(state.vault_idle, n(300));
    }
    let bounded = search_allocation_orders(
        &snapshot(),
        &projection(),
        &vault(),
        &Vec::new(),
        &vec![allocate(30, 100), allocate(31, 100)],
        1,
    )
    .ok()
    .unwrap();
    assert!(!bounded.complete);
}

#[test]
fn idle_capital_is_deployed() {
    let terminal = projection_to(100 + 3_600);
    let result = solve_capital_deployment(
        &snapshot(),
        &projection(),
        Some(&terminal),
        &vault(),
        &solver(),
        3_600,
        StrategyObjective::SpotBorrowRateSpread,
    );
    let deployed: u64 = result
        .actions
        .iter()
        .map(|action| match action {
            V2Action::Allocate { requested_assets, .. } => requested_assets.0.to_u64().unwrap(),
            V2Action::Deallocate { .. } => panic!("deployment only allocates"),
        })
        .sum();
    assert!(deployed <= 500);
    let state = result.state.expect("a deployment is feasible");
    assert_eq!(state.vault_idle, n(500 - deployed));
    assert!(deployed > 0);
    assert_eq!(projected_cap_headroom(&snapshot(), &projection(), cap_ref(31)), Some(n(1_000_000)));
    assert_eq!(cap_limited_allocation(&snapshot(), &projection(), key(30)), Some(n(999_000)));
}

#[test]
fn satisfied_service_needs_no_maintenance() {
    let result = solve_liquidity_maintenance(&snapshot(), &projection(), &vault(), &solver(), 4);
    assert!(result.actions.is_empty());
}

#[test]
fn exit_coverage_is_restored_through_the_liquidity_market() {
    let mut exact = snapshot();
    exact.parent.liquidity_adapter = adapter().0;
    exact.parent.liquidity_data = encode_adapter_data(&params(31));
    let mut demanding = vault();
    demanding.minimum_atomic_exit_coverage_assets = n(700);
    let result = solve_liquidity_maintenance(&exact, &projection(), &demanding, &solver(), 4);
    let state = result.state.expect("maintenance is feasible");
    assert_eq!(state.validate_service_constraints(&exact, &demanding), Ok(()));
    assert!(!result.actions.is_empty());
    assert!(result.actions.len() <= 4);
    assert!(state.position_expected_assets(key(31)).unwrap().to_u64().unwrap() >= 200);
}

#[test]
fn shared_liquidity_is_one_ledger() {
    let token = TokenAddress(a(2));
    let mut ledger = SharedTokenLiquidity::default();
    assert_eq!(ledger.remaining(token), Err(LiquidityError::MissingToken));
    assert_eq!(ledger.register(token, n(100)), Ok(()));
    assert_eq!(ledger.register(token, n(100)), Ok(()));
    assert_eq!(ledger.register(token, n(99)), Err(LiquidityError::InconsistentBalance));
    assert_eq!(ledger.consume(token, n(101)), Err(LiquidityError::Exhausted));
    assert_eq!(ledger.consume(token, n(40)), Ok(n(60)));
    assert_eq!(ledger.credit(token, n(40)), Ok(n(100)));
    assert!(source_constraints_hold(n(10), n(10), n(5), n(10), n(10), n(5)));
    assert!(!source_constraints_hold(n(9), n(10), n(5), n(10), n(10), n(5)));
    assert!(!source_constraints_hold(n(10), n(10), n(6), n(10), n(10), n(5)));
}

#[test]
fn episodes_charge_movement_once() {
    let mut episode = episode();
    assert_eq!(episode.state, RateEpisodeState::Detecting);
    assert_eq!(episode.confirm_short(head(), Assets(n(1_000))), Ok(()));
    assert_eq!(episode.state, RateEpisodeState::Immediate);
    let budget = episode.available_budget().unwrap();
    assert_eq!(episode.reserve_pending(budget), Ok(()));
    assert_eq!(episode.reserve_pending(U256::one()), Err(EpisodeError::BudgetExceeded));
    assert_eq!(episode.release_pending(budget), Ok(()));
    assert_eq!(episode.available_budget(), Ok(budget));
    assert_eq!(episode.reserve_pending(budget), Ok(()));
    assert_eq!(episode.confirm_pending(budget), Ok(()));
    assert_eq!(episode.confirmed_movement, Assets(budget));
    assert_eq!(episode.pending_movement, Assets(U256::zero()));
    episode.complete(RateEpisodeStopReason::TargetReached);
    assert_eq!(episode.state, RateEpisodeState::Complete);
    assert_eq!(episode.reserve_pending(U256::one()), Err(EpisodeError::BudgetExceeded));
}

#[test]
fn episode_events_are_recorded_once_and_rewound() {
    let mut episode = episode();
    assert_eq!(episode.confirm_short(head(), Assets(n(1_000))), Ok(()));
    let event = |byte: u8, number: u64| IndependentRateEvent {
        transaction_hash: b(byte),
        block: BlockRef {
            number,
            hash: b(byte),
            parent_hash: b(byte),
            timestamp: 100 + number,
            gas_limit: 2_000_000,
        },
    };
    assert_eq!(episode.record_independent_event(event(71, 60)), Ok(true));
    assert_eq!(episode.record_independent_event(event(71, 60)), Ok(false));
    assert!(!episode.independent_confirmation_ready(2, 5));
    assert_eq!(episode.record_independent_event(event(72, 70)), Ok(true));
    assert!(episode.independent_confirmation_ready(2, 5));
    assert!(!episode.independent_confirmation_ready(2, 11));
    let mut ancestor = head();
    ancestor.number = 65;
    episode.rewind_independent_events(ancestor);
    assert_eq!(episode.independent_events.len(), 1);
}

#[test]
fn episode_direction_is_fixed() {
    let episode = episode();
    assert_eq!(
        episode.validate_direction(
            RateObjectiveBranch::Portfolio,
            &only(market(30)),
            &only(market(31)),
        ),
        Ok(())
    );
    assert_eq!(
        episode.validate_direction(
            RateObjectiveBranch::Portfolio,
            &only(market(31)),
            &only(market(30)),
        ),
        Err(EpisodeError::DirectionChanged)
    );
    assert!(matches!(
        RateSignalEpisode::start(
            VaultAddress(a(1)),
            RateGroupId(b(1)),
            RateObjectiveBranch::Portfolio,
            head(),
            b(60),
            b(61),
            both(),
            both(),
            only(market(30)),
            only(market(30)),
            100,
            1_000,
        ),
        Err(EpisodeError::InvalidDirection)
    ));
}

#[test]
fn scheduling_prefers_urgent_eligible_plans() {
    assert!(priority(PlanReason::LiquidityMaintenance) < priority(PlanReason::RateRebalance));
    let plans = vec![
        schedulable(PlanReason::RateRebalance, 1, 1),
        schedulable(PlanReason::LiquidityMaintenance, 2, 9),
    ];
    let next = select_next(&plans, &nothing_reserved()).unwrap();
    assert_eq!(next.vault, VaultAddress(a(2)));
    let next = select_next(&plans, &reservations(2)).unwrap();
    assert_eq!(next.vault, VaultAddress(a(1)));
    assert!(select_next(&Vec::new(), &nothing_reserved()).is_none());
    assert!(reservations(1).conflicts(&reservations(1)));
    assert!(!reservations(1).conflicts(&reservations(2)));
}

#[test]
fn certificates_count_rejections() {
    let mut certificate = SearchCertificate::begin(10);
    assert!(certificate.reject(RejectionReason::Service));
    assert!(certificate.reject(RejectionReason::Service));
    assert_eq!(certificate.rejection_counts.get(RejectionReason::Service), Some(2));
    assert_eq!(certificate.rejection_counts.get(RejectionReason::Episode), None);
    certificate.search_complete = false;
    assert!(!certificate.executable_rate_search());
}

#[test]
fn spreads_span_the_extremes() {
    assert_eq!(rate_spread(&vec![n(5), n(9), n(7)]), n(4));
    assert_eq!(rate_spread(&Vec::new()), U256::zero());
    let spread = complete_rate_spread(&both(), &projection().markets).unwrap();
    let view = projection();
    let low = view.markets.get(market(30)).unwrap().spot_borrow_rate;
    let high = view.markets.get(market(31)).unwrap().spot_borrow_rate;
    assert_eq!(spread, high.saturating_sub(low));
    assert_eq!(complete_rate_spread(&only(MarketId(b(99))), &projection().markets), None);
    assert!(strategy_market_mode_included(MarketMode::Active));
    assert!(!strategy_market_mode_included(MarketMode::Disabled));
}

#[test]
fn smaller_spreads_rank_first() {
    let better = metrics(5, 100);
    let worse = metrics(9, 100);
    let reason = PlanReason::RateRebalance;
    assert!(ranks_before(reason, &better, &worse, n(1), false));
    assert!(!ranks_before(reason, &worse, &better, n(1), false));
    assert!(!ranks_before(reason, &better, &better, n(1), false));
}

fn strategy() -> ValidatedStrategyConfig {
    ValidatedStrategyConfig {
        objective: StrategyObjective::SpotBorrowRateSpread,
        entry_spread_rate_per_second: RatePerSecond(n(2)),
        target_spread_rate_per_second: RatePerSecond(n(1)),
        target_tolerance_rate_per_second: RatePerSecond(U256::zero()),
        utilization_entry_spread_wad: n(2),
        utilization_target_spread_wad: n(1),
        utilization_target_tolerance_wad: U256::zero(),
        utilization_minimum_improvement_wad: U256::one(),
        utilization_portfolio_spread_tolerance_wad: U256::zero(),
        minimum_portfolio_improvement_rate_per_second: RatePerSecond(U256::one()),
        minimum_controllable_improvement_rate_per_second: RatePerSecond(U256::one()),
        portfolio_spread_tolerance_rate_per_second: RatePerSecond(U256::zero()),
        confirmation_opportunities: 1,
        immediate_tranche_bps: 9_000,
        persistent_confirmation_duration_millis: 1,
        minimum_independent_rate_events: 2,
        minimum_independent_event_span_millis: 1,
        minimum_independent_event_rate_impact: RatePerSecond(U256::one()),
        minimum_independent_event_utilization_impact_wad: U256::one(),
        maximum_rate_episode_duration_millis: 2,
        extreme_spread_bypass_enabled: false,
        benefit_horizon_seconds: 3_600,
        maximum_daily_transactions: 10,
        top_k_apy: TopKApyConfig::default().canonical().unwrap(),
    }
}

#[test]
fn rate_rebalance_narrows_the_spread() {
    let mut vault = vault();
    vault.strict_zero_routine_idle = false;
    vault.maximum_terminal_value_sacrifice_assets = n(1_000_000);
    let mut episode = episode();
    assert_eq!(episode.confirm_short(head(), Assets(n(1_000))), Ok(()));
    let terminal = projection_to(100 + 3_600);
    let result = solve_rate_rebalance(
        &snapshot(),
        &projection(),
        Some(&terminal),
        &vault,
        &strategy(),
        &solver(),
        &episode,
    );
    assert!(result.certificate.nodes_evaluated <= result.certificate.node_limit);
    let best = result.best.expect("a movement narrows the spread");
    assert!(best.objective.applicable_spread.lt(best.before_spread));
    assert!(best.objective.movement_assets.le(n(900)));
    assert_eq!(best.state.vault_idle, n(500));
}

#[test]
fn rate_rebalance_needs_a_confirmed_budget() {
    let terminal = projection_to(100 + 3_600);
    let result = solve_rate_rebalance(
        &snapshot(),
        &projection(),
        Some(&terminal),
        &vault(),
        &strategy(),
        &solver(),
        &episode(),
    );
    assert!(result.best.is_none());
}

#[test]
fn top_k_needs_enough_markets() {
    let capital = verified_deployable_capital(&snapshot(), &vault()).unwrap();
    assert_eq!(capital.idle_assets, n(500));
    assert_eq!(capital.total_assets, n(500));
    let mut limits = OrderedMap::new();
    limits.insert(key(30), n(1_000_000));
    limits.insert(key(31), n(1_000_000));
    let observation = observe_top_k_target(
        &snapshot(),
        &projection(),
        &vault(),
        &strategy().top_k_apy,
        &limits,
        None,
        U256::zero(),
    )
    .ok()
    .unwrap();
    assert!(observation.target.is_none());
    assert_eq!(
        observation.no_action_reason,
        Some(TopKApyNoActionReason::InsufficientEligibleMarkets)
    );
}

fn half_each() -> TopKApyTarget {
    let mut current = OrderedMap::new();
    current.insert(market(30), n(1_000));
    current.insert(market(31), U256::zero());
    let mut targets = OrderedMap::new();
    targets.insert(market(30), n(500));
    targets.insert(market(31), n(500));
    let mut evidence_by_market = OrderedMap::new();
    for collateral in [30, 31] {
        evidence_by_market.insert(
            market(collateral),
            TopKMarketEvidence {
                market: market(collateral),
                current_rate: U256::one(),
                post_probe_rate: U256::one(),
                smoothed_rate: U256::one(),
                ranking_rate: U256::one(),
                destination_capacity: U256::max_value(),
            },
        );
    }
    TopKApyTarget {
        selected_markets: vec![market(30), market(31)],
        target_assets_by_market: targets,
        current_assets_by_market: current,
        evidence_by_market,
        target_direct_assets: n(1_000),
        current_score_wad: n(WAD / 2),
    }
}

fn even_settings(minimum_improvement: u64) -> ValidatedTopKApyConfig {
    let mut settings = strategy().top_k_apy;
    settings.target_score_wad = U256::zero();
    settings.entry_score_wad = U256::zero();
    settings.minimum_improvement_score_wad = n(minimum_improvement);
    settings.maximum_diversification_cost_apy_wad = n(WAD);
    settings
}

fn rebalance(settings: &ValidatedTopKApyConfig, actions: usize, nodes: u64) -> TopKApySolveResult {
    let mut vault = vault();
    vault.strict_zero_routine_idle = false;
    solve_top_k_rebalance(
        &snapshot(),
        &projection(),
        &vault,
        settings,
        &half_each(),
        TopKSolveLimits {
            immediate_tranche_bps: 10_000,
            maximum_actions: actions,
            maximum_nodes: nodes,
        },
    )
    .ok()
    .unwrap()
}

#[test]
fn top_k_rebalance_reaches_the_target() {
    let result = rebalance(&even_settings(WAD / 4), 4, 10_000);
    assert_eq!(result.no_action_reason, None);
    assert!(result.certificate.search_complete);
    let best = result.best.unwrap();
    assert_eq!(best.movement_assets, n(500));
    assert_eq!(best.before_score_wad, n(WAD / 2));
    assert!(best.after_score_wad.le(n(WAD / 100)));
}

#[test]
fn top_k_rebalance_tells_why_nothing_is_done() {
    let mut settings = even_settings(1);
    settings.target_score_wad = n(WAD / 2);
    assert_eq!(
        rebalance(&settings, 4, 10_000).no_action_reason,
        Some(TopKApyNoActionReason::TargetReached)
    );
    settings.target_score_wad = U256::zero();
    settings.entry_score_wad = n(WAD / 2 + 1);
    assert_eq!(
        rebalance(&settings, 4, 10_000).no_action_reason,
        Some(TopKApyNoActionReason::BelowEntryScore)
    );
    let unsearched = rebalance(&even_settings(1), 4, 0);
    assert_eq!(unsearched.no_action_reason, Some(TopKApyNoActionReason::SearchIncomplete));

    let small = rebalance(&even_settings(WAD), 4, 10_000);
    assert!(small.best.is_none());
    assert!(small.certificate.search_complete);
    assert_eq!(small.no_action_reason, Some(TopKApyNoActionReason::ImprovementBelowMinimum));

    let infeasible = rebalance(&even_settings(WAD), 1, 10_000);
    assert!(infeasible.best.is_none());
    assert!(infeasible.certificate.search_complete);
    assert_eq!(infeasible.no_action_reason, Some(TopKApyNoActionReason::NoFeasibleCandidate));

    let mut unbudgeted = even_settings(1);
    unbudgeted.maximum_diversification_cost_apy_wad = U256::zero();
    assert_eq!(rebalance(&unbudgeted, 4, 10_000).no_action_reason, None);
}

#[test]
fn no_plan_value_is_taken_at_the_horizon() {
    let mut terminal = projection_to(3_700);
    terminal.vault.parent_total_assets = n(3_001);
    let value = |view: Option<&ProjectedVaultView>, horizon: u64| {
        no_plan_terminal_existing_shareholder_assets(&snapshot(), view, horizon)
    };
    assert_eq!(value(Some(&terminal), 3_700), Ok(n(3_000)));
    assert_eq!(value(Some(&terminal), 3_699), Err(SimulationError::IncompleteState));
    assert_eq!(value(None, 3_700), Err(SimulationError::IncompleteState));
}

#[test]
fn searches_refuse_a_terminal_view_of_another_horizon() {
    let early = projection_to(3_699);
    let capital = solve_capital_deployment(
        &snapshot(),
        &projection(),
        Some(&early),
        &vault(),
        &solver(),
        3_600,
        StrategyObjective::SpotBorrowRateSpread,
    );
    assert!(capital.actions.is_empty());
    assert!(!capital.certificate.search_complete);
    let mut vault = vault();
    vault.strict_zero_routine_idle = false;
    vault.maximum_terminal_value_sacrifice_assets = n(1_000_000);
    let mut episode = episode();
    assert_eq!(episode.confirm_short(head(), Assets(n(1_000))), Ok(()));
    let rate = solve_rate_rebalance(
        &snapshot(),
        &projection(),
        Some(&early),
        &vault,
        &strategy(),
        &solver(),
        &episode,
    );
    assert!(rate.best.is_none());
    assert!(!rate.certificate.search_complete);
}

fn planning_input(horizons: &[u64]) -> PlanningInput {
    let mut projected = OrderedMap::new();
    projected.insert(b(1), projection());
    let mut terminal = OrderedMap::new();
    for horizon in horizons {
        terminal.insert(*horizon, projection_to(*horizon));
    }
    PlanningInput {
        exact: snapshot(),
        inclusion_scenarios: vec![InclusionScenario { id: b(1), head: head() }],
        projected,
        terminal,
        config: std::sync::Arc::new(vault()),
        active_episode: None,
        pending_deployment: None,
        reservations: nothing_reserved(),
    }
}

#[test]
fn builders_take_the_terminal_view_of_their_own_horizon() {
    let builder = |benefit_horizon_seconds: u64| CapitalPlanBuilder {
        solver: solver(),
        benefit_horizon_seconds,
        objective: StrategyObjective::SpotBorrowRateSpread,
    };
    let both_horizons = planning_input(&[3_700, 7_300]);
    for seconds in [3_600, 7_200] {
        assert!(matches!(
            builder(seconds).build(&both_horizons),
            Ok(Some(CandidatePlanSet::Capital(_)))
        ));
    }
    assert!(matches!(builder(3_601).build(&both_horizons), Ok(None)));
    assert!(matches!(builder(u64::MAX).build(&both_horizons), Ok(None)));
    let rate = RatePlanBuilder { strategy: strategy(), solver: solver() };
    assert!(matches!(rate.build(&both_horizons), Err(PlanningError::MissingEpisode)));
}
