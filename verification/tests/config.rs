use morpho_v2_reallocator::config::raw::{
    AdvancedChainConfig, AdvancedConfig, AdvancedNodeConfig, ConfigDocument, NormalChainConfig,
    NormalConfig, NormalNodeConfig,
};
use morpho_v2_reallocator::config::text::{
    config_format, is_blank, parse_address, parse_nonzero_hash, parse_u256, text_before,
    ConfigFormat,
};
use morpho_v2_reallocator::config::policy::{check_daily_gas_spend, check_fee_per_gas};
use morpho_v2_reallocator::config::top_k::{
    check_price_ceiling, check_scores, valid_weights, TopKAmounts,
};
use morpho_v2_reallocator::config::validate::{canonicalize_execution_with, unix_timestamp};
use morpho_v2_reallocator::config::vault::{
    check_action_limit, check_group_assets, check_headroom_search, check_movement_limits,
    check_position_range, check_relevance,
};
use morpho_v2_reallocator::config::{
    apr_bps_to_rate_per_second_down, apr_bps_to_rate_per_second_up, config_revision,
    utilization_bps_to_wad, AdapterConfig, AdapterKind, AlertConfig, AppConfig,
    BlockOpportunityPolicy, ChainConfig, ConfigError, Duration, ExecutionConfig,
    LiquidityAdapterConfig, LiquidityAdapterKind, NodeConfig, PagerDutyConfig, PositionConfig,
    RateGroupConfig, RpcConfig, RpcRole, RuntimeMode, SigningConfig, SnapshotConfig, SnapshotMode,
    SolverConfig, StrategyConfig, StrategyObjective, TelegramConfig, TopKApyConfig,
    ValidatedAppConfig, ValidatedConfig, VaultConfig, VaultStrategy,
};
use morpho_v2_reallocator::domain::{
    derive_market_id, AprBps, ArithmeticError, MarketMode, MarketParams, RatePerSecond,
    RewardPolicy,
};
use morpho_v2_reallocator::chain::logs::{WatchedAddressError, WatchedAddresses};
use morpho_v2_reallocator::primitives::{Address, B256, U256};
use morpho_v2_reallocator::protocol_lock::{
    IdentityKind, RemoteSignerIdentity, ValidatedContractIdentity, ValidatedProtocolLock,
};
use morpho_v2_reallocator::endpoint::SignerEndpointFailure;
use morpho_v2_reallocator::startup::{
    local_signer_address, plan_signer, remote_signer_policy, required_environment, signer_vaults,
    static_doctor, DoctorRefusal, ReleaseDecision, ReleaseRefusal, SignerFailure, SignerPlan,
};

const EXAMPLE_REWARD_EXPIRY: u64 = 4_102_444_800;
const EXAMPLE_BENEFIT_HORIZON_SECONDS: u64 = 21_600;
const DURABLE_REORG_BLOCKS: u64 = 1_024;

fn address(byte: u8) -> String {
    format!("0x{:040x}", byte)
}

fn hash(byte: u8) -> String {
    format!("0x{:064x}", byte)
}

fn hex(bytes: &[u8]) -> String {
    let mut text = "0x".to_owned();
    for byte in bytes {
        text.push_str(&format!("{:02x}", byte));
    }
    text
}

fn params(collateral: u8) -> MarketParams {
    MarketParams {
        loan_token: Address::with_last_byte(2),
        collateral_token: Address::with_last_byte(collateral),
        oracle: Address::with_last_byte(4),
        irm: Address::with_last_byte(5),
        lltv: U256::from_u64(860_000_000_000_000_000),
    }
}

fn position(collateral: u8) -> PositionConfig {
    PositionConfig {
        adapter: address(10),
        loan_token: address(2),
        collateral_token: address(collateral),
        oracle: address(4),
        irm: address(5),
        lltv: "860000000000000000".to_owned(),
        market_id: hex(&derive_market_id(&params(collateral)).0.to_bytes()),
        mode: MarketMode::Active,
        rate_group: "core".to_owned(),
        minimum_position_assets: "0".to_owned(),
        maximum_position_assets: "1000000000".to_owned(),
        minimum_source_liquidity_assets: "0".to_owned(),
        maximum_source_utilization_wad: "1000000000000000000".to_owned(),
        minimum_relevance_entry_assets: "2".to_owned(),
        minimum_relevance_exit_assets: "1".to_owned(),
        minimum_rate_relevant_market_supply_assets: "0".to_owned(),
        minimum_rate_relevant_market_borrow_assets: "0".to_owned(),
        minimum_destination_market_supply_assets: "0".to_owned(),
        minimum_destination_market_supply_shares: "0".to_owned(),
        maximum_action_assets: "1000000000".to_owned(),
        allow_active_complete_exit: false,
        complete_exit_dust_threshold_assets: "0".to_owned(),
        reward_policy: RewardPolicy::NoMaterialRewards {
            checked_at_block: 1,
            valid_until_timestamp: EXAMPLE_REWARD_EXPIRY,
            evidence_hash: B256::with_last_byte(9),
        },
    }
}

fn adapter(byte: u8) -> AdapterConfig {
    AdapterConfig {
        address: address(byte),
        kind: AdapterKind::MorphoMarketV1AdapterV2,
        expected_code_hash: hash(11),
        maximum_markets: 8,
    }
}

fn vault(byte: u8) -> VaultConfig {
    VaultConfig {
        name: "vault".to_owned(),
        address: address(byte),
        asset: address(2),
        asset_decimals: 6,
        expected_vault_code_hash: hash(12),
        deployment_block: 1,
        signer_address: address(20),
        strategy: VaultStrategy::SpreadEqualization,
        strict_zero_routine_idle: true,
        minimum_action_assets: "1000".to_owned(),
        maximum_rounding_dust_assets: "1".to_owned(),
        maximum_immediate_rebalance_loss_assets: "1".to_owned(),
        maximum_terminal_value_sacrifice_assets: "1".to_owned(),
        minimum_active_positions_after_economic_exit: 1,
        maximum_movement_per_hour_assets: "1000000".to_owned(),
        maximum_movement_per_day_assets: "5000000".to_owned(),
        minimum_independent_event_assets: "1".to_owned(),
        minimum_atomic_exit_coverage_assets: "0".to_owned(),
        minimum_liquidity_adapter_assets: "0".to_owned(),
        minimum_deposit_headroom_assets: "0".to_owned(),
        deposit_headroom_search_upper_bound_assets: "1000000000".to_owned(),
        minimum_source_token_liquidity_assets: "0".to_owned(),
        lock_operator_clearance_required: true,
        unattributed_idle_fail_closed: true,
        require_supported_nonzero_liquidity_adapter: false,
        require_zero_gates: true,
        required_vault_dead_address: address(13),
        minimum_market_dead_supply_shares: "0".to_owned(),
        approved_allocators: vec![address(21), address(20)],
        approved_sentinels: vec![address(22)],
        rate_group: vec![RateGroupConfig {
            name: "core".to_owned(),
            minimum_assets: "0".to_owned(),
            target_assets: "10".to_owned(),
            maximum_assets: "1000000000".to_owned(),
            allow_cross_group_movement: false,
        }],
        adapter: vec![adapter(10)],
        liquidity_adapter: Some(LiquidityAdapterConfig {
            address: address(14),
            kind: LiquidityAdapterKind::MorphoVaultV1Idle,
            expected_code_hash: hash(15),
            morpho_vault_v1: address(16),
            expected_morpho_vault_v1_code_hash: hash(17),
            maximum_action_assets: "1000000".to_owned(),
        }),
        position: vec![position(30), position(31)],
    }
}

fn provider(name: &str, roles: Vec<RpcRole>) -> RpcConfig {
    RpcConfig {
        name: name.to_owned(),
        url_env: format!("{}_URL", name),
        websocket_url_env: None,
        roles,
        production_grade: true,
        supports_websocket: false,
        supports_historical_state: true,
    }
}

fn primary() -> RpcConfig {
    provider(
        "PRIMARY",
        vec![
            RpcRole::Receipt,
            RpcRole::Head,
            RpcRole::Logs,
            RpcRole::Read,
            RpcRole::Simulate,
            RpcRole::Submit,
            RpcRole::Head,
        ],
    )
}

fn checkpoint() -> RpcConfig {
    provider("CHECKPOINT", vec![RpcRole::Checkpoint, RpcRole::Read, RpcRole::Receipt])
}

fn strategy() -> StrategyConfig {
    StrategyConfig {
        objective: StrategyObjective::SpotBorrowRateSpread,
        entry_spread_apr_bps: 60,
        target_spread_apr_bps: 30,
        target_tolerance_apr_bps: 5,
        utilization_entry_spread_bps: 100,
        utilization_target_spread_bps: 50,
        utilization_target_tolerance_bps: 10,
        utilization_minimum_improvement_bps: 5,
        utilization_portfolio_spread_tolerance_bps: 5,
        minimum_portfolio_improvement_apr_bps: 5,
        minimum_controllable_improvement_apr_bps: 5,
        portfolio_spread_tolerance_apr_bps: 5,
        confirmation_opportunities: 2,
        immediate_tranche_bps: 9_000,
        persistent_confirmation_duration: Duration::from_secs(600),
        minimum_independent_rate_events: 2,
        minimum_independent_event_span: Duration::from_secs(60),
        minimum_independent_event_rate_impact_apr_bps: 5,
        minimum_independent_event_utilization_impact_bps: 5,
        maximum_rate_episode_duration: Duration::from_secs(3_600),
        extreme_spread_bypass_enabled: false,
        benefit_horizon: Duration::from_secs(EXAMPLE_BENEFIT_HORIZON_SECONDS),
        maximum_daily_transactions: 10,
        top_k_apy: TopKApyConfig::default(),
    }
}

fn execution() -> ExecutionConfig {
    ExecutionConfig {
        expected_inclusion_opportunities: 2,
        maximum_inclusion_opportunities: 20,
        maximum_rate_rebalance_pending_opportunities: 10,
        maximum_capital_deployment_pending_opportunities: 10,
        maximum_liquidity_maintenance_pending_opportunities: 10,
        identical_rebroadcast_after_opportunities: 2,
        replacement_after_opportunities: 4,
        cancel_when_opportunities_remaining: 2,
        receipt_confirmation_evm_blocks: 1,
        maximum_actions: 8,
        maximum_signed_transaction_gas: 1_900_000,
        gas_headroom_bps: 12_000,
        maximum_fee_per_gas_wei: "1000000000".to_owned(),
        maximum_daily_gas_spend_wei: "1000000000000000000".to_owned(),
    }
}

fn snapshot() -> SnapshotConfig {
    SnapshotConfig {
        mode: SnapshotMode::AtomicLatest,
        strict_signing_context: true,
        maximum_background_snapshot_age_blocks: 10,
        maximum_signing_snapshot_age_blocks: 2,
        maximum_snapshot_retries: 3,
        maximum_evm_timestamp_lag_seconds: 10,
        maximum_snapshot_to_sign_latency: Duration::from_secs(5),
        maximum_sign_to_broadcast_latency: Duration::from_secs(2),
    }
}

fn solver() -> SolverConfig {
    SolverConfig {
        maximum_nodes: 10_000,
        maximum_amount_candidates_per_position: 32,
        maximum_source_sets: 8,
        maximum_destination_sets: 8,
        allow_incomplete_rate_solver: false,
    }
}

fn alerts() -> AlertConfig {
    AlertConfig {
        telegram: TelegramConfig {
            enabled: false,
            bot_token_env: "TELEGRAM_TOKEN".to_owned(),
            chat_id: "".to_owned(),
            message_thread_id: None,
        },
        pagerduty: PagerDutyConfig {
            enabled: false,
            integration_key_env: "PAGERDUTY_KEY".to_owned(),
        },
    }
}

fn app() -> AppConfig {
    AppConfig {
        schema_version: 6,
        node: NodeConfig {
            instance_id: "node-1".to_owned(),
            mode: RuntimeMode::Shadow,
            data_dir: "data".to_owned(),
            full_reconciliation_interval: Duration::from_secs(60),
            topology_reconciliation_interval: Duration::from_secs(600),
        },
        chain: ChainConfig {
            name: "hyperevm".to_owned(),
            chain_id: 999,
            morpho_blue: address(40),
            multicall3: address(41),
            expected_multicall3_code_hash: hash(42),
            event_start_block: 1,
            maximum_log_range: 1_000,
            reorg_rescan_blocks: 64,
            block_opportunity_policy: BlockOpportunityPolicy::HyperEvmFastBlocks {
                gas_limit: 2_000_000,
            },
            rpc: vec![primary(), checkpoint()],
        },
        snapshot: snapshot(),
        execution: execution(),
        solver: solver(),
        strategy: strategy(),
        signing: SigningConfig::RemoteSigner { endpoint_env: "SIGNER_URL".to_owned() },
        alerts: alerts(),
        vault: vec![vault(1)],
    }
}

fn accepted_at() -> u64 {
    EXAMPLE_REWARD_EXPIRY - EXAMPLE_BENEFIT_HORIZON_SECONDS
}

fn accept(config: AppConfig) -> ValidatedAppConfig {
    config
        .validate_at(accepted_at(), DURABLE_REORG_BLOCKS)
        .expect("the configuration is accepted")
}

fn refusal(config: AppConfig) -> (String, &'static str) {
    match config.validate_at(accepted_at(), DURABLE_REORG_BLOCKS) {
        Err(ConfigError::Validation { field, reason }) => (field, reason),
        Err(other) => panic!("unexpected failure {:?}", other),
        Ok(_) => panic!("the configuration was accepted"),
    }
}

fn refused_field(config: AppConfig) -> String {
    refusal(config).0
}

#[test]
fn apr_conversion_has_required_rounding() -> Result<(), ArithmeticError> {
    let up = apr_bps_to_rate_per_second_up(AprBps(30))?;
    let down = apr_bps_to_rate_per_second_down(AprBps(30))?;
    assert_eq!(up.0, U256::from_u64(95_129_376));
    assert_eq!(down.0, U256::from_u64(95_129_375));
    Ok(())
}

#[test]
fn zero_apr_converts_to_zero() -> Result<(), ArithmeticError> {
    assert_eq!(apr_bps_to_rate_per_second_up(AprBps(0))?, RatePerSecond(U256::zero()));
    assert_eq!(apr_bps_to_rate_per_second_down(AprBps(0))?, RatePerSecond(U256::zero()));
    Ok(())
}

#[test]
fn utilization_basis_points_convert_exactly_to_wad() -> Result<(), ArithmeticError> {
    assert_eq!(utilization_bps_to_wad(10)?, U256::from_u64(1_000_000_000_000_000));
    assert_eq!(utilization_bps_to_wad(25)?, U256::from_u64(2_500_000_000_000_000));
    Ok(())
}

#[test]
fn explicit_validation_clock_has_an_exact_reward_boundary() -> Result<(), ConfigError> {
    app().validate_at(
        EXAMPLE_REWARD_EXPIRY - EXAMPLE_BENEFIT_HORIZON_SECONDS,
        DURABLE_REORG_BLOCKS,
    )?;

    let error = app().validate_at(
        EXAMPLE_REWARD_EXPIRY - EXAMPLE_BENEFIT_HORIZON_SECONDS + 1,
        DURABLE_REORG_BLOCKS,
    );
    assert!(matches!(
        error,
        Err(ConfigError::Validation { field, .. })
            if field == "vault.position.reward_policy.valid_until_timestamp"
    ));
    Ok(())
}

#[test]
fn default_weights_are_valid_and_canonicalize() -> Result<(), ConfigError> {
    let config = TopKApyConfig::default();
    config.validate(RuntimeMode::Shadow, true)?;
    let canonical = config.canonical()?;
    assert_eq!(canonical.three_market_weights_bps, [5_000, 3_000, 2_000]);
    assert_eq!(canonical.four_market_weights_bps, [4_000, 3_000, 2_000, 1_000]);
    Ok(())
}

#[test]
fn invalid_weight_order_is_rejected_by_the_group_owner() {
    let config = TopKApyConfig {
        three_market_weights_bps: vec![3_000, 5_000, 2_000],
        ..TopKApyConfig::default()
    };
    let error = config.validate(RuntimeMode::Shadow, true);
    assert!(matches!(
        error,
        Err(ConfigError::Validation { field, .. }) if field == "strategy.top_k_apy.weights"
    ));
}

#[test]
fn accepted_configuration_is_canonical() {
    let mut config = app();
    config.vault = vec![vault(3), vault(1)];
    let validated = accept(config);
    assert_eq!(validated.vaults.len(), 2);
    assert_eq!(validated.vaults[0].address.0, Address::with_last_byte(1));
    assert_eq!(validated.vaults[1].address.0, Address::with_last_byte(3));
    assert_eq!(validated.chain.rpc[0].name, "CHECKPOINT");
    assert_eq!(validated.chain.rpc[1].name, "PRIMARY");
    assert_eq!(
        validated.chain.rpc[1].roles,
        vec![
            RpcRole::Head,
            RpcRole::Logs,
            RpcRole::Read,
            RpcRole::Simulate,
            RpcRole::Submit,
            RpcRole::Receipt,
        ]
    );
    assert_eq!(
        validated.vaults[0].approved_allocators,
        vec![Address::with_last_byte(20), Address::with_last_byte(21)]
    );
    assert_eq!(validated.node.full_reconciliation_interval_millis, 60_000);
    assert_eq!(validated.execution.maximum_fee_per_gas_wei, U256::from_u64(1_000_000_000));
    assert_eq!(validated.strategy.benefit_horizon_seconds, EXAMPLE_BENEFIT_HORIZON_SECONDS);
    let positions = &validated.vaults[0].positions;
    assert_eq!(positions.len(), 2);
    assert!(positions[0].position_key.0.word().lt(positions[1].position_key.0.word()));
    for position in positions {
        assert_eq!(position.market_id, derive_market_id(&position.market_params));
    }
}

#[test]
fn rate_group_identity_is_the_name_digest() {
    let validated = accept(app());
    let digest = alloy::primitives::keccak256("core");
    assert_eq!(validated.vaults[0].rate_group.id.0.to_bytes(), digest.to_vec());
    assert_eq!(validated.vaults[0].positions[0].rate_group, validated.vaults[0].rate_group.id);
}

#[test]
fn revision_is_the_digest_of_canonical_bytes() {
    let sealed = ValidatedConfig::seal(accept(app()), b"canonical form");
    assert_eq!(
        config_revision(&sealed).to_bytes(),
        alloy::primitives::keccak256("canonical form").to_vec()
    );
}

#[test]
fn shared_settings_are_checked_in_order() {
    let mut config = app();
    config.schema_version = 5;
    config.vault = Vec::new();
    assert_eq!(refused_field(config), "schema_version");

    let mut config = app();
    config.vault = Vec::new();
    config.chain.rpc = Vec::new();
    assert_eq!(refused_field(config), "vault");

    let mut config = app();
    config.chain.rpc[0].supports_websocket = true;
    assert_eq!(refused_field(config), "chain.rpc");

    let mut config = app();
    config.signing = SigningConfig::RemoteSigner { endpoint_env: " \t".to_owned() };
    assert_eq!(refused_field(config), "signing");

    let mut config = app();
    config.alerts.telegram.enabled = true;
    assert_eq!(refused_field(config), "alerts.telegram");

    let mut config = app();
    config.alerts.pagerduty.enabled = true;
    config.alerts.pagerduty.integration_key_env = "".to_owned();
    assert_eq!(refused_field(config), "alerts.pagerduty");

    let mut config = app();
    config.chain.reorg_rescan_blocks = DURABLE_REORG_BLOCKS + 1;
    assert_eq!(refused_field(config), "chain");

    let mut config = app();
    config.snapshot.maximum_evm_timestamp_lag_seconds = 61;
    assert_eq!(refused_field(config), "snapshot");

    let mut config = app();
    config.solver.maximum_source_sets = 0;
    assert_eq!(refused_field(config), "solver");
}

#[test]
fn exactly_one_primary_and_an_independent_checkpoint_are_required() {
    let mut config = app();
    config.chain.rpc[0].production_grade = false;
    assert_eq!(
        refusal(config).1,
        "exactly one production-grade primary must own every live runtime role"
    );

    let mut config = app();
    config.chain.rpc.push(primary());
    assert_eq!(
        refusal(config).1,
        "exactly one production-grade primary must own every live runtime role"
    );

    let mut config = app();
    config.chain.rpc.pop();
    assert_eq!(
        refusal(config).1,
        "an independent checkpoint/read/receipt provider is required"
    );
}

#[test]
fn local_execute_needs_the_exact_chain() {
    let signing = |chain: Option<u64>| SigningConfig::LocalDevelopment {
        private_key_env: "KEY".to_owned(),
        execute_chain_id: chain,
    };
    let mut config = app();
    config.node.mode = RuntimeMode::Execute;
    config.signing = signing(None);
    assert_eq!(refused_field(config), "signing.execute_chain_id");

    let mut config = app();
    config.node.mode = RuntimeMode::Execute;
    config.signing = signing(Some(998));
    assert_eq!(refused_field(config), "signing.execute_chain_id");

    let mut config = app();
    config.node.mode = RuntimeMode::Execute;
    config.signing = signing(Some(999));
    accept(config);
}

#[test]
fn execution_policy_is_checked() {
    let mut config = app();
    config.execution.maximum_signed_transaction_gas = 2_000_000;
    assert_eq!(refused_field(config), "chain.block_opportunity_policy.gas_limit");

    let mut config = app();
    config.execution.maximum_fee_per_gas_wei = "1".to_owned();
    assert_eq!(refused_field(config), "execution.maximum_fee_per_gas_wei");

    let mut config = app();
    config.execution.maximum_daily_gas_spend_wei = "zero".to_owned();
    assert_eq!(refused_field(config), "execution.maximum_daily_gas_spend_wei");

    let mut config = app();
    config.execution.maximum_rate_rebalance_pending_opportunities = 21;
    assert_eq!(
        refused_field(config),
        "execution.maximum_rate_rebalance_pending_opportunities"
    );

    let mut config = app();
    config.execution.identical_rebroadcast_after_opportunities = 5;
    assert_eq!(
        refused_field(config),
        "execution.identical_rebroadcast_after_opportunities"
    );
}

#[test]
fn strategy_thresholds_are_checked() {
    let mut config = app();
    config.strategy.entry_spread_apr_bps = 35;
    assert_eq!(refused_field(config), "strategy.entry_spread_apr_bps");

    let mut config = app();
    config.strategy.utilization_entry_spread_bps = 10_001;
    assert_eq!(refused_field(config), "strategy.utilization_entry_spread_bps");

    let mut config = app();
    config.strategy.minimum_independent_rate_events = 1;
    assert_eq!(refused_field(config), "strategy.minimum_independent_rate_events");

    let mut config = app();
    config.strategy.maximum_rate_episode_duration = Duration::from_secs(600);
    assert_eq!(refused_field(config), "strategy.maximum_rate_episode_duration");

    let mut config = app();
    config.strategy.immediate_tranche_bps = 10_001;
    assert_eq!(refused_field(config), "strategy.immediate_tranche_bps");

    let mut config = app();
    config.node.mode = RuntimeMode::Execute;
    config.solver.allow_incomplete_rate_solver = true;
    assert_eq!(refused_field(config), "node.mode");
}

#[test]
fn vault_rules_are_checked() {
    let mut config = app();
    config.vault[0].approved_allocators = vec![address(21)];
    assert_eq!(
        refusal(config),
        ("vault.signer_address".to_owned(), "signer is absent from approved allocators")
    );

    let mut config = app();
    config.vault[0].maximum_movement_per_hour_assets = "999".to_owned();
    assert_eq!(refused_field(config), "vault.movement_limits");

    let mut config = app();
    config.vault[0].adapter.push(adapter(10));
    assert_eq!(
        refusal(config),
        ("vault.adapter.address".to_owned(), "direct adapter address is duplicated")
    );

    let mut config = app();
    config.vault[0].liquidity_adapter.as_mut().unwrap().address = address(10);
    assert_eq!(refused_field(config), "vault.liquidity_adapter.address");

    let mut config = app();
    config.vault[0].position[1] = position(30);
    assert_eq!(
        refusal(config),
        ("vault.position".to_owned(), "position identity is duplicated")
    );

    let mut config = app();
    config.vault[0].adapter.push(adapter(50));
    config.vault[0].position[1] = position(30);
    config.vault[0].position[1].adapter = address(50);
    assert_eq!(
        refusal(config).1,
        "one Morpho market may appear only once per managed vault"
    );

    let mut config = app();
    config.vault[0].position[0].market_id = hash(77);
    assert_eq!(
        refusal(config).1,
        "configured market ID differs from exact derivation"
    );

    let mut config = app();
    config.vault[0].minimum_active_positions_after_economic_exit = 3;
    assert_eq!(
        refused_field(config),
        "vault.minimum_active_positions_after_economic_exit"
    );

    let mut config = app();
    config.vault[0].expected_vault_code_hash = hash(0);
    assert_eq!(refused_field(config), "vault.expected_vault_code_hash");

    let mut config = app();
    config.vault.push(vault(1));
    assert_eq!(
        refusal(config),
        ("vault.address".to_owned(), "vault address is duplicated")
    );

    let mut config = app();
    let mut other = vault(3);
    other.signer_address = address(21);
    config.vault.push(other);
    assert_eq!(
        refusal(config),
        (
            "vault.signer_address".to_owned(),
            "all managed vaults must share one allocator signer"
        )
    );
}

#[test]
fn reward_evidence_needs_an_identity() {
    let mut config = app();
    config.vault[0].position[0].reward_policy =
        RewardPolicy::IgnoreRewardsByCuratorMandate { policy_revision: B256::zero() };
    assert_eq!(
        refused_field(config),
        "vault.position.reward_policy.policy_revision"
    );

    let mut config = app();
    config.vault[0].position[0].reward_policy = RewardPolicy::FixedUntilModeled;
    accept(config);
}

#[test]
fn clock_overflow_is_an_arithmetic_failure() {
    let error = app().validate_at(u64::MAX, DURABLE_REORG_BLOCKS);
    assert!(matches!(
        error,
        Err(ConfigError::Arithmetic(ArithmeticError::Overflow))
    ));
}

#[test]
fn current_clock_is_before_the_example_expiry() {
    assert!(app().validate(DURABLE_REORG_BLOCKS).is_ok());
    assert!(unix_timestamp(-1).is_err());
    assert_eq!(unix_timestamp(5).unwrap(), 5);
}

#[test]
fn top_k_policy_boundaries() {
    assert!(valid_weights(&vec![5_000, 3_000, 2_000], 3));
    assert!(!valid_weights(&vec![5_000, 3_000, 2_001], 3));
    assert!(!valid_weights(&vec![7_001, 2_000, 999], 3));
    assert!(!valid_weights(&vec![5_000, 5_000], 3));

    let config = TopKApyConfig { top_market_boost_weight_bps: 5_000, ..TopKApyConfig::default() };
    assert!(matches!(
        config.validate(RuntimeMode::Shadow, true),
        Err(ConfigError::Validation { field, .. }) if field == "strategy.top_k_apy.weights"
    ));
    let config = TopKApyConfig { exit_apy_bps: 10, ..TopKApyConfig::default() };
    assert!(matches!(
        config.validate(RuntimeMode::Shadow, true),
        Err(ConfigError::Validation { field, .. }) if field == "strategy.top_k_apy.hysteresis"
    ));
    let config = TopKApyConfig {
        native_token_price_ceiling_asset_wad: "0".to_owned(),
        ..TopKApyConfig::default()
    };
    assert!(config.validate(RuntimeMode::Execute, false).is_ok());
    assert!(matches!(
        config.validate(RuntimeMode::Execute, true),
        Err(ConfigError::Validation { field, .. })
            if field == "strategy.top_k_apy.native_token_price_ceiling_asset_wad"
    ));
}

#[test]
fn document_joins_normal_and_advanced_sections() {
    let document = ConfigDocument {
        schema_version: 6,
        normal: NormalConfig {
            node: NormalNodeConfig {
                instance_id: "node-1".to_owned(),
                mode: RuntimeMode::Observe,
                data_dir: "data".to_owned(),
            },
            chain: NormalChainConfig {
                name: "hyperevm".to_owned(),
                chain_id: 999,
                morpho_blue: address(40),
                multicall3: address(41),
                expected_multicall3_code_hash: hash(42),
                event_start_block: 7,
                rpc: vec![primary(), checkpoint()],
            },
            signing: SigningConfig::RemoteSigner { endpoint_env: "SIGNER_URL".to_owned() },
            alerts: alerts(),
            vault: vec![vault(1)],
        },
        advanced: AdvancedConfig {
            node: AdvancedNodeConfig {
                full_reconciliation_interval: Duration::from_secs(61),
                topology_reconciliation_interval: Duration::from_secs(600),
            },
            chain: AdvancedChainConfig {
                maximum_log_range: 1_000,
                reorg_rescan_blocks: 64,
                block_opportunity_policy: BlockOpportunityPolicy::EveryCanonicalBlock,
            },
            snapshot: snapshot(),
            execution: execution(),
            solver: solver(),
            strategy: strategy(),
        },
    };
    let config = document.into_app_config();
    assert_eq!(config.node.mode, RuntimeMode::Observe);
    assert_eq!(config.node.full_reconciliation_interval.as_secs(), 61);
    assert_eq!(config.chain.event_start_block, 7);
    let validated = accept(config);
    assert_eq!(validated.chain.chain_id, 999);
    assert_eq!(validated.chain.block_opportunity_policy.required_gas_limit(), None);
}

#[test]
fn opportunity_policy_names_the_gas_limit() {
    let fast = BlockOpportunityPolicy::HyperEvmFastBlocks { gas_limit: 2_000_000 };
    assert_eq!(fast.required_gas_limit(), Some(2_000_000));
    assert!(fast.requires_hyper_evm_signer_lane_check());
    assert!(!BlockOpportunityPolicy::EveryCanonicalBlock.requires_hyper_evm_signer_lane_check());
}

#[test]
fn fixed_width_literals_hold_every_digit() {
    let digits = "00000000000000000000000000000000000000fF";
    let value = Address::with_last_byte(255);
    for prefix in ["", "0x", "0X"] {
        let text = format!("{}{}", prefix, digits);
        assert_eq!(parse_address("field", &text).unwrap(), value);
        assert!(parse_address("field", &text[..text.len() - 1]).is_err());
        assert!(parse_address("field", &format!("{}0", text)).is_err());
    }
    assert!(parse_address("field", &digits.replace('F', "g")).is_err());
    assert!(parse_address("field", &digits.replacen("00", "+0", 1)).is_err());
    let wide = format!("{}{}", "000000000000000000000000", digits);
    assert_eq!(parse_nonzero_hash("field", &wide).unwrap(), B256::with_last_byte(255));
    assert!(parse_nonzero_hash("field", digits).is_err());
}

#[test]
fn integer_literals_announce_their_radix() {
    let parsed = |text: &str| parse_u256("field", text).ok();
    assert_eq!(parsed("1_000"), Some(U256::from_u64(1_000)));
    assert_eq!(parsed("0007"), Some(U256::from_u64(7)));
    assert_eq!(parsed("0XfF"), Some(U256::from_u64(255)));
    assert_eq!(parsed("0o17"), Some(U256::from_u64(15)));
    assert_eq!(parsed("0b1_01"), Some(U256::from_u64(5)));
    for empty in ["", "_", "0x", "0b_"] {
        assert_eq!(parsed(empty), Some(U256::zero()));
    }
    for malformed in ["+1", "-1", "1.0", " 1", "ff", "0o8", "0b2", "0xg", "0x0x1", "\u{663}"] {
        assert_eq!(parsed(malformed), None);
    }
    let largest = format!("0x{}", "f".repeat(64));
    assert_eq!(parsed(&largest), Some(U256::max_value()));
    assert_eq!(parsed(&format!("0x0{}", &largest[2..])), Some(U256::max_value()));
    assert_eq!(parsed(&format!("0x1{}", "0".repeat(64))), None);
    let decimal = "115792089237316195423570985008687907853269984665640564039457584007913129639935";
    assert_eq!(parsed(decimal), Some(U256::max_value()));
    assert_eq!(parsed(&format!("{}6", &decimal[..decimal.len() - 1])), None);
    assert_eq!(parsed(&format!("{}0", decimal)), None);
    assert_eq!(parsed(&format!("0o1{}", "7".repeat(85))), Some(U256::max_value()));
    assert_eq!(parsed(&format!("0o2{}", "0".repeat(85))), None);
}

#[test]
fn amount_rules_take_parsed_amounts() {
    let u = U256::from_u64;
    let wad = 1_000_000_000_000_000_000;
    assert!(check_scores(u(wad), u(wad - 1), u(wad), 1).is_ok());
    assert!(check_scores(u(wad + 1), u(0), u(1), 1).is_err());
    assert!(check_scores(u(5), u(5), u(1), 1).is_err());
    assert!(check_scores(u(5), u(4), u(0), 1).is_err());
    assert!(check_scores(u(5), u(4), u(6), 1).is_err());
    assert!(check_scores(u(5), u(4), u(5), 0).is_err());
    assert!(check_price_ceiling(u(1)).is_ok());
    assert!(check_price_ceiling(u(0)).is_err());
    assert!(check_fee_per_gas(u(2)).is_ok());
    assert!(check_fee_per_gas(u(1)).is_err());
    assert!(check_daily_gas_spend(u(1)).is_ok());
    assert!(check_daily_gas_spend(u(0)).is_err());
    assert!(check_action_limit(u(1)).is_ok());
    assert!(check_action_limit(u(0)).is_err());
    assert!(check_relevance(u(2), u(1)).is_ok());
    assert!(check_relevance(u(1), u(1)).is_err());
    assert!(check_position_range(u(1), u(1)).is_ok());
    assert!(check_position_range(u(2), u(1)).is_err());
    assert!(check_movement_limits(u(1), u(1), u(1), u(1)).is_ok());
    assert!(check_movement_limits(u(0), u(1), u(1), u(1)).is_err());
    assert!(check_movement_limits(u(2), u(1), u(2), u(1)).is_err());
    assert!(check_movement_limits(u(1), u(2), u(1), u(1)).is_err());
    assert!(check_movement_limits(u(1), u(1), u(1), u(0)).is_err());
    assert!(check_headroom_search(u(1), u(1)).is_ok());
    assert!(check_headroom_search(u(0), u(0)).is_err());
    assert!(check_headroom_search(u(2), u(1)).is_err());
    assert!(check_group_assets(u(1), u(1), u(1)).is_ok());
    assert!(check_group_assets(u(2), u(1), u(3)).is_err());
    assert!(check_group_assets(u(1), u(3), u(2)).is_err());
    assert!(matches!(
        check_group_assets(u(1), u(3), u(2)),
        Err(ConfigError::Validation { field, .. }) if field == "vault.rate_group"
    ));
}

#[test]
fn canonical_policies_hold_parsed_amounts() {
    let u = U256::from_u64;
    let amounts = TopKAmounts {
        entry_score_wad: u(1),
        target_score_wad: u(2),
        minimum_improvement_score_wad: u(3),
        minimum_net_gain_assets: u(4),
        native_token_price_ceiling_asset_wad: u(5),
    };
    let policy = TopKApyConfig::default().canonical_with(amounts);
    assert_eq!(policy.entry_score_wad, u(1));
    assert_eq!(policy.target_score_wad, u(2));
    assert_eq!(policy.minimum_improvement_score_wad, u(3));
    assert_eq!(policy.minimum_net_gain_assets, u(4));
    assert_eq!(policy.native_token_price_ceiling_asset_wad, u(5));
    assert_eq!(policy.enter_apy_wad, u(20_000_000_000_000_000));
    let execution = canonicalize_execution_with(&app().execution, u(6), u(7));
    assert_eq!(execution.maximum_fee_per_gas_wei, u(6));
    assert_eq!(execution.maximum_daily_gas_spend_wei, u(7));
}

#[test]
fn literals_are_parsed_by_kind() {
    assert_eq!(
        parse_address("field", &address(255)).unwrap(),
        Address::with_last_byte(255)
    );
    assert!(parse_address("field", "0x12").is_err());
    assert_eq!(parse_u256("field", "255").unwrap(), U256::from_u64(255));
    assert_eq!(parse_u256("field", "0xff").unwrap(), U256::from_u64(255));
    assert!(parse_u256("field", "-1").is_err());
    assert_eq!(parse_nonzero_hash("field", &hash(3)).unwrap(), B256::with_last_byte(3));
    assert!(matches!(
        parse_nonzero_hash("field", &hash(0)),
        Err(ConfigError::Validation { field, .. }) if field == "field"
    ));
}

#[test]
fn formats_follow_the_extension() {
    assert!(matches!(config_format(Some("json")), Ok(ConfigFormat::Json)));
    assert!(matches!(config_format(Some("YAML")), Ok(ConfigFormat::Yaml)));
    assert!(matches!(config_format(Some("toml")), Err(ConfigError::UnsupportedFormat)));
    assert!(matches!(config_format(None), Err(ConfigError::UnsupportedFormat)));
}

#[test]
fn texts_are_ordered_and_trimmed() {
    assert!(text_before("A", "B"));
    assert!(text_before("A", "AA"));
    assert!(!text_before("B", "A"));
    assert!(!text_before("A", "A"));
    assert!(is_blank(" \n"));
    assert!(!is_blank(" x "));
}

fn remote_identity() -> RemoteSignerIdentity {
    RemoteSignerIdentity {
        service_identity: "signer.example".to_owned(),
        client_identity_env: "CLIENT_IDENTITY".to_owned(),
        authentication_secret_env: "SIGNER_TOKEN".to_owned(),
    }
}

#[test]
fn required_environment_is_sorted_and_distinct() {
    let validated = accept(app());
    assert_eq!(
        required_environment(&validated, &remote_identity()),
        vec!["CHECKPOINT_URL".to_owned(), "PRIMARY_URL".to_owned()]
    );

    let mut config = app();
    config.node.mode = RuntimeMode::Execute;
    config.chain.rpc[0].supports_websocket = true;
    config.chain.rpc[0].websocket_url_env = Some("PRIMARY_URL".to_owned());
    config.alerts.telegram.enabled = true;
    config.alerts.telegram.chat_id = "1".to_owned();
    assert_eq!(
        required_environment(&accept(config), &remote_identity()),
        vec![
            "CHECKPOINT_URL".to_owned(),
            "CLIENT_IDENTITY".to_owned(),
            "MORPHO_V2_LOCK_DIR".to_owned(),
            "PRIMARY_URL".to_owned(),
            "SIGNER_TOKEN".to_owned(),
            "SIGNER_URL".to_owned(),
            "TELEGRAM_TOKEN".to_owned(),
        ]
    );
}

#[test]
fn doctor_compares_the_lock_first() {
    let validated = accept(app());
    assert_eq!(static_doctor(&validated, 998, true), Err(DoctorRefusal::ChainMismatch));
    assert_eq!(
        static_doctor(&validated, 999, true),
        Err(DoctorRefusal::Release(ReleaseRefusal::OnlyInExecute))
    );
    assert_eq!(static_doctor(&validated, 999, false), Ok(ReleaseDecision::NotApplicable));
}

#[test]
fn vaults_are_grouped_by_signer() {
    let mut config = app();
    config.vault = vec![vault(3), vault(1)];
    let validated = accept(config);
    let grouped = signer_vaults(&validated.vaults);
    assert_eq!(grouped.len(), 1);
    let (signer, managed) = grouped.entry(0);
    assert_eq!(*signer, Address::with_last_byte(20));
    assert_eq!(managed.len(), 2);
    assert_eq!(managed.at(0), Address::with_last_byte(1));
    assert_eq!(local_signer_address(&validated.vaults), None);
    assert_eq!(
        local_signer_address(&accept(app()).vaults),
        Some(Address::with_last_byte(20))
    );
}

#[test]
fn watched_addresses_come_from_configuration_and_lock() {
    let sealed = ValidatedConfig::seal(accept(app()), b"form");
    let lock = ValidatedProtocolLock {
        chain_id: 999,
        contracts: vec![ValidatedContractIdentity {
            kind: IdentityKind::MorphoSingleton,
            address: Address::with_last_byte(40),
            runtime_code_hash: B256::with_last_byte(1),
        }],
    };
    let watched = match WatchedAddresses::build(&sealed, &lock) {
        Ok(watched) => watched,
        Err(error) => panic!("unexpected failure {:?}", error),
    };
    assert!(watched.vaults.contains(Address::with_last_byte(1)));
    assert!(watched.adapters.contains(Address::with_last_byte(10)));
    assert!(watched.morpho.contains(Address::with_last_byte(40)));
    assert!(watched.tokens.contains(Address::with_last_byte(2)));
    let all = watched.all();
    assert!(all.contains(Address::with_last_byte(1)));
    assert!(all.contains(Address::with_last_byte(40)));
    let foreign = ValidatedProtocolLock { chain_id: 1, contracts: Vec::new() };
    assert!(matches!(
        WatchedAddresses::build(&sealed, &foreign),
        Err(WatchedAddressError::ChainMismatch)
    ));
}

fn executing(signing: SigningConfig) -> AppConfig {
    let mut config = app();
    config.node.mode = RuntimeMode::Execute;
    config.signing = signing;
    config
}

fn remote_signing() -> SigningConfig {
    SigningConfig::RemoteSigner { endpoint_env: "SIGNER_URL".to_owned() }
}

#[test]
fn signers_are_planned_for_execute_only() {
    let identity = remote_identity();
    assert!(matches!(plan_signer(&accept(app()), &identity, None), Ok(SignerPlan::Unsigned)));

    let remote = accept(executing(remote_signing()));
    assert!(matches!(
        plan_signer(&remote, &identity, None),
        Err(SignerFailure::EndpointMissing)
    ));
    assert!(matches!(
        plan_signer(&remote, &identity, Some("signer.example")),
        Err(SignerFailure::Endpoint(SignerEndpointFailure::Invalid))
    ));
    assert!(matches!(
        plan_signer(&remote, &identity, Some("https://other.example")),
        Err(SignerFailure::Endpoint(SignerEndpointFailure::NotPinned))
    ));
    assert!(matches!(
        plan_signer(&remote, &identity, Some("https://signer.example/")),
        Ok(SignerPlan::Remote)
    ));

    let local = || SigningConfig::LocalDevelopment {
        private_key_env: "KEY".to_owned(),
        execute_chain_id: Some(999),
    };
    assert!(matches!(
        plan_signer(&accept(executing(local())), &identity, None),
        Ok(SignerPlan::Local { address }) if address == Address::with_last_byte(20)
    ));
    let mut two = executing(local());
    two.vault.push(vault(3));
    assert!(matches!(
        plan_signer(&accept(two), &identity, None),
        Err(SignerFailure::NotOneVault)
    ));
}

#[test]
fn remote_signing_is_bounded() {
    let validated = accept(executing(remote_signing()));
    let policy = match remote_signer_policy(&validated, Some("SECRET-REDACTED")) {
        Ok(policy) => policy,
        Err(failure) => panic!("unexpected failure {:?}", failure),
    };
    assert_eq!(policy.chain_id, 999);
    assert_eq!(policy.maximum_gas_limit, 1_900_000);
    assert_eq!(policy.maximum_fee_per_gas, 1_000_000_000);
    assert_eq!(policy.signer_vaults.len(), 1);
    assert_eq!(remote_signer_policy(&validated, None).err(), Some(SignerFailure::SecretMissing));
    assert_eq!(
        remote_signer_policy(&validated, Some("")).err(),
        Some(SignerFailure::SecretEmpty)
    );
    let mut costly = executing(remote_signing());
    costly.execution.maximum_fee_per_gas_wei =
        "0x100000000000000000000000000000000".to_owned();
    assert_eq!(
        remote_signer_policy(&accept(costly), Some("SECRET-REDACTED")).err(),
        Some(SignerFailure::FeeBound)
    );
}
