//! Validation of a complete configuration into its canonical form.

use vstd::prelude::*;
use vstd::string::*;

use crate::collections::{
    has_key, has_key_is_membership, strictly_increasing, with_key, with_key_is_insertion,
    OrderedKey, OrderedSet,
};
use crate::domain::{AprBps, ArithmeticError, RatePerSecond, VaultAddress};
use crate::primitives::{b256, group_b256, keccak256, keccak256_digest, Address, B256, U256};

use super::policy::{top_level_failure, validate_top_level};
use super::raw::{
    AppConfig, ExecutionConfig, NodeConfig, RpcConfig, SnapshotConfig, SolverConfig, StrategyConfig,
    VaultConfig,
};
use super::text::{
    address_in, amount_in, code_hash_failure, hash_in, invalid, is_address, not_an_address,
    parse_address, parse_nonzero_hash, parse_u256, settles, text_before, text_before_from,
    validation, ConfigError, ConfigFailure,
};
use super::top_k::{canonical_failure, canonical_policy};
use super::units::{
    apr_bps_to_rate_per_second_down, apr_bps_to_rate_per_second_up, rate_down, rate_up,
    utilization_bps_to_wad, utilization_wad,
};
use super::vault::{canonical_vault, validate_vault, vault_failure};
use super::{
    optional_text, rpc_views, vault_views, AlertView, AppView, ChainView, NodeView, RpcRole,
    RpcView, SolverConfigCanonical, StrategyView, ValidatedAlertConfig, ValidatedAppConfig,
    ValidatedChainConfig, ValidatedConfig, ValidatedExecutionConfig, ValidatedNodeConfig,
    ValidatedRpcConfig, ValidatedSnapshotConfig, ValidatedStrategyConfig, ValidatedVaultConfig,
    VaultView,
};

verus! {

/// Sorted distinct roles of the first `count`.
pub open spec fn sorted_roles(roles: Seq<RpcRole>, count: int) -> Seq<RpcRole>
    decreases count,
{
    if count <= 0 {
        Seq::empty()
    } else {
        with_key(sorted_roles(roles, count - 1), roles[count - 1])
    }
}

fn sort_roles(roles: &Vec<RpcRole>) -> (r: Vec<RpcRole>)
    ensures
        r@ == sorted_roles(roles@, roles@.len() as int),
{
    let mut set: OrderedSet<RpcRole> = OrderedSet::new();
    let mut i: usize = 0;
    while i < roles.len()
        invariant
            i <= roles.len(),
            set@ == sorted_roles(roles@, i as int),
        decreases roles.len() - i,
    {
        let _added = set.insert(roles[i]);
        i = i + 1;
    }
    let mut sorted: Vec<RpcRole> = Vec::new();
    let mut j: usize = 0;
    while j < set.len()
        invariant
            j <= set@.len(),
            sorted@ == set@.subrange(0, j as int),
        decreases set@.len() - j,
    {
        sorted.push(set.at(j));
        j = j + 1;
    }
    assert(sorted@ =~= set@);
    sorted
}

/// The canonical form of a provider reference.
pub open spec fn canonical_rpc(provider: RpcConfig) -> RpcView {
    RpcView {
        name: provider.name@,
        url_env: provider.url_env@,
        websocket_url_env: optional_text(provider.websocket_url_env),
        roles: sorted_roles(provider.roles@, provider.roles@.len() as int),
        production_grade: provider.production_grade,
        supports_websocket: provider.supports_websocket,
        supports_historical_state: provider.supports_historical_state,
    }
}

fn canonicalize_rpc(provider: &RpcConfig) -> (r: ValidatedRpcConfig)
    ensures
        r@ == canonical_rpc(*provider),
{
    let websocket_url_env = match &provider.websocket_url_env {
        Some(name) => Some(name.clone()),
        None => None,
    };
    ValidatedRpcConfig {
        name: provider.name.clone(),
        url_env: provider.url_env.clone(),
        websocket_url_env,
        roles: sort_roles(&provider.roles),
        production_grade: provider.production_grade,
        supports_websocket: provider.supports_websocket,
        supports_historical_state: provider.supports_historical_state,
    }
}

/// Number of leading providers from index `from` on that a name does not order before.
pub open spec fn name_place_from(sorted: Seq<RpcView>, name: Seq<char>, from: int) -> int
    decreases sorted.len() - from,
{
    if from >= sorted.len() || text_before_from(name, sorted[from].name, 0) {
        from
    } else {
        name_place_from(sorted, name, from + 1)
    }
}

/// Providers of the first `count` in name order; providers of one name keep their order.
pub open spec fn rpc_by_name(providers: Seq<RpcConfig>, count: int) -> Seq<RpcView>
    decreases count,
{
    if count <= 0 {
        Seq::empty()
    } else {
        let sorted = rpc_by_name(providers, count - 1);
        let item = canonical_rpc(providers[count - 1]);
        sorted.insert(name_place_from(sorted, item.name, 0), item)
    }
}

fn canonicalize_providers(providers: &Vec<RpcConfig>) -> (r: Vec<ValidatedRpcConfig>)
    ensures
        rpc_views(r@) == rpc_by_name(providers@, providers@.len() as int),
{
    let mut sorted: Vec<ValidatedRpcConfig> = Vec::new();
    assert(rpc_views(sorted@) =~= Seq::empty());
    let mut i: usize = 0;
    while i < providers.len()
        invariant
            i <= providers.len(),
            rpc_views(sorted@) == rpc_by_name(providers@, i as int),
        decreases providers.len() - i,
    {
        let item = canonicalize_rpc(&providers[i]);
        let ghost held = rpc_views(sorted@);
        let ghost added = item@;
        let mut place: usize = 0;
        while place < sorted.len() && !text_before(item.name.as_str(), sorted[place].name.as_str())
            invariant
                place <= sorted.len(),
                held == rpc_views(sorted@),
                added == item@,
                name_place_from(held, added.name, 0) == name_place_from(
                    held,
                    added.name,
                    place as int,
                ),
            decreases sorted.len() - place,
        {
            place = place + 1;
        }
        sorted.insert(place, item);
        assert(rpc_views(sorted@) =~= held.insert(place as int, added));
        i = i + 1;
    }
    sorted
}

/// The canonical strategy policy.
pub open spec fn canonical_strategy(strategy: StrategyConfig) -> StrategyView {
    StrategyView {
        objective: strategy.objective,
        entry_spread_rate_per_second: rate_up(AprBps(strategy.entry_spread_apr_bps)),
        target_spread_rate_per_second: rate_down(AprBps(strategy.target_spread_apr_bps)),
        target_tolerance_rate_per_second: rate_down(AprBps(strategy.target_tolerance_apr_bps)),
        utilization_entry_spread_wad: utilization_wad(strategy.utilization_entry_spread_bps),
        utilization_target_spread_wad: utilization_wad(strategy.utilization_target_spread_bps),
        utilization_target_tolerance_wad: utilization_wad(
            strategy.utilization_target_tolerance_bps,
        ),
        utilization_minimum_improvement_wad: utilization_wad(
            strategy.utilization_minimum_improvement_bps,
        ),
        utilization_portfolio_spread_tolerance_wad: utilization_wad(
            strategy.utilization_portfolio_spread_tolerance_bps,
        ),
        minimum_portfolio_improvement_rate_per_second: rate_up(
            AprBps(strategy.minimum_portfolio_improvement_apr_bps),
        ),
        minimum_controllable_improvement_rate_per_second: rate_up(
            AprBps(strategy.minimum_controllable_improvement_apr_bps),
        ),
        portfolio_spread_tolerance_rate_per_second: rate_down(
            AprBps(strategy.portfolio_spread_tolerance_apr_bps),
        ),
        confirmation_opportunities: strategy.confirmation_opportunities,
        immediate_tranche_bps: strategy.immediate_tranche_bps,
        persistent_confirmation_duration_millis:
            strategy.persistent_confirmation_duration.millis() as u128,
        minimum_independent_rate_events: strategy.minimum_independent_rate_events,
        minimum_independent_event_span_millis:
            strategy.minimum_independent_event_span.millis() as u128,
        minimum_independent_event_rate_impact: rate_up(
            AprBps(strategy.minimum_independent_event_rate_impact_apr_bps),
        ),
        minimum_independent_event_utilization_impact_wad: utilization_wad(
            strategy.minimum_independent_event_utilization_impact_bps,
        ),
        maximum_rate_episode_duration_millis:
            strategy.maximum_rate_episode_duration.millis() as u128,
        extreme_spread_bypass_enabled: strategy.extreme_spread_bypass_enabled,
        benefit_horizon_seconds: strategy.benefit_horizon.secs,
        maximum_daily_transactions: strategy.maximum_daily_transactions,
        top_k_apy: canonical_policy(strategy.top_k_apy),
    }
}

fn exact_up(bps: u32) -> (r: RatePerSecond)
    ensures
        r == rate_up(AprBps(bps)),
{
    match apr_bps_to_rate_per_second_up(AprBps(bps)) {
        Ok(rate) => rate,
        Err(_) => RatePerSecond(U256::zero()),
    }
}

fn exact_down(bps: u32) -> (r: RatePerSecond)
    ensures
        r == rate_down(AprBps(bps)),
{
    match apr_bps_to_rate_per_second_down(AprBps(bps)) {
        Ok(rate) => rate,
        Err(_) => RatePerSecond(U256::zero()),
    }
}

fn exact_wad(bps: u32) -> (r: U256)
    ensures
        r == utilization_wad(bps),
{
    match utilization_bps_to_wad(bps) {
        Ok(value) => value,
        Err(_) => U256::zero(),
    }
}

fn canonicalize_strategy(strategy: &StrategyConfig) -> (r: Result<
    ValidatedStrategyConfig,
    ConfigError,
>)
    ensures
        settles(r, canonical_failure(strategy.top_k_apy), canonical_strategy(*strategy)),
{
    let top_k_apy = strategy.top_k_apy.canonical()?;
    Ok(
        ValidatedStrategyConfig {
            objective: strategy.objective,
            entry_spread_rate_per_second: exact_up(strategy.entry_spread_apr_bps),
            target_spread_rate_per_second: exact_down(strategy.target_spread_apr_bps),
            target_tolerance_rate_per_second: exact_down(strategy.target_tolerance_apr_bps),
            utilization_entry_spread_wad: exact_wad(strategy.utilization_entry_spread_bps),
            utilization_target_spread_wad: exact_wad(strategy.utilization_target_spread_bps),
            utilization_target_tolerance_wad: exact_wad(strategy.utilization_target_tolerance_bps),
            utilization_minimum_improvement_wad: exact_wad(
                strategy.utilization_minimum_improvement_bps,
            ),
            utilization_portfolio_spread_tolerance_wad: exact_wad(
                strategy.utilization_portfolio_spread_tolerance_bps,
            ),
            minimum_portfolio_improvement_rate_per_second: exact_up(
                strategy.minimum_portfolio_improvement_apr_bps,
            ),
            minimum_controllable_improvement_rate_per_second: exact_up(
                strategy.minimum_controllable_improvement_apr_bps,
            ),
            portfolio_spread_tolerance_rate_per_second: exact_down(
                strategy.portfolio_spread_tolerance_apr_bps,
            ),
            confirmation_opportunities: strategy.confirmation_opportunities,
            immediate_tranche_bps: strategy.immediate_tranche_bps,
            persistent_confirmation_duration_millis:
                strategy.persistent_confirmation_duration.as_millis(),
            minimum_independent_rate_events: strategy.minimum_independent_rate_events,
            minimum_independent_event_span_millis:
                strategy.minimum_independent_event_span.as_millis(),
            minimum_independent_event_rate_impact: exact_up(
                strategy.minimum_independent_event_rate_impact_apr_bps,
            ),
            minimum_independent_event_utilization_impact_wad: exact_wad(
                strategy.minimum_independent_event_utilization_impact_bps,
            ),
            maximum_rate_episode_duration_millis:
                strategy.maximum_rate_episode_duration.as_millis(),
            extreme_spread_bypass_enabled: strategy.extreme_spread_bypass_enabled,
            benefit_horizon_seconds: strategy.benefit_horizon.as_secs(),
            maximum_daily_transactions: strategy.maximum_daily_transactions,
            top_k_apy,
        },
    )
}

/// The canonical execution policy.
pub open spec fn canonical_execution(execution: ExecutionConfig) -> ValidatedExecutionConfig {
    execution_with(
        execution,
        amount_in(execution.maximum_fee_per_gas_wei@),
        amount_in(execution.maximum_daily_gas_spend_wei@),
    )
}

/// The canonical execution policy whose texts denote the given amounts.
pub open spec fn execution_with(
    execution: ExecutionConfig,
    maximum_fee_per_gas_wei: U256,
    maximum_daily_gas_spend_wei: U256,
) -> ValidatedExecutionConfig {
    ValidatedExecutionConfig {
        expected_inclusion_opportunities: execution.expected_inclusion_opportunities,
        maximum_inclusion_opportunities: execution.maximum_inclusion_opportunities,
        maximum_rate_rebalance_pending_opportunities:
            execution.maximum_rate_rebalance_pending_opportunities,
        maximum_capital_deployment_pending_opportunities:
            execution.maximum_capital_deployment_pending_opportunities,
        maximum_liquidity_maintenance_pending_opportunities:
            execution.maximum_liquidity_maintenance_pending_opportunities,
        identical_rebroadcast_after_opportunities:
            execution.identical_rebroadcast_after_opportunities,
        replacement_after_opportunities: execution.replacement_after_opportunities,
        cancel_when_opportunities_remaining: execution.cancel_when_opportunities_remaining,
        receipt_confirmation_evm_blocks: execution.receipt_confirmation_evm_blocks,
        maximum_actions: execution.maximum_actions,
        maximum_signed_transaction_gas: execution.maximum_signed_transaction_gas,
        gas_headroom_bps: execution.gas_headroom_bps,
        maximum_fee_per_gas_wei,
        maximum_daily_gas_spend_wei,
    }
}

fn canonicalize_execution(execution: &ExecutionConfig) -> (r: Result<
    ValidatedExecutionConfig,
    ConfigError,
>)
    requires
        super::text::is_amount(execution.maximum_fee_per_gas_wei@),
        super::text::is_amount(execution.maximum_daily_gas_spend_wei@),
    ensures
        r is Ok && r->Ok_0 == canonical_execution(*execution),
{
    let maximum_fee_per_gas_wei = parse_u256(
        "execution.maximum_fee_per_gas_wei",
        execution.maximum_fee_per_gas_wei.as_str(),
    )?;
    let maximum_daily_gas_spend_wei = parse_u256(
        "execution.maximum_daily_gas_spend_wei",
        execution.maximum_daily_gas_spend_wei.as_str(),
    )?;
    Ok(canonicalize_execution_with(execution, maximum_fee_per_gas_wei, maximum_daily_gas_spend_wei))
}

/// Converts an execution policy whose amounts are parsed into its canonical form.
pub fn canonicalize_execution_with(
    execution: &ExecutionConfig,
    maximum_fee_per_gas_wei: U256,
    maximum_daily_gas_spend_wei: U256,
) -> (r: ValidatedExecutionConfig)
    ensures
        r == execution_with(*execution, maximum_fee_per_gas_wei, maximum_daily_gas_spend_wei),
{
    ValidatedExecutionConfig {
        expected_inclusion_opportunities: execution.expected_inclusion_opportunities,
        maximum_inclusion_opportunities: execution.maximum_inclusion_opportunities,
        maximum_rate_rebalance_pending_opportunities:
            execution.maximum_rate_rebalance_pending_opportunities,
        maximum_capital_deployment_pending_opportunities:
            execution.maximum_capital_deployment_pending_opportunities,
        maximum_liquidity_maintenance_pending_opportunities:
            execution.maximum_liquidity_maintenance_pending_opportunities,
        identical_rebroadcast_after_opportunities:
            execution.identical_rebroadcast_after_opportunities,
        replacement_after_opportunities: execution.replacement_after_opportunities,
        cancel_when_opportunities_remaining: execution.cancel_when_opportunities_remaining,
        receipt_confirmation_evm_blocks: execution.receipt_confirmation_evm_blocks,
        maximum_actions: execution.maximum_actions,
        maximum_signed_transaction_gas: execution.maximum_signed_transaction_gas,
        gas_headroom_bps: execution.gas_headroom_bps,
        maximum_fee_per_gas_wei,
        maximum_daily_gas_spend_wei,
    }
}

/// The canonical snapshot policy.
pub open spec fn canonical_snapshot(snapshot: SnapshotConfig) -> ValidatedSnapshotConfig {
    ValidatedSnapshotConfig {
        mode: snapshot.mode,
        strict_signing_context: snapshot.strict_signing_context,
        maximum_background_snapshot_age_blocks: snapshot.maximum_background_snapshot_age_blocks,
        maximum_signing_snapshot_age_blocks: snapshot.maximum_signing_snapshot_age_blocks,
        maximum_snapshot_retries: snapshot.maximum_snapshot_retries,
        maximum_evm_timestamp_lag_seconds: snapshot.maximum_evm_timestamp_lag_seconds,
        maximum_snapshot_to_sign_latency_millis:
            snapshot.maximum_snapshot_to_sign_latency.millis() as u128,
        maximum_sign_to_broadcast_latency_millis:
            snapshot.maximum_sign_to_broadcast_latency.millis() as u128,
    }
}

fn canonicalize_snapshot(snapshot: &SnapshotConfig) -> (r: ValidatedSnapshotConfig)
    ensures
        r == canonical_snapshot(*snapshot),
{
    ValidatedSnapshotConfig {
        mode: snapshot.mode,
        strict_signing_context: snapshot.strict_signing_context,
        maximum_background_snapshot_age_blocks: snapshot.maximum_background_snapshot_age_blocks,
        maximum_signing_snapshot_age_blocks: snapshot.maximum_signing_snapshot_age_blocks,
        maximum_snapshot_retries: snapshot.maximum_snapshot_retries,
        maximum_evm_timestamp_lag_seconds: snapshot.maximum_evm_timestamp_lag_seconds,
        maximum_snapshot_to_sign_latency_millis:
            snapshot.maximum_snapshot_to_sign_latency.as_millis(),
        maximum_sign_to_broadcast_latency_millis:
            snapshot.maximum_sign_to_broadcast_latency.as_millis(),
    }
}

/// The canonical solver policy.
pub open spec fn canonical_solver(solver: SolverConfig) -> SolverConfigCanonical {
    SolverConfigCanonical {
        maximum_nodes: solver.maximum_nodes,
        maximum_amount_candidates_per_position: solver.maximum_amount_candidates_per_position,
        maximum_source_sets: solver.maximum_source_sets,
        maximum_destination_sets: solver.maximum_destination_sets,
        allow_incomplete_rate_solver: solver.allow_incomplete_rate_solver,
    }
}

fn canonicalize_solver(solver: &SolverConfig) -> (r: SolverConfigCanonical)
    ensures
        r == canonical_solver(*solver),
{
    SolverConfigCanonical {
        maximum_nodes: solver.maximum_nodes,
        maximum_amount_candidates_per_position: solver.maximum_amount_candidates_per_position,
        maximum_source_sets: solver.maximum_source_sets,
        maximum_destination_sets: solver.maximum_destination_sets,
        allow_incomplete_rate_solver: solver.allow_incomplete_rate_solver,
    }
}

/// The canonical process settings.
pub open spec fn canonical_node(node: NodeConfig) -> NodeView {
    NodeView {
        instance_id: node.instance_id@,
        mode: node.mode,
        data_dir: node.data_dir@,
        full_reconciliation_interval_millis: node.full_reconciliation_interval.millis() as u128,
        topology_reconciliation_interval_millis:
            node.topology_reconciliation_interval.millis() as u128,
    }
}

/// Number of leading vaults from index `from` on whose address orders before `address`.
pub open spec fn vault_place_from(
    sorted: Seq<VaultView>,
    address: VaultAddress,
    from: int,
) -> int
    decreases sorted.len() - from,
{
    if from >= sorted.len() || sorted[from].address.rank() >= address.rank() {
        from
    } else {
        vault_place_from(sorted, address, from + 1)
    }
}

/// Vaults in address order with one more.
pub open spec fn with_vault(sorted: Seq<VaultView>, vault: VaultView) -> Seq<VaultView> {
    sorted.insert(vault_place_from(sorted, vault.address, 0), vault)
}

/// Vaults validated so far: in address order, their addresses, and the signer of the last.
pub ghost struct VaultProgress {
    /// Canonical vaults.
    pub vaults: Seq<VaultView>,
    /// Their addresses.
    pub addresses: Seq<VaultAddress>,
    /// Signer of the last one.
    pub signer: Option<Address>,
}

impl VaultProgress {
    /// Nothing validated yet.
    pub open spec fn begun() -> VaultProgress {
        VaultProgress { vaults: Seq::empty(), addresses: Seq::empty(), signer: None }
    }
}

/// The vaults from index `from` on, added to progress, or the first rule that one breaks.
pub open spec fn vaults_from(
    vaults: Seq<VaultConfig>,
    required_validity: u64,
    from: int,
    done: VaultProgress,
) -> Result<VaultProgress, ConfigFailure>
    decreases vaults.len() - from,
{
    if from >= vaults.len() {
        Ok(done)
    } else {
        let canonical = canonical_vault(vaults[from]);
        match vault_failure(vaults[from], required_validity) {
            Some(failure) => Err(failure),
            None => if has_key(done.addresses, canonical.address) {
                Err(invalid("vault.address", "vault address is duplicated"))
            } else if done.signer is Some && done.signer != Some(canonical.signer_address) {
                Err(
                    invalid(
                        "vault.signer_address",
                        "all managed vaults must share one allocator signer",
                    ),
                )
            } else {
                vaults_from(
                    vaults,
                    required_validity,
                    from + 1,
                    VaultProgress {
                        vaults: with_vault(done.vaults, canonical),
                        addresses: with_key(done.addresses, canonical.address),
                        signer: Some(canonical.signer_address),
                    },
                )
            },
        }
    }
}

fn insert_vault(vaults: &mut Vec<ValidatedVaultConfig>, vault: ValidatedVaultConfig)
    ensures
        vault_views(final(vaults)@) == with_vault(vault_views(old(vaults)@), vault@),
{
    let ghost held = vault_views(vaults@);
    let ghost added = vault@;
    let mut place: usize = 0;
    while place < vaults.len() && vaults[place].address.before(vault.address)
        invariant
            place <= vaults.len(),
            held == vault_views(vaults@),
            *vaults == *old(vaults),
            added == vault@,
            vault_place_from(held, added.address, 0) == vault_place_from(
                held,
                added.address,
                place as int,
            ),
        decreases vaults.len() - place,
    {
        place = place + 1;
    }
    vaults.insert(place, vault);
    assert(vault_views(vaults@) =~= held.insert(place as int, added));
}

fn validate_vaults(vaults: &Vec<VaultConfig>, required_validity: u64) -> (r: Result<
    Vec<ValidatedVaultConfig>,
    ConfigError,
>)
    ensures
        match vaults_from(vaults@, required_validity, 0, VaultProgress::begun()) {
            Ok(done) => r is Ok && vault_views(r->Ok_0@) == done.vaults,
            Err(failure) => r is Err && r->Err_0@ == failure,
        },
{
    let mut addresses: OrderedSet<VaultAddress> = OrderedSet::new();
    let mut shared_signer: Option<Address> = None;
    let mut validated: Vec<ValidatedVaultConfig> = Vec::new();
    assert(vault_views(validated@) =~= Seq::empty());
    let ghost goal = vaults_from(vaults@, required_validity, 0, VaultProgress::begun());
    let mut i: usize = 0;
    while i < vaults.len()
        invariant
            i <= vaults.len(),
            goal == vaults_from(vaults@, required_validity, 0, VaultProgress::begun()),
            goal == vaults_from(
                vaults@,
                required_validity,
                i as int,
                VaultProgress {
                    vaults: vault_views(validated@),
                    addresses: addresses@,
                    signer: shared_signer,
                },
            ),
        decreases vaults.len() - i,
    {
        let vault = validate_vault(&vaults[i], required_validity)?;
        if !addresses.insert(vault.address) {
            return Err(validation("vault.address", "vault address is duplicated"));
        }
        let differs = match shared_signer {
            Some(signer) => signer != vault.signer_address,
            None => false,
        };
        if differs {
            return Err(
                validation(
                    "vault.signer_address",
                    "all managed vaults must share one allocator signer",
                ),
            );
        }
        shared_signer = Some(vault.signer_address);
        insert_vault(&mut validated, vault);
        i = i + 1;
    }
    Ok(validated)
}

/// The first rule that a configuration breaks at a time, given how many blocks durable storage
/// retains.
pub open spec fn app_failure(config: AppConfig, now: u64, durable_reorg_blocks: u64) -> Option<
    ConfigFailure,
> {
    let code = code_hash_failure(
        "chain.expected_multicall3_code_hash",
        config.chain.expected_multicall3_code_hash@,
    );
    let required = now + config.strategy.benefit_horizon.secs;
    if top_level_failure(config, durable_reorg_blocks) is Some {
        top_level_failure(config, durable_reorg_blocks)
    } else if !is_address(config.chain.morpho_blue@) {
        Some(not_an_address("chain.morpho_blue"))
    } else if !is_address(config.chain.multicall3@) {
        Some(not_an_address("chain.multicall3"))
    } else if code is Some {
        code
    } else if canonical_failure(config.strategy.top_k_apy) is Some {
        canonical_failure(config.strategy.top_k_apy)
    } else if required > u64::MAX {
        Some(ConfigFailure::Arithmetic(ArithmeticError::Overflow))
    } else {
        match vaults_from(config.vault@, required as u64, 0, VaultProgress::begun()) {
            Ok(_) => None,
            Err(failure) => Some(failure),
        }
    }
}

/// The canonical form of a configuration.
pub open spec fn canonical_app(config: AppConfig, now: u64) -> AppView {
    AppView {
        schema_version: config.schema_version,
        node: canonical_node(config.node),
        chain: ChainView {
            name: config.chain.name@,
            chain_id: config.chain.chain_id,
            morpho_blue: address_in(config.chain.morpho_blue@),
            multicall3: address_in(config.chain.multicall3@),
            expected_multicall3_code_hash: hash_in(config.chain.expected_multicall3_code_hash@),
            event_start_block: config.chain.event_start_block,
            maximum_log_range: config.chain.maximum_log_range,
            reorg_rescan_blocks: config.chain.reorg_rescan_blocks,
            block_opportunity_policy: config.chain.block_opportunity_policy,
            rpc: rpc_by_name(config.chain.rpc@, config.chain.rpc@.len() as int),
        },
        snapshot: canonical_snapshot(config.snapshot),
        execution: canonical_execution(config.execution),
        solver: canonical_solver(config.solver),
        strategy: canonical_strategy(config.strategy),
        signing: config.signing@,
        alerts: AlertView {
            telegram: config.alerts.telegram@,
            pagerduty: config.alerts.pagerduty@,
        },
        vaults: vaults_from(
            config.vault@,
            (now + config.strategy.benefit_horizon.secs) as u64,
            0,
            VaultProgress::begun(),
        )->Ok_0.vaults,
    }
}

/// Seconds since the Unix epoch of a signed timestamp, which may not precede it.
pub open spec fn unix_time(timestamp: i64) -> Result<u64, ConfigFailure> {
    if timestamp < 0 {
        Err(invalid("system_time", "timestamp precedes Unix epoch"))
    } else {
        Ok(timestamp as u64)
    }
}

/// Reads a signed timestamp as seconds since the Unix epoch.
pub fn unix_timestamp(timestamp: i64) -> (r: Result<u64, ConfigError>)
    ensures
        super::text::reported(r) == unix_time(timestamp),
{
    if timestamp < 0 {
        Err(validation("system_time", "timestamp precedes Unix epoch"))
    } else {
        Ok(timestamp as u64)
    }
}

/// `time::OffsetDateTime::now_utc().unix_timestamp()`: the machine's clock in signed seconds. No
/// value is promised.
#[verifier::external_body]
fn clock_timestamp() -> (r: i64) {
    time::OffsetDateTime::now_utc().unix_timestamp()
}

/// Outcome of validation at a signed timestamp.
pub open spec fn validated_at_clock(
    r: Result<ValidatedAppConfig, ConfigError>,
    config: AppConfig,
    timestamp: i64,
    durable_reorg_blocks: u64,
) -> bool {
    match unix_time(timestamp) {
        Ok(now) => settles(
            r,
            app_failure(config, now, durable_reorg_blocks),
            canonical_app(config, now),
        ),
        Err(failure) => r is Err && r->Err_0@ == failure,
    }
}

impl AppConfig {
    /// Parses every address and amount, validates frozen invariants and sorts unordered inputs,
    /// at the time of the machine's clock. The outcome is that of some clock reading.
    pub fn validate(self, durable_reorg_blocks: u64) -> (r: Result<
        ValidatedAppConfig,
        ConfigError,
    >)
        ensures
            exists|timestamp: i64|
                #[trigger] validated_at_clock(r, self, timestamp, durable_reorg_blocks),
    {
        let timestamp: i64 = clock_timestamp();
        let r = match unix_timestamp(timestamp) {
            Ok(now) => self.validate_at(now, durable_reorg_blocks),
            Err(error) => Err(error),
        };
        assert(validated_at_clock(r, self, timestamp, durable_reorg_blocks));
        r
    }

    /// Performs deterministic validation against an explicitly supplied wall-clock timestamp.
    pub fn validate_at(self, now: u64, durable_reorg_blocks: u64) -> (r: Result<
        ValidatedAppConfig,
        ConfigError,
    >)
        ensures
            settles(
                r,
                app_failure(self, now, durable_reorg_blocks),
                canonical_app(self, now),
            ),
    {
        validate_top_level(&self, durable_reorg_blocks)?;
        let morpho_blue = parse_address("chain.morpho_blue", self.chain.morpho_blue.as_str())?;
        let multicall3 = parse_address("chain.multicall3", self.chain.multicall3.as_str())?;
        let expected_multicall3_code_hash = parse_nonzero_hash(
            "chain.expected_multicall3_code_hash",
            self.chain.expected_multicall3_code_hash.as_str(),
        )?;
        let execution = canonicalize_execution(&self.execution)?;
        let strategy = canonicalize_strategy(&self.strategy)?;
        let required_reward_validity = match now.checked_add(
            self.strategy.benefit_horizon.as_secs(),
        ) {
            Some(value) => value,
            None => return Err(ConfigError::Arithmetic(ArithmeticError::Overflow)),
        };
        let vaults = validate_vaults(&self.vault, required_reward_validity)?;
        let chain = ValidatedChainConfig {
            name: self.chain.name.clone(),
            chain_id: self.chain.chain_id,
            morpho_blue,
            multicall3,
            expected_multicall3_code_hash,
            event_start_block: self.chain.event_start_block,
            maximum_log_range: self.chain.maximum_log_range,
            reorg_rescan_blocks: self.chain.reorg_rescan_blocks,
            block_opportunity_policy: self.chain.block_opportunity_policy,
            rpc: canonicalize_providers(&self.chain.rpc),
        };
        let node = ValidatedNodeConfig {
            instance_id: self.node.instance_id,
            mode: self.node.mode,
            data_dir: self.node.data_dir,
            full_reconciliation_interval_millis: self.node.full_reconciliation_interval.as_millis(),
            topology_reconciliation_interval_millis:
                self.node.topology_reconciliation_interval.as_millis(),
        };
        Ok(
            ValidatedAppConfig {
                schema_version: self.schema_version,
                node,
                chain,
                snapshot: canonicalize_snapshot(&self.snapshot),
                execution,
                solver: canonicalize_solver(&self.solver),
                strategy,
                signing: self.signing,
                alerts: ValidatedAlertConfig {
                    telegram: self.alerts.telegram,
                    pagerduty: self.alerts.pagerduty,
                },
                vaults,
            },
        )
    }
}

impl ValidatedConfig {
    /// Binds a canonical configuration to the Keccak-256 of its canonical serialization.
    pub fn seal(app: ValidatedAppConfig, canonical: &[u8]) -> (r: ValidatedConfig)
        ensures
            r.app == app,
            r.revision == b256(keccak256_digest(canonical@)),
    {
        broadcast use group_b256;

        ValidatedConfig { app, revision: keccak256(canonical) }
    }
}

/// Returns Keccak-256 of canonical sorted validated JSON, excluding secret values and URLs.
pub fn config_revision(config: &ValidatedConfig) -> (r: B256)
    ensures
        r == config.revision,
{
    config.revision
}

/// Whether vaults are in strictly increasing address order.
pub open spec fn vaults_ordered(vaults: Seq<VaultView>) -> bool {
    forall|i: int, j: int|
        0 <= i < j < vaults.len() ==> (#[trigger] vaults[i]).address.rank() < (
        #[trigger] vaults[j]).address.rank()
}

/// Whether vaults are in order under known addresses and share a signer.
spec fn progress_sound(done: VaultProgress) -> bool {
    &&& vaults_ordered(done.vaults)
    &&& strictly_increasing(done.addresses)
    &&& forall|i: int|
        0 <= i < done.vaults.len() ==> done.addresses.contains(
            (#[trigger] done.vaults[i]).address,
        )
    &&& forall|i: int|
        0 <= i < done.vaults.len() ==> done.signer == Some(
            (#[trigger] done.vaults[i]).signer_address,
        )
}

proof fn lemma_vault_place(sorted: Seq<VaultView>, address: VaultAddress, from: int)
    requires
        0 <= from <= sorted.len(),
    ensures
        from <= vault_place_from(sorted, address, from) <= sorted.len(),
        forall|i: int|
            from <= i < vault_place_from(sorted, address, from) ==> (
            #[trigger] sorted[i]).address.rank() < address.rank(),
        vault_place_from(sorted, address, from) < sorted.len() ==> sorted[vault_place_from(
            sorted,
            address,
            from,
        )].address.rank() >= address.rank(),
    decreases sorted.len() - from,
{
    if from < sorted.len() && sorted[from].address.rank() < address.rank() {
        lemma_vault_place(sorted, address, from + 1);
    }
}

/// Progress after one more vault.
spec fn vault_added(done: VaultProgress, added: VaultView) -> VaultProgress {
    VaultProgress {
        vaults: with_vault(done.vaults, added),
        addresses: with_key(done.addresses, added.address),
        signer: Some(added.signer_address),
    }
}

proof fn lemma_vault_added(done: VaultProgress, added: VaultView)
    requires
        progress_sound(done),
        !has_key(done.addresses, added.address),
        done.signer is None || done.signer == Some(added.signer_address),
    ensures
        progress_sound(vault_added(done, added)),
        vault_added(done, added).vaults.len() == done.vaults.len() + 1,
{
    let next = vault_added(done, added);
    let place = vault_place_from(done.vaults, added.address, 0);
    lemma_vault_place(done.vaults, added.address, 0);
    has_key_is_membership(done.addresses, added.address);
    with_key_is_insertion(done.addresses, added.address);
    assert forall|i: int| 0 <= i < done.vaults.len() implies (
    #[trigger] done.vaults[i]).address.rank() != added.address.rank() by {
        if done.vaults[i].address.rank() == added.address.rank() {
            OrderedKey::rank_injective(done.vaults[i].address, added.address);
        }
    }
    assert forall|i: int, j: int| 0 <= i < j < next.vaults.len() implies (
    #[trigger] next.vaults[i]).address.rank() < (#[trigger] next.vaults[j]).address.rank() by {
        if place < done.vaults.len() {
            assert(done.vaults[place].address.rank() > added.address.rank());
        }
        if j > place && i < place {
            assert(done.vaults[i].address.rank() < added.address.rank());
        }
        if i == place {
            assert(next.vaults[j] == done.vaults[j - 1]);
            if j - 1 > place {
                assert(done.vaults[place].address.rank() < done.vaults[j - 1].address.rank());
            }
        }
    }
    assert forall|i: int| 0 <= i < next.vaults.len() implies next.addresses.contains(
        (#[trigger] next.vaults[i]).address,
    ) by {
        let wanted = next.vaults[i].address;
        if i < place {
            assert(done.addresses.contains(done.vaults[i].address));
        } else if i > place {
            assert(done.addresses.contains(done.vaults[i - 1].address));
        }
        assert(next.addresses.to_set().contains(wanted));
    }
    assert forall|i: int| 0 <= i < next.vaults.len() implies next.signer == Some(
        (#[trigger] next.vaults[i]).signer_address,
    ) by {
        if i < place {
            assert(done.signer == Some(done.vaults[i].signer_address));
        } else if i > place {
            assert(done.signer == Some(done.vaults[i - 1].signer_address));
        }
    }
}

proof fn lemma_vaults_from(
    vaults: Seq<VaultConfig>,
    required_validity: u64,
    from: int,
    done: VaultProgress,
)
    requires
        0 <= from <= vaults.len(),
        progress_sound(done),
        vaults_from(vaults, required_validity, from, done) is Ok,
    ensures
        progress_sound(vaults_from(vaults, required_validity, from, done)->Ok_0),
        vaults_from(vaults, required_validity, from, done)->Ok_0.vaults.len() == done.vaults.len()
            + vaults.len() - from,
    decreases vaults.len() - from,
{
    if from < vaults.len() {
        let added = canonical_vault(vaults[from]);
        lemma_vault_added(done, added);
        lemma_vaults_from(vaults, required_validity, from + 1, vault_added(done, added));
    }
}

/// An accepted configuration manages every configured vault once, in address order, under one
/// shared signer.
pub proof fn accepted_vaults_are_distinct_and_share_a_signer(
    config: AppConfig,
    now: u64,
    durable_reorg_blocks: u64,
)
    requires
        app_failure(config, now, durable_reorg_blocks) is None,
    ensures
        ({
            let vaults = canonical_app(config, now).vaults;
            &&& vaults.len() == config.vault@.len()
            &&& vaults.len() > 0
            &&& vaults_ordered(vaults)
            &&& forall|i: int, j: int|
                0 <= i < vaults.len() && 0 <= j < vaults.len() ==> (
                #[trigger] vaults[i]).signer_address == (#[trigger] vaults[j]).signer_address
        }),
{
    let required = (now + config.strategy.benefit_horizon.secs) as u64;
    lemma_vaults_from(config.vault@, required, 0, VaultProgress::begun());
}

} // verus!
