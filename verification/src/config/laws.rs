//! What an accepted configuration promises, stated on its own numbers.

use vstd::prelude::*;

use crate::collections::{
    has_key, has_key_is_membership, strictly_increasing, with_key, with_key_is_insertion,
};
use crate::config::{RpcRole, RuntimeMode};
use crate::config::policy::{
    execution_failure, is_primary, primary_index, sole_primary, strategy_failure, top_k_enabled,
    top_level_failure,
};
use crate::config::raw::{
    AppConfig, PositionConfig, RpcConfig, SigningConfig, StrategyConfig, VaultConfig,
};
use crate::config::text::{address_in, addresses_in, amount_in, blank, hash_in, is_amount};
use crate::config::top_k::{top_k_failure, weight_sum, TopKApyConfig};
use crate::config::units::{rate_down, rate_up};
use crate::config::validate::{
    app_failure, canonical_strategy, vaults_from, with_vault, VaultProgress,
};
use crate::config::vault::{
    active_in, canonical_vault, is_direct_adapter, params_in, position_context, position_failure,
    positions_failure_from, vault_adapters, vault_failure, vault_positions, PositionContext,
};
use crate::domain::{market_id_of, AdapterAddress, AprBps, MarketId, RewardPolicy, VaultAddress};
use crate::primitives::group_u256;

verus! {

/// Strategy thresholds are accepted exactly where the entry spread exceeds target plus tolerance in
/// both domains, utilization thresholds are shares, improvements, tranche, confirmations, events and
/// transactions are positive, at least two independent events are asked for, and an episode outlasts
/// its persistent confirmation.
pub proof fn accepted_strategies_leave_a_hysteresis(config: AppConfig)
    ensures
        strategy_failure(config) is None <==> {
            let s = config.strategy;
            &&& s.entry_spread_apr_bps > s.target_spread_apr_bps + s.target_tolerance_apr_bps
            &&& s.target_spread_apr_bps + s.target_tolerance_apr_bps <= 0xffff_ffff
            &&& s.utilization_entry_spread_bps > s.utilization_target_spread_bps
                + s.utilization_target_tolerance_bps
            &&& s.utilization_entry_spread_bps <= 10_000
            &&& s.minimum_portfolio_improvement_apr_bps > 0
            &&& s.minimum_controllable_improvement_apr_bps > 0
            &&& 0 < s.utilization_minimum_improvement_bps <= 10_000
            &&& s.utilization_portfolio_spread_tolerance_bps <= 10_000
            &&& 0 < s.immediate_tranche_bps <= 10_000
            &&& s.confirmation_opportunities > 0
            &&& s.persistent_confirmation_duration.secs > 0
                || s.persistent_confirmation_duration.nanos > 0
            &&& s.minimum_independent_rate_events >= 2
            &&& s.minimum_independent_event_span.secs > 0 || s.minimum_independent_event_span.nanos
                > 0
            &&& s.minimum_independent_event_rate_impact_apr_bps > 0
            &&& 0 < s.minimum_independent_event_utilization_impact_bps <= 10_000
            &&& s.maximum_rate_episode_duration.secs > s.persistent_confirmation_duration.secs || (
            s.maximum_rate_episode_duration.secs == s.persistent_confirmation_duration.secs
                && s.maximum_rate_episode_duration.nanos
                > s.persistent_confirmation_duration.nanos)
            &&& s.maximum_daily_transactions > 0
        },
{
}

/// Execution limits are accepted exactly where gas and fee leave room, pending horizons nest, an
/// identical rebroadcast comes no later than a replacement, and a fast block holds more gas than one
/// transaction may use.
pub proof fn accepted_execution_limits_nest(config: AppConfig)
    ensures
        execution_failure(config) is None <==> {
            let e = config.execution;
            let policy = config.chain.block_opportunity_policy;
            &&& e.maximum_signed_transaction_gas > 0
            &&& policy is HyperEvmFastBlocks ==> e.maximum_signed_transaction_gas
                < policy->gas_limit
            &&& is_amount(e.maximum_fee_per_gas_wei@)
            &&& amount_in(e.maximum_fee_per_gas_wei@)@ > 1
            &&& is_amount(e.maximum_daily_gas_spend_wei@)
            &&& amount_in(e.maximum_daily_gas_spend_wei@)@ > 0
            &&& e.maximum_rate_rebalance_pending_opportunities <= e.maximum_inclusion_opportunities
            &&& 0 < e.identical_rebroadcast_after_opportunities
                <= e.replacement_after_opportunities
        },
{
}

/// A top-K policy is accepted exactly where its margins nest, its shares are shares, its weights fall
/// and sum to the whole with room for the boost, its scores nest, and an executing deployment has a
/// price ceiling.
pub proof fn accepted_top_k_policies_nest(
    config: TopKApyConfig,
    mode: RuntimeMode,
    strategy_is_enabled: bool,
)
    ensures
        top_k_failure(config, mode, strategy_is_enabled) is None <==> {
            let three = config.three_market_weights_bps@;
            let four = config.four_market_weights_bps@;
            let boost = config.top_market_boost_weight_bps;
            let entry = amount_in(config.entry_score_wad@)@;
            &&& 0 < config.enter_apy_bps <= config.exit_apy_bps <= 10_000
            &&& 0 < config.replacement_apy_bps <= config.exit_apy_bps
            &&& config.fourth_market_max_gap_apy_bps <= 10_000
            &&& 0 < config.top_market_boost_threshold_apy_bps <= 10_000
            &&& 0 < boost <= 7_000
            &&& 0 < config.upside_ema_alpha_bps <= 10_000
            &&& 0 < config.probe_allocation_bps <= 10_000
            &&& config.membership_confirmation.secs > 0 || config.membership_confirmation.nanos > 0
            &&& config.tick_interval.secs == 300
            &&& three.len() == 3 && four.len() == 4
            &&& weight_sum(three, 3) == 10_000
            &&& weight_sum(four, 4) == 10_000
            &&& forall|i: int, j: int| 0 <= i <= j < 3 ==> three[i] >= three[j]
            &&& forall|i: int, j: int| 0 <= i <= j < 4 ==> four[i] >= four[j]
            &&& forall|i: int| 0 <= i < 3 ==> three[i] <= 7_000
            &&& forall|i: int| 0 <= i < 4 ==> four[i] <= 7_000
            &&& boost > three[0] && boost > four[0]
            &&& is_amount(config.entry_score_wad@)
            &&& is_amount(config.target_score_wad@)
            &&& is_amount(config.minimum_improvement_score_wad@)
            &&& amount_in(config.target_score_wad@)@ < entry
            &&& entry <= 1_000_000_000_000_000_000
            &&& 0 < amount_in(config.minimum_improvement_score_wad@)@ <= entry
            &&& config.gas_cost_multiplier > 0
            &&& mode == RuntimeMode::Execute && strategy_is_enabled ==> is_amount(
                config.native_token_price_ceiling_asset_wad@,
            ) && amount_in(config.native_token_price_ceiling_asset_wad@)@ > 0
        },
{
}

/// Weights sum to their plain sum.
pub proof fn weights_sum_their_entries(three: Seq<u32>, four: Seq<u32>)
    requires
        three.len() == 3,
        four.len() == 4,
    ensures
        weight_sum(three, 3) == three[0] + three[1] + three[2],
        weight_sum(four, 4) == four[0] + four[1] + four[2] + four[3],
{
    reveal_with_fuel(weight_sum, 5);
}

/// Whether the provider owns every role of the live runtime.
pub open spec fn owns_live_roles(provider: RpcConfig) -> bool {
    let roles = provider.roles@;
    &&& provider.production_grade
    &&& roles.contains(RpcRole::Head)
    &&& roles.contains(RpcRole::Logs)
    &&& roles.contains(RpcRole::Read)
    &&& roles.contains(RpcRole::Simulate)
    &&& roles.contains(RpcRole::Submit)
    &&& roles.contains(RpcRole::Receipt)
}

/// An accepted top level has the supported schema, vaults and providers, one provider that alone owns
/// every live role and another that checkpoints it, positive search and retry bounds, and a rescan
/// within durable retention. Executing with a local key needs the exact chain named, and executing at
/// all forbids the extreme bypass and incomplete rate searches.
pub proof fn accepted_top_levels_are_bounded(config: AppConfig, durable_reorg_blocks: u64) -> (
    primary: int)
    requires
        top_level_failure(config, durable_reorg_blocks) is None,
    ensures
        ({
            let rpc = config.chain.rpc@;
            let executes = config.node.mode == RuntimeMode::Execute;
            &&& config.schema_version == 6
            &&& config.vault@.len() > 0
            &&& 0 <= primary < rpc.len()
            &&& forall|i: int|
                0 <= i < rpc.len() ==> (owns_live_roles(#[trigger] rpc[i]) <==> i == primary)
            &&& exists|i: int|
                0 <= i < rpc.len() && (#[trigger] rpc[i]).name@ != rpc[primary].name@
                    && rpc[i].roles@.contains(RpcRole::Checkpoint) && rpc[i].roles@.contains(
                    RpcRole::Read,
                ) && rpc[i].roles@.contains(RpcRole::Receipt)
            &&& forall|i: int|
                0 <= i < rpc.len() ==> !blank((#[trigger] rpc[i]).name@) && !blank(
                    rpc[i].url_env@,
                ) && (rpc[i].supports_websocket <==> rpc[i].websocket_url_env is Some && !blank(
                    rpc[i].websocket_url_env->Some_0@,
                ))
            &&& config.chain.maximum_log_range > 0
            &&& 0 < config.chain.reorg_rescan_blocks <= durable_reorg_blocks
            &&& config.snapshot.maximum_snapshot_retries > 0
            &&& config.snapshot.maximum_evm_timestamp_lag_seconds <= 60
            &&& config.solver.maximum_nodes > 0
            &&& config.solver.maximum_amount_candidates_per_position > 0
            &&& config.solver.maximum_source_sets > 0
            &&& config.solver.maximum_destination_sets > 0
            &&& executes ==> !config.strategy.extreme_spread_bypass_enabled
                && !config.solver.allow_incomplete_rate_solver
            &&& executes ==> match config.signing {
                SigningConfig::LocalDevelopment { execute_chain_id, .. } => execute_chain_id
                    == Some(config.chain.chain_id),
                SigningConfig::RemoteSigner { .. } => true,
            }
            &&& strategy_failure(config) is None
            &&& execution_failure(config) is None
            &&& top_k_failure(
                config.strategy.top_k_apy,
                config.node.mode,
                top_k_enabled(config),
            ) is None
        }),
{
    let rpc = config.chain.rpc@;
    let primary = primary_index(rpc);
    assert(sole_primary(rpc, primary));
    assert forall|i: int| 0 <= i < rpc.len() implies (owns_live_roles(#[trigger] rpc[i]) <==> i
        == primary) by {
        assert(is_primary(rpc[i]) <==> i == primary);
    }
    primary
}

/// Whether reward evidence is identified and, where it can expire, covers the timestamp.
pub open spec fn rewards_evidenced(policy: RewardPolicy, through: u64) -> bool {
    match policy {
        RewardPolicy::NoMaterialRewards { valid_until_timestamp, evidence_hash, .. } => {
            evidence_hash@ != 0 && valid_until_timestamp >= through
        },
        RewardPolicy::Modeled { model_revision, valid_until_timestamp } => {
            model_revision@ != 0 && valid_until_timestamp >= through
        },
        RewardPolicy::IgnoreRewardsByCuratorMandate { policy_revision } => policy_revision@ != 0,
        RewardPolicy::FixedUntilModeled => true,
    }
}

proof fn lemma_positions(
    positions: Seq<PositionConfig>,
    context: PositionContext,
    from: int,
)
    requires
        0 <= from <= positions.len(),
        positions_failure_from(positions, context, from) is None,
    ensures
        forall|i: int|
            from <= i < positions.len() ==> position_failure(
                #[trigger] positions[i],
                context,
            ) is None,
    decreases positions.len() - from,
{
    if from < positions.len() {
        lemma_positions(positions, context, from + 1);
    }
}

/// Every position of an accepted vault names a configured direct adapter and the vault's rate group,
/// lends the vault's asset in exactly the market it derives, has evidence for its rewards through the
/// benefit horizon, and keeps its thresholds in order.
pub proof fn accepted_positions_keep_their_limits(vault: VaultConfig, required_validity: u64)
    requires
        vault_failure(vault, required_validity) is None,
    ensures
        forall|i: int|
            0 <= i < vault.position@.len() ==> {
                let position = #[trigger] vault.position@[i];
                let params = params_in(position);
                &&& is_direct_adapter(
                    vault_adapters(vault),
                    AdapterAddress(address_in(position.adapter@)),
                )
                &&& position.rate_group@ == vault.rate_group@[0].name@
                &&& params.loan_token == address_in(vault.asset@)
                &&& MarketId(hash_in(position.market_id@)) == market_id_of(params)
                &&& rewards_evidenced(position.reward_policy, required_validity)
                &&& amount_in(position.minimum_relevance_entry_assets@)@ > amount_in(
                    position.minimum_relevance_exit_assets@,
                )@
                &&& amount_in(position.minimum_position_assets@)@ <= amount_in(
                    position.maximum_position_assets@,
                )@
                &&& is_amount(position.maximum_action_assets@)
                &&& is_amount(position.maximum_source_utilization_wad@)
            },
{
    lemma_positions(
        vault.position@,
        position_context(vault, required_validity),
        0,
    );
    assert forall|i: int| 0 <= i < vault.position@.len() implies ({
        let position = #[trigger] vault.position@[i];
        let params = params_in(position);
        &&& is_direct_adapter(
            vault_adapters(vault),
            AdapterAddress(address_in(position.adapter@)),
        )
        &&& position.rate_group@ == vault.rate_group@[0].name@
        &&& params.loan_token == address_in(vault.asset@)
        &&& MarketId(hash_in(position.market_id@)) == market_id_of(params)
        &&& rewards_evidenced(position.reward_policy, required_validity)
        &&& amount_in(position.minimum_relevance_entry_assets@)@ > amount_in(
            position.minimum_relevance_exit_assets@,
        )@
        &&& amount_in(position.minimum_position_assets@)@ <= amount_in(
            position.maximum_position_assets@,
        )@
        &&& is_amount(position.maximum_action_assets@)
        &&& is_amount(position.maximum_source_utilization_wad@)
    }) by {
        assert(position_failure(
            vault.position@[i],
            position_context(vault, required_validity),
        ) is None);
    }
}

/// An accepted vault moves a positive minimum within its hourly and daily limits, searches deposits
/// beyond its minimum headroom, has its signer among the approved allocators, exactly one rate group
/// with ordered assets and no movement out of it, and a liquidity-only adapter, if any, that is no
/// direct adapter and may act.
pub proof fn accepted_vaults_keep_their_limits(vault: VaultConfig, required_validity: u64)
    requires
        vault_failure(vault, required_validity) is None,
    ensures
        ({
            let action = amount_in(vault.minimum_action_assets@)@;
            let hourly = amount_in(vault.maximum_movement_per_hour_assets@)@;
            let daily = amount_in(vault.maximum_movement_per_day_assets@)@;
            let group = vault.rate_group@[0];
            &&& 0 < action <= hourly <= daily
            &&& amount_in(vault.minimum_independent_event_assets@)@ > 0
            &&& amount_in(vault.deposit_headroom_search_upper_bound_assets@)@ > 0
            &&& amount_in(vault.minimum_deposit_headroom_assets@)@ <= amount_in(
                vault.deposit_headroom_search_upper_bound_assets@,
            )@
            &&& addresses_in(vault.approved_allocators@).contains(
                address_in(vault.signer_address@),
            )
            &&& vault.asset_decimals > 0
            &&& vault.rate_group@.len() == 1
            &&& amount_in(group.minimum_assets@)@ <= amount_in(group.target_assets@)@
            &&& amount_in(group.target_assets@)@ <= amount_in(group.maximum_assets@)@
            &&& !group.allow_cross_group_movement
            &&& vault.liquidity_adapter is Some ==> {
                let adapter = vault.liquidity_adapter->Some_0;
                &&& amount_in(adapter.maximum_action_assets@)@ > 0
                &&& !is_direct_adapter(
                    vault_adapters(vault),
                    AdapterAddress(address_in(adapter.address@)),
                )
            }
            &&& vault.minimum_active_positions_after_economic_exit <= active_in(
                vault_positions(vault),
                vault_positions(vault).len() as int,
            )
            &&& vault_positions(vault).len() == vault.position@.len()
            &&& vault_adapters(vault).len() == vault.adapter@.len()
        }),
{
}

/// The canonical vault carries every amount and flag under its own name.
pub proof fn canonical_vaults_carry_their_amounts(vault: VaultConfig)
    ensures
        ({
            let view = canonical_vault(vault);
            &&& view.minimum_action_assets == amount_in(vault.minimum_action_assets@)
            &&& view.maximum_rounding_dust_assets == amount_in(vault.maximum_rounding_dust_assets@)
            &&& view.maximum_immediate_rebalance_loss_assets == amount_in(
                vault.maximum_immediate_rebalance_loss_assets@,
            )
            &&& view.maximum_terminal_value_sacrifice_assets == amount_in(
                vault.maximum_terminal_value_sacrifice_assets@,
            )
            &&& view.maximum_movement_per_hour_assets == amount_in(
                vault.maximum_movement_per_hour_assets@,
            )
            &&& view.maximum_movement_per_day_assets == amount_in(
                vault.maximum_movement_per_day_assets@,
            )
            &&& view.minimum_independent_event_assets == amount_in(
                vault.minimum_independent_event_assets@,
            )
            &&& view.minimum_atomic_exit_coverage_assets == amount_in(
                vault.minimum_atomic_exit_coverage_assets@,
            )
            &&& view.minimum_liquidity_adapter_assets == amount_in(
                vault.minimum_liquidity_adapter_assets@,
            )
            &&& view.minimum_deposit_headroom_assets == amount_in(
                vault.minimum_deposit_headroom_assets@,
            )
            &&& view.deposit_headroom_search_upper_bound_assets == amount_in(
                vault.deposit_headroom_search_upper_bound_assets@,
            )
            &&& view.minimum_source_token_liquidity_assets == amount_in(
                vault.minimum_source_token_liquidity_assets@,
            )
            &&& view.minimum_market_dead_supply_shares == amount_in(
                vault.minimum_market_dead_supply_shares@,
            )
            &&& view.rate_group.minimum_assets == amount_in(vault.rate_group@[0].minimum_assets@)
            &&& view.rate_group.target_assets == amount_in(vault.rate_group@[0].target_assets@)
            &&& view.rate_group.maximum_assets == amount_in(vault.rate_group@[0].maximum_assets@)
            &&& view.address.0 == address_in(vault.address@)
            &&& view.asset.0 == address_in(vault.asset@)
            &&& view.signer_address == address_in(vault.signer_address@)
            &&& view.strict_zero_routine_idle == vault.strict_zero_routine_idle
            &&& view.minimum_active_positions_after_economic_exit
                == vault.minimum_active_positions_after_economic_exit
        }),
{
}

/// Thresholds that gate a trade are converted upward and tolerances downward, so that conversion
/// never makes the strategy trade sooner; shares convert exactly.
pub proof fn canonical_strategies_round_against_trading(strategy: StrategyConfig)
    ensures
        ({
            let view = canonical_strategy(strategy);
            &&& view.entry_spread_rate_per_second == rate_up(AprBps(strategy.entry_spread_apr_bps))
            &&& view.target_spread_rate_per_second == rate_down(
                AprBps(strategy.target_spread_apr_bps),
            )
            &&& view.target_tolerance_rate_per_second == rate_down(
                AprBps(strategy.target_tolerance_apr_bps),
            )
            &&& view.minimum_portfolio_improvement_rate_per_second == rate_up(
                AprBps(strategy.minimum_portfolio_improvement_apr_bps),
            )
            &&& view.minimum_controllable_improvement_rate_per_second == rate_up(
                AprBps(strategy.minimum_controllable_improvement_apr_bps),
            )
            &&& view.portfolio_spread_tolerance_rate_per_second == rate_down(
                AprBps(strategy.portfolio_spread_tolerance_apr_bps),
            )
            &&& view.minimum_independent_event_rate_impact == rate_up(
                AprBps(strategy.minimum_independent_event_rate_impact_apr_bps),
            )
            &&& view.utilization_entry_spread_wad@ == strategy.utilization_entry_spread_bps
                * 100_000_000_000_000
            &&& view.utilization_target_spread_wad@ == strategy.utilization_target_spread_bps
                * 100_000_000_000_000
            &&& view.utilization_target_tolerance_wad@ == strategy.utilization_target_tolerance_bps
                * 100_000_000_000_000
            &&& view.utilization_minimum_improvement_wad@
                == strategy.utilization_minimum_improvement_bps * 100_000_000_000_000
            &&& view.utilization_portfolio_spread_tolerance_wad@
                == strategy.utilization_portfolio_spread_tolerance_bps * 100_000_000_000_000
            &&& view.immediate_tranche_bps == strategy.immediate_tranche_bps
            &&& view.confirmation_opportunities == strategy.confirmation_opportunities
            &&& view.benefit_horizon_seconds == strategy.benefit_horizon.secs
        }),
{
    broadcast use group_u256;

}

#[verifier::opaque]
spec fn vault_accepted(vault: VaultConfig, required_validity: u64) -> bool {
    vault_failure(vault, required_validity) is None
}

#[verifier::opaque]
spec fn vaults_accepted(
    vaults: Seq<VaultConfig>,
    required_validity: u64,
    from: int,
    done: VaultProgress,
) -> bool {
    vaults_from(vaults, required_validity, from, done) is Ok
}

proof fn lemma_next_vault(
    vaults: Seq<VaultConfig>,
    required_validity: u64,
    from: int,
    done: VaultProgress,
) -> (next: VaultProgress)
    requires
        0 <= from < vaults.len(),
        vaults_accepted(vaults, required_validity, from, done),
    ensures
        vault_accepted(vaults[from], required_validity),
        !has_key(done.addresses, VaultAddress(address_in(vaults[from].address@))),
        done.signer is Some ==> done.signer == Some(address_in(vaults[from].signer_address@)),
        next.addresses == with_key(
            done.addresses,
            VaultAddress(address_in(vaults[from].address@)),
        ),
        next.signer == Some(address_in(vaults[from].signer_address@)),
        vaults_accepted(vaults, required_validity, from + 1, next),
{
    reveal(vaults_accepted);
    reveal(vault_accepted);
    let canonical = canonical_vault(vaults[from]);
    VaultProgress {
        vaults: with_vault(done.vaults, canonical),
        addresses: with_key(done.addresses, canonical.address),
        signer: Some(canonical.signer_address),
    }
}

proof fn lemma_vaults(
    vaults: Seq<VaultConfig>,
    required_validity: u64,
    from: int,
    done: VaultProgress,
)
    requires
        0 <= from <= vaults.len(),
        vaults_accepted(vaults, required_validity, from, done),
        strictly_increasing(done.addresses),
        from > 0 ==> done.signer == Some(address_in(vaults[0].signer_address@)),
        forall|i: int|
            0 <= i < from ==> done.addresses.contains(
                VaultAddress(address_in((#[trigger] vaults[i]).address@)),
            ),
    ensures
        forall|i: int|
            from <= i < vaults.len() ==> vault_accepted(
                #[trigger] vaults[i],
                required_validity,
            ) && address_in(vaults[i].signer_address@) == address_in(
                vaults[0].signer_address@,
            ),
        forall|i: int, j: int|
            0 <= i < j && from <= j < vaults.len() ==> address_in((#[trigger] vaults[i]).address@)
                != address_in((#[trigger] vaults[j]).address@),
    decreases vaults.len() - from,
{
    if from < vaults.len() {
        let added = VaultAddress(address_in(vaults[from].address@));
        let next = lemma_next_vault(vaults, required_validity, from, done);
        with_key_is_insertion(done.addresses, added);
        has_key_is_membership(done.addresses, added);
        assert(next.addresses.to_set().contains(added));
        assert forall|i: int| 0 <= i < from + 1 implies next.addresses.contains(
            VaultAddress(address_in((#[trigger] vaults[i]).address@)),
        ) by {
            let address = VaultAddress(address_in(vaults[i].address@));
            if i < from {
                assert(done.addresses.to_set().contains(address));
            }
            assert(next.addresses.to_set().contains(address));
        }
        lemma_vaults(vaults, required_validity, from + 1, next);
    }
}

/// An accepted configuration was accepted at the top level and vault by vault, with reward evidence
/// through the benefit horizon counted from now; its vaults have distinct addresses and one signer.
pub proof fn accepted_configurations_are_accepted_throughout(
    config: AppConfig,
    now: u64,
    durable_reorg_blocks: u64,
)
    requires
        app_failure(config, now, durable_reorg_blocks) is None,
    ensures
        top_level_failure(config, durable_reorg_blocks) is None,
        now + config.strategy.benefit_horizon.secs <= u64::MAX,
        forall|i: int|
            0 <= i < config.vault@.len() ==> vault_failure(
                #[trigger] config.vault@[i],
                (now + config.strategy.benefit_horizon.secs) as u64,
            ) is None && address_in(config.vault@[i].signer_address@) == address_in(
                config.vault@[0].signer_address@,
            ),
        forall|i: int, j: int|
            0 <= i < j < config.vault@.len() ==> address_in(
                (#[trigger] config.vault@[i]).address@,
            ) != address_in((#[trigger] config.vault@[j]).address@),
{
    let required = (now + config.strategy.benefit_horizon.secs) as u64;
    assert(vaults_accepted(config.vault@, required, 0, VaultProgress::begun())) by {
        reveal(vaults_accepted);
    }
    lemma_vaults(config.vault@, required, 0, VaultProgress::begun());
    assert forall|i: int| 0 <= i < config.vault@.len() implies vault_failure(
        #[trigger] config.vault@[i],
        required,
    ) is None by {
        reveal(vault_accepted);
    }
}

} // verus!
