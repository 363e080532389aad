//! Validation of the settings that every vault shares.

use vstd::prelude::*;
use vstd::string::*;

use crate::primitives::{group_u256, U256};

use super::raw::{AppConfig, RpcConfig, SigningConfig};
use super::text::{
    amount_in, blank, checks, invalid, is_amount, is_blank, not_an_amount, parse_u256, validation,
    ConfigError, ConfigFailure,
};
use super::top_k::{top_k_failure, within};
use super::{BlockOpportunityPolicy, RpcRole, RuntimeMode, VaultStrategy, CONFIG_SCHEMA_VERSION};

verus! {

/// Whether a provider reference names itself and its endpoints, with a WebSocket reference exactly
/// where WebSocket support is declared.
pub open spec fn provider_named(provider: RpcConfig) -> bool {
    &&& !blank(provider.name@)
    &&& !blank(provider.url_env@)
    &&& provider.supports_websocket == (match provider.websocket_url_env {
        Some(name) => !blank(name@),
        None => false,
    })
}

fn is_provider_named(provider: &RpcConfig) -> (r: bool)
    ensures
        r == provider_named(*provider),
{
    let websocket = match &provider.websocket_url_env {
        Some(name) => !is_blank(name.as_str()),
        None => false,
    };
    !is_blank(provider.name.as_str()) && !is_blank(provider.url_env.as_str())
        && provider.supports_websocket == websocket
}

/// Whether every provider reference is complete.
pub open spec fn providers_named(providers: Seq<RpcConfig>) -> bool {
    forall|i: int| 0 <= i < providers.len() ==> provider_named(#[trigger] providers[i])
}

fn are_providers_named(providers: &Vec<RpcConfig>) -> (r: bool)
    ensures
        r == providers_named(providers@),
{
    let mut i: usize = 0;
    while i < providers.len()
        invariant
            i <= providers.len(),
            forall|j: int| 0 <= j < i ==> provider_named(#[trigger] providers@[j]),
        decreases providers.len() - i,
    {
        if !is_provider_named(&providers[i]) {
            assert(!provider_named(providers@[i as int]));
            return false;
        }
        i = i + 1;
    }
    true
}

fn has_role(roles: &Vec<RpcRole>, role: RpcRole) -> (r: bool)
    ensures
        r == roles@.contains(role),
{
    let mut i: usize = 0;
    while i < roles.len()
        invariant
            i <= roles.len(),
            forall|j: int| 0 <= j < i ==> roles@[j] != role,
        decreases roles.len() - i,
    {
        if roles[i] == role {
            assert(roles@[i as int] == role);
            return true;
        }
        i = i + 1;
    }
    false
}

/// Whether a provider is production-grade and owns every live runtime role.
pub open spec fn is_primary(provider: RpcConfig) -> bool {
    &&& provider.production_grade
    &&& provider.roles@.contains(RpcRole::Head)
    &&& provider.roles@.contains(RpcRole::Logs)
    &&& provider.roles@.contains(RpcRole::Read)
    &&& provider.roles@.contains(RpcRole::Simulate)
    &&& provider.roles@.contains(RpcRole::Submit)
    &&& provider.roles@.contains(RpcRole::Receipt)
}

fn check_primary(provider: &RpcConfig) -> (r: bool)
    ensures
        r == is_primary(*provider),
{
    provider.production_grade && has_role(&provider.roles, RpcRole::Head) && has_role(
        &provider.roles,
        RpcRole::Logs,
    ) && has_role(&provider.roles, RpcRole::Read) && has_role(&provider.roles, RpcRole::Simulate)
        && has_role(&provider.roles, RpcRole::Submit) && has_role(
        &provider.roles,
        RpcRole::Receipt,
    )
}

/// Whether exactly the provider at `index` is a primary.
pub open spec fn sole_primary(providers: Seq<RpcConfig>, index: int) -> bool {
    &&& 0 <= index < providers.len()
    &&& forall|i: int| 0 <= i < providers.len() ==> (is_primary(#[trigger] providers[i]) <==> i
        == index)
}

/// Whether exactly one provider is a primary.
pub open spec fn one_primary(providers: Seq<RpcConfig>) -> bool {
    exists|index: int| #[trigger] sole_primary(providers, index)
}

/// Index of the one primary.
pub open spec fn primary_index(providers: Seq<RpcConfig>) -> int {
    choose|index: int| #[trigger] sole_primary(providers, index)
}

/// Finds the one primary.
pub fn find_primary(providers: &Vec<RpcConfig>) -> (r: Option<usize>)
    ensures
        match r {
            Some(index) => one_primary(providers@) && index == primary_index(providers@),
            None => !one_primary(providers@),
        },
{
    let mut found: Option<usize> = None;
    let mut i: usize = 0;
    while i < providers.len()
        invariant
            i <= providers.len(),
            match found {
                Some(index) => index < i && forall|j: int|
                    0 <= j < i ==> (is_primary(#[trigger] providers@[j]) <==> j == index),
                None => forall|j: int| 0 <= j < i ==> !is_primary(#[trigger] providers@[j]),
            },
        decreases providers.len() - i,
    {
        if check_primary(&providers[i]) {
            if found.is_some() {
                proof {
                    let first = found->0 as int;
                    assert(is_primary(providers@[first]) && is_primary(providers@[i as int]));
                    if one_primary(providers@) {
                        let index = primary_index(providers@);
                        assert(sole_primary(providers@, index));
                    }
                }
                return None;
            }
            found = Some(i);
        }
        i = i + 1;
    }
    proof {
        match found {
            Some(index) => {
                assert(sole_primary(providers@, index as int));
                let chosen = primary_index(providers@);
                assert(sole_primary(providers@, chosen));
                assert(is_primary(providers@[chosen]));
            },
            None => {
                if one_primary(providers@) {
                    let index = primary_index(providers@);
                    assert(sole_primary(providers@, index));
                    assert(is_primary(providers@[index]));
                }
            },
        }
    }
    found
}

/// Whether a provider can serve as a checkpoint.
pub open spec fn is_checkpoint(provider: RpcConfig) -> bool {
    &&& provider.roles@.contains(RpcRole::Checkpoint)
    &&& provider.roles@.contains(RpcRole::Read)
    &&& provider.roles@.contains(RpcRole::Receipt)
}

/// Whether a checkpoint provider of another name than the primary's is configured.
pub open spec fn independent_checkpoint(providers: Seq<RpcConfig>, primary: RpcConfig) -> bool {
    exists|i: int|
        0 <= i < providers.len() && (#[trigger] providers[i]).name@ != primary.name@
            && is_checkpoint(providers[i])
}

fn has_checkpoint(providers: &Vec<RpcConfig>, primary: usize) -> (r: bool)
    requires
        primary < providers.len(),
    ensures
        r == independent_checkpoint(providers@, providers@[primary as int]),
{
    let mut i: usize = 0;
    while i < providers.len()
        invariant
            i <= providers.len(),
            primary < providers.len(),
            forall|j: int|
                0 <= j < i ==> (#[trigger] providers@[j]).name@
                    == providers@[primary as int].name@ || !is_checkpoint(providers@[j]),
        decreases providers.len() - i,
    {
        let provider = &providers[i];
        if provider.name != providers[primary].name && has_role(
            &provider.roles,
            RpcRole::Checkpoint,
        ) && has_role(&provider.roles, RpcRole::Read) && has_role(
            &provider.roles,
            RpcRole::Receipt,
        ) {
            assert(providers@[i as int].name@ != providers@[primary as int].name@);
            return true;
        }
        i = i + 1;
    }
    false
}

/// Environment variable that names the signer's secret.
pub open spec fn signing_environment(signing: SigningConfig) -> Seq<char> {
    match signing {
        SigningConfig::RemoteSigner { endpoint_env } => endpoint_env@,
        SigningConfig::LocalDevelopment { private_key_env, .. } => private_key_env@,
    }
}

/// Whether a local test signer would execute without authorization for the exact chain.
pub open spec fn unauthorized_local_execute(config: AppConfig) -> bool {
    match config.signing {
        SigningConfig::LocalDevelopment { execute_chain_id, .. } => config.node.mode
            == RuntimeMode::Execute && execute_chain_id != Some(config.chain.chain_id),
        SigningConfig::RemoteSigner { .. } => false,
    }
}

/// First broken rule of identities, references and chain bounds.
pub open spec fn reference_failure(config: AppConfig, durable_reorg_blocks: u64) -> Option<
    ConfigFailure,
> {
    let telegram = config.alerts.telegram;
    let pagerduty = config.alerts.pagerduty;
    if config.schema_version != CONFIG_SCHEMA_VERSION {
        Some(invalid("schema_version", "unsupported schema version"))
    } else if config.vault@.len() == 0 {
        Some(invalid("vault", "at least one vault is required"))
    } else if config.chain.rpc@.len() == 0 {
        Some(invalid("chain.rpc", "at least one RPC provider is required"))
    } else if !providers_named(config.chain.rpc@) {
        Some(
            invalid(
                "chain.rpc",
                "provider names and HTTP environment references must be non-empty, and WebSocket support requires exactly one WebSocket environment reference",
            ),
        )
    } else if blank(signing_environment(config.signing)) {
        Some(invalid("signing", "signer environment-variable name must be non-empty"))
    } else if telegram.enabled && (blank(telegram.bot_token_env@) || blank(telegram.chat_id@)) {
        Some(
            invalid(
                "alerts.telegram",
                "enabled Telegram requires non-empty token environment and chat ID",
            ),
        )
    } else if pagerduty.enabled && blank(pagerduty.integration_key_env@) {
        Some(
            invalid(
                "alerts.pagerduty",
                "enabled PagerDuty requires a non-empty integration-key environment",
            ),
        )
    } else if unauthorized_local_execute(config) {
        Some(
            invalid(
                "signing.execute_chain_id",
                "local-development Execute requires an explicit exact chain-ID authorization",
            ),
        )
    } else if config.chain.maximum_log_range == 0 || config.chain.reorg_rescan_blocks == 0
        || config.chain.reorg_rescan_blocks > durable_reorg_blocks {
        Some(
            invalid(
                "chain",
                "log range must be positive and reorg rescan must be within durable retention",
            ),
        )
    } else if config.snapshot.maximum_snapshot_retries == 0
        || config.snapshot.maximum_evm_timestamp_lag_seconds > 60 {
        Some(
            invalid(
                "snapshot",
                "snapshot retries must be positive and EVM timestamp lag may not exceed 60 seconds",
            ),
        )
    } else if config.solver.maximum_nodes == 0
        || config.solver.maximum_amount_candidates_per_position == 0
        || config.solver.maximum_source_sets == 0 || config.solver.maximum_destination_sets == 0 {
        Some(invalid("solver", "all bounded-search limits must be positive"))
    } else if !one_primary(config.chain.rpc@) {
        Some(
            invalid(
                "chain.rpc",
                "exactly one production-grade primary must own every live runtime role",
            ),
        )
    } else if !independent_checkpoint(
        config.chain.rpc@,
        config.chain.rpc@[primary_index(config.chain.rpc@)],
    ) {
        Some(
            invalid(
                "chain.rpc",
                "an independent checkpoint/read/receipt provider is required",
            ),
        )
    } else {
        None
    }
}

/// The rule on the fee ceiling, where it is broken.
pub open spec fn fee_per_gas_failure(maximum_fee_per_gas: U256) -> Option<ConfigFailure> {
    if maximum_fee_per_gas@ >= 2 {
        None
    } else {
        Some(
            invalid(
                "execution.maximum_fee_per_gas_wei",
                "must leave room for an initial fee and a higher cancellation fee",
            ),
        )
    }
}

/// Checks the parsed fee ceiling.
pub fn check_fee_per_gas(maximum_fee_per_gas: U256) -> (r: Result<(), ConfigError>)
    ensures
        checks(r, fee_per_gas_failure(maximum_fee_per_gas)),
{
    broadcast use group_u256;

    if maximum_fee_per_gas.lt(U256::from_u64(2)) {
        return Err(
            validation(
                "execution.maximum_fee_per_gas_wei",
                "must leave room for an initial fee and a higher cancellation fee",
            ),
        );
    }
    Ok(())
}

/// The rule on the daily gas spend, where it is broken.
pub open spec fn daily_gas_spend_failure(maximum_daily_gas_spend: U256) -> Option<ConfigFailure> {
    if maximum_daily_gas_spend@ > 0 {
        None
    } else {
        Some(invalid("execution.maximum_daily_gas_spend_wei", "must be positive"))
    }
}

/// Checks the parsed daily gas spend.
pub fn check_daily_gas_spend(maximum_daily_gas_spend: U256) -> (r: Result<(), ConfigError>)
    ensures
        checks(r, daily_gas_spend_failure(maximum_daily_gas_spend)),
{
    if maximum_daily_gas_spend.is_zero() {
        return Err(validation("execution.maximum_daily_gas_spend_wei", "must be positive"));
    }
    Ok(())
}

/// First broken rule of gas and transaction-lifecycle policy.
pub open spec fn execution_failure(config: AppConfig) -> Option<ConfigFailure> {
    let execution = config.execution;
    if execution.maximum_signed_transaction_gas == 0 {
        Some(invalid("execution.maximum_signed_transaction_gas", "must be positive"))
    } else if (match config.chain.block_opportunity_policy {
        BlockOpportunityPolicy::HyperEvmFastBlocks { gas_limit } => gas_limit == 0
            || execution.maximum_signed_transaction_gas >= gas_limit,
        BlockOpportunityPolicy::EveryCanonicalBlock => false,
    }) {
        Some(
            invalid(
                "chain.block_opportunity_policy.gas_limit",
                "must exceed the maximum signed transaction gas",
            ),
        )
    } else if !is_amount(execution.maximum_fee_per_gas_wei@) {
        Some(not_an_amount("execution.maximum_fee_per_gas_wei"))
    } else if fee_per_gas_failure(amount_in(execution.maximum_fee_per_gas_wei@)) is Some {
        fee_per_gas_failure(amount_in(execution.maximum_fee_per_gas_wei@))
    } else if !is_amount(execution.maximum_daily_gas_spend_wei@) {
        Some(not_an_amount("execution.maximum_daily_gas_spend_wei"))
    } else if daily_gas_spend_failure(amount_in(execution.maximum_daily_gas_spend_wei@)) is Some {
        daily_gas_spend_failure(amount_in(execution.maximum_daily_gas_spend_wei@))
    } else if execution.maximum_rate_rebalance_pending_opportunities
        > execution.maximum_inclusion_opportunities {
        Some(
            invalid(
                "execution.maximum_rate_rebalance_pending_opportunities",
                "rate pending horizon exceeds normal inclusion horizon",
            ),
        )
    } else if execution.identical_rebroadcast_after_opportunities == 0
        || execution.identical_rebroadcast_after_opportunities
        > execution.replacement_after_opportunities {
        Some(
            invalid(
                "execution.identical_rebroadcast_after_opportunities",
                "must be positive and no later than fee replacement",
            ),
        )
    } else {
        None
    }
}

/// First broken rule of strategy thresholds.
pub open spec fn strategy_failure(config: AppConfig) -> Option<ConfigFailure> {
    let strategy = config.strategy;
    if strategy.target_spread_apr_bps + strategy.target_tolerance_apr_bps > u32::MAX
        || strategy.entry_spread_apr_bps <= strategy.target_spread_apr_bps
        + strategy.target_tolerance_apr_bps {
        Some(
            invalid(
                "strategy.entry_spread_apr_bps",
                "entry spread must exceed target plus convergence tolerance",
            ),
        )
    } else if strategy.utilization_entry_spread_bps > 10_000
        || strategy.utilization_target_spread_bps > 10_000
        || strategy.utilization_target_tolerance_bps > 10_000
        || strategy.utilization_entry_spread_bps <= strategy.utilization_target_spread_bps
        + strategy.utilization_target_tolerance_bps || strategy.utilization_target_spread_bps
        + strategy.utilization_target_tolerance_bps > 10_000 {
        Some(
            invalid(
                "strategy.utilization_entry_spread_bps",
                "entry must be at most 10000 and exceed target plus tolerance",
            ),
        )
    } else if strategy.minimum_portfolio_improvement_apr_bps == 0
        || strategy.minimum_controllable_improvement_apr_bps == 0 {
        Some(
            invalid(
                "strategy.minimum_improvement",
                "portfolio and controllable improvements must be positive",
            ),
        )
    } else if !within(strategy.utilization_minimum_improvement_bps, 10_000)
        || strategy.utilization_portfolio_spread_tolerance_bps > 10_000 {
        Some(
            invalid(
                "strategy.utilization_minimum_improvement_bps",
                "minimum improvement must be in 1..=10000 and tolerance at most 10000",
            ),
        )
    } else if !within(strategy.immediate_tranche_bps, 10_000) {
        Some(invalid("strategy.immediate_tranche_bps", "must be in 1..=10000"))
    } else if strategy.confirmation_opportunities == 0 {
        Some(invalid("strategy.confirmation_opportunities", "must be positive"))
    } else if strategy.persistent_confirmation_duration.empty() {
        Some(invalid("strategy.persistent_confirmation_duration", "must be positive"))
    } else if strategy.minimum_independent_rate_events < 2 {
        Some(invalid("strategy.minimum_independent_rate_events", "must be at least two"))
    } else if strategy.minimum_independent_event_span.empty()
        || strategy.minimum_independent_event_rate_impact_apr_bps == 0 || !within(
        strategy.minimum_independent_event_utilization_impact_bps,
        10_000,
    ) {
        Some(
            invalid(
                "strategy.independent_event",
                "event span and rate impact must be positive",
            ),
        )
    } else if !strategy.maximum_rate_episode_duration.longer(
        strategy.persistent_confirmation_duration,
    ) {
        Some(
            invalid(
                "strategy.maximum_rate_episode_duration",
                "must exceed persistent confirmation duration",
            ),
        )
    } else if strategy.maximum_daily_transactions == 0 {
        Some(invalid("strategy.maximum_daily_transactions", "must be positive"))
    } else {
        None
    }
}

/// Whether some vault selects the top-K strategy.
pub open spec fn top_k_enabled(config: AppConfig) -> bool {
    exists|i: int|
        0 <= i < config.vault@.len() && (#[trigger] config.vault@[i]).strategy
            == VaultStrategy::TopKApyDiversified
}

fn is_top_k_enabled(config: &AppConfig) -> (r: bool)
    ensures
        r == top_k_enabled(*config),
{
    let mut i: usize = 0;
    while i < config.vault.len()
        invariant
            i <= config.vault.len(),
            forall|j: int|
                0 <= j < i ==> (#[trigger] config.vault@[j]).strategy
                    != VaultStrategy::TopKApyDiversified,
        decreases config.vault.len() - i,
    {
        if config.vault[i].strategy == VaultStrategy::TopKApyDiversified {
            assert(config.vault@[i as int].strategy == VaultStrategy::TopKApyDiversified);
            return true;
        }
        i = i + 1;
    }
    false
}

/// The first rule on shared settings that a configuration breaks.
pub open spec fn top_level_failure(config: AppConfig, durable_reorg_blocks: u64) -> Option<
    ConfigFailure,
> {
    let top_k = top_k_failure(config.strategy.top_k_apy, config.node.mode, top_k_enabled(config));
    if reference_failure(config, durable_reorg_blocks) is Some {
        reference_failure(config, durable_reorg_blocks)
    } else if execution_failure(config) is Some {
        execution_failure(config)
    } else if strategy_failure(config) is Some {
        strategy_failure(config)
    } else if top_k is Some {
        top_k
    } else if config.node.mode == RuntimeMode::Execute && (
    config.strategy.extreme_spread_bypass_enabled || config.solver.allow_incomplete_rate_solver) {
        Some(
            invalid(
                "node.mode",
                "release-one Execute forbids extreme bypass and incomplete rate search",
            ),
        )
    } else {
        None
    }
}

fn validate_references(config: &AppConfig, durable_reorg_blocks: u64) -> (r: Result<
    (),
    ConfigError,
>)
    ensures
        checks(r, reference_failure(*config, durable_reorg_blocks)),
{
    if config.schema_version != CONFIG_SCHEMA_VERSION {
        return Err(validation("schema_version", "unsupported schema version"));
    }
    if config.vault.len() == 0 {
        return Err(validation("vault", "at least one vault is required"));
    }
    if config.chain.rpc.len() == 0 {
        return Err(validation("chain.rpc", "at least one RPC provider is required"));
    }
    if !are_providers_named(&config.chain.rpc) {
        return Err(
            validation(
                "chain.rpc",
                "provider names and HTTP environment references must be non-empty, and WebSocket support requires exactly one WebSocket environment reference",
            ),
        );
    }
    let environment = match &config.signing {
        SigningConfig::RemoteSigner { endpoint_env } => endpoint_env.as_str(),
        SigningConfig::LocalDevelopment { private_key_env, .. } => private_key_env.as_str(),
    };
    if is_blank(environment) {
        return Err(validation("signing", "signer environment-variable name must be non-empty"));
    }
    let telegram = &config.alerts.telegram;
    if telegram.enabled && (is_blank(telegram.bot_token_env.as_str()) || is_blank(
        telegram.chat_id.as_str(),
    )) {
        return Err(
            validation(
                "alerts.telegram",
                "enabled Telegram requires non-empty token environment and chat ID",
            ),
        );
    }
    if config.alerts.pagerduty.enabled && is_blank(
        config.alerts.pagerduty.integration_key_env.as_str(),
    ) {
        return Err(
            validation(
                "alerts.pagerduty",
                "enabled PagerDuty requires a non-empty integration-key environment",
            ),
        );
    }
    let unauthorized = match &config.signing {
        SigningConfig::LocalDevelopment { execute_chain_id, .. } => {
            config.node.mode == RuntimeMode::Execute && match execute_chain_id {
                Some(chain_id) => *chain_id != config.chain.chain_id,
                None => true,
            }
        },
        SigningConfig::RemoteSigner { .. } => false,
    };
    if unauthorized {
        return Err(
            validation(
                "signing.execute_chain_id",
                "local-development Execute requires an explicit exact chain-ID authorization",
            ),
        );
    }
    if config.chain.maximum_log_range == 0 || config.chain.reorg_rescan_blocks == 0
        || config.chain.reorg_rescan_blocks > durable_reorg_blocks {
        return Err(
            validation(
                "chain",
                "log range must be positive and reorg rescan must be within durable retention",
            ),
        );
    }
    if config.snapshot.maximum_snapshot_retries == 0
        || config.snapshot.maximum_evm_timestamp_lag_seconds > 60 {
        return Err(
            validation(
                "snapshot",
                "snapshot retries must be positive and EVM timestamp lag may not exceed 60 seconds",
            ),
        );
    }
    if config.solver.maximum_nodes == 0
        || config.solver.maximum_amount_candidates_per_position == 0
        || config.solver.maximum_source_sets == 0 || config.solver.maximum_destination_sets == 0 {
        return Err(validation("solver", "all bounded-search limits must be positive"));
    }
    let primary = match find_primary(&config.chain.rpc) {
        Some(index) => index,
        None => return Err(
            validation(
                "chain.rpc",
                "exactly one production-grade primary must own every live runtime role",
            ),
        ),
    };
    assert(sole_primary(config.chain.rpc@, primary as int));
    if !has_checkpoint(&config.chain.rpc, primary) {
        return Err(
            validation("chain.rpc", "an independent checkpoint/read/receipt provider is required"),
        );
    }
    Ok(())
}

fn validate_execution(config: &AppConfig) -> (r: Result<(), ConfigError>)
    ensures
        checks(r, execution_failure(*config)),
{
    if config.execution.maximum_signed_transaction_gas == 0 {
        return Err(validation("execution.maximum_signed_transaction_gas", "must be positive"));
    }
    match config.chain.block_opportunity_policy {
        BlockOpportunityPolicy::HyperEvmFastBlocks { gas_limit } => {
            if gas_limit == 0 || config.execution.maximum_signed_transaction_gas >= gas_limit {
                return Err(
                    validation(
                        "chain.block_opportunity_policy.gas_limit",
                        "must exceed the maximum signed transaction gas",
                    ),
                );
            }
        },
        BlockOpportunityPolicy::EveryCanonicalBlock => {},
    }
    let maximum_fee_per_gas = parse_u256(
        "execution.maximum_fee_per_gas_wei",
        config.execution.maximum_fee_per_gas_wei.as_str(),
    )?;
    check_fee_per_gas(maximum_fee_per_gas)?;
    let maximum_daily_gas_spend = parse_u256(
        "execution.maximum_daily_gas_spend_wei",
        config.execution.maximum_daily_gas_spend_wei.as_str(),
    )?;
    check_daily_gas_spend(maximum_daily_gas_spend)?;
    if config.execution.maximum_rate_rebalance_pending_opportunities
        > config.execution.maximum_inclusion_opportunities {
        return Err(
            validation(
                "execution.maximum_rate_rebalance_pending_opportunities",
                "rate pending horizon exceeds normal inclusion horizon",
            ),
        );
    }
    if config.execution.identical_rebroadcast_after_opportunities == 0
        || config.execution.identical_rebroadcast_after_opportunities
        > config.execution.replacement_after_opportunities {
        return Err(
            validation(
                "execution.identical_rebroadcast_after_opportunities",
                "must be positive and no later than fee replacement",
            ),
        );
    }
    Ok(())
}

fn validate_strategy(config: &AppConfig) -> (r: Result<(), ConfigError>)
    ensures
        checks(r, strategy_failure(*config)),
{
    let strategy = &config.strategy;
    let converging = match strategy.target_spread_apr_bps.checked_add(
        strategy.target_tolerance_apr_bps,
    ) {
        Some(convergence) => strategy.entry_spread_apr_bps > convergence,
        None => false,
    };
    if !converging {
        return Err(
            validation(
                "strategy.entry_spread_apr_bps",
                "entry spread must exceed target plus convergence tolerance",
            ),
        );
    }
    let utilization_converging = match strategy.utilization_target_spread_bps.checked_add(
        strategy.utilization_target_tolerance_bps,
    ) {
        Some(convergence) => strategy.utilization_entry_spread_bps > convergence && convergence
            <= 10_000,
        None => false,
    };
    if strategy.utilization_entry_spread_bps > 10_000 || strategy.utilization_target_spread_bps
        > 10_000 || strategy.utilization_target_tolerance_bps > 10_000 || !utilization_converging {
        return Err(
            validation(
                "strategy.utilization_entry_spread_bps",
                "entry must be at most 10000 and exceed target plus tolerance",
            ),
        );
    }
    if strategy.minimum_portfolio_improvement_apr_bps == 0
        || strategy.minimum_controllable_improvement_apr_bps == 0 {
        return Err(
            validation(
                "strategy.minimum_improvement",
                "portfolio and controllable improvements must be positive",
            ),
        );
    }
    if strategy.utilization_minimum_improvement_bps == 0
        || strategy.utilization_minimum_improvement_bps > 10_000
        || strategy.utilization_portfolio_spread_tolerance_bps > 10_000 {
        return Err(
            validation(
                "strategy.utilization_minimum_improvement_bps",
                "minimum improvement must be in 1..=10000 and tolerance at most 10000",
            ),
        );
    }
    if strategy.immediate_tranche_bps == 0 || strategy.immediate_tranche_bps > 10_000 {
        return Err(validation("strategy.immediate_tranche_bps", "must be in 1..=10000"));
    }
    if strategy.confirmation_opportunities == 0 {
        return Err(validation("strategy.confirmation_opportunities", "must be positive"));
    }
    if strategy.persistent_confirmation_duration.is_zero() {
        return Err(validation("strategy.persistent_confirmation_duration", "must be positive"));
    }
    if strategy.minimum_independent_rate_events < 2 {
        return Err(validation("strategy.minimum_independent_rate_events", "must be at least two"));
    }
    if strategy.minimum_independent_event_span.is_zero()
        || strategy.minimum_independent_event_rate_impact_apr_bps == 0
        || strategy.minimum_independent_event_utilization_impact_bps == 0
        || strategy.minimum_independent_event_utilization_impact_bps > 10_000 {
        return Err(
            validation("strategy.independent_event", "event span and rate impact must be positive"),
        );
    }
    if !strategy.maximum_rate_episode_duration.exceeds(
        &strategy.persistent_confirmation_duration,
    ) {
        return Err(
            validation(
                "strategy.maximum_rate_episode_duration",
                "must exceed persistent confirmation duration",
            ),
        );
    }
    if strategy.maximum_daily_transactions == 0 {
        return Err(validation("strategy.maximum_daily_transactions", "must be positive"));
    }
    Ok(())
}

/// Validates the settings that every vault shares, rule by rule. The bound on the reorg rescan is
/// the number of blocks that durable storage retains.
pub fn validate_top_level(config: &AppConfig, durable_reorg_blocks: u64) -> (r: Result<
    (),
    ConfigError,
>)
    ensures
        checks(r, top_level_failure(*config, durable_reorg_blocks)),
{
    validate_references(config, durable_reorg_blocks)?;
    validate_execution(config)?;
    validate_strategy(config)?;
    config.strategy.top_k_apy.validate(config.node.mode, is_top_k_enabled(config))?;
    if config.node.mode == RuntimeMode::Execute && (config.strategy.extreme_spread_bypass_enabled
        || config.solver.allow_incomplete_rate_solver) {
        return Err(
            validation(
                "node.mode",
                "release-one Execute forbids extreme bypass and incomplete rate search",
            ),
        );
    }
    Ok(())
}

} // verus!
