//! Operator configuration as written, before validation.

use vstd::prelude::*;

use crate::domain::{MarketMode, RewardPolicy};

use super::text::Duration;
use super::top_k::TopKApyConfig;
use super::{
    AdapterKind, BlockOpportunityPolicy, LiquidityAdapterKind, RpcRole, RuntimeMode, SnapshotMode,
    StrategyObjective, VaultStrategy,
};

verus! {

/// Opportunities before byte-identical signed bytes are rebroadcast, when not configured.
pub fn default_identical_rebroadcast_after_opportunities() -> (r: u64)
    ensures
        r == 1,
{
    1
}

/// Tolerance above the target spread, when not configured.
pub fn default_target_tolerance_apr_bps() -> (r: u32)
    ensures
        r == 0,
{
    0
}

/// Utilization entry spread, when not configured.
pub fn default_utilization_entry_spread_bps() -> (r: u32)
    ensures
        r == 25,
{
    25
}

/// Utilization target spread, when not configured.
pub fn default_utilization_target_spread_bps() -> (r: u32)
    ensures
        r == 10,
{
    10
}

/// Minimum utilization improvement, when not configured.
pub fn default_utilization_minimum_improvement_bps() -> (r: u32)
    ensures
        r == 1,
{
    1
}

/// Minimum independent utilization event impact, when not configured.
pub fn default_utilization_minimum_event_impact_bps() -> (r: u32)
    ensures
        r == 1,
{
    1
}

/// Strict on-disk configuration envelope separating operator inputs from policy tuning.
#[derive(Debug)]
pub struct ConfigDocument {
    /// Configuration schema version.
    pub schema_version: u32,
    /// Values normally supplied for each deployment by the process operator.
    pub normal: NormalConfig,
    /// Safety, timing, and strategy policy normally maintained by the allocator.
    pub advanced: AdvancedConfig,
}

/// Deployment and secret-reference inputs required for an ordinary installation.
#[derive(Debug)]
pub struct NormalConfig {
    /// Process identity and local durable-state location.
    pub node: NormalNodeConfig,
    /// Chain identity, contracts, replay origin, and provider references.
    pub chain: NormalChainConfig,
    /// Restricted signer reference.
    pub signing: SigningConfig,
    /// Alert destinations and secret references.
    pub alerts: AlertConfig,
    /// Exact vault deployments and allocator-approved market policy.
    pub vault: Vec<VaultConfig>,
}

/// Process values routinely set by the deployment operator.
#[derive(Debug)]
pub struct NormalNodeConfig {
    /// Stable instance identity.
    pub instance_id: String,
    /// Runtime capability mode.
    pub mode: RuntimeMode,
    /// Durable state directory, unique per process and chain.
    pub data_dir: String,
}

/// Chain values routinely set by the deployment operator.
#[derive(Debug)]
pub struct NormalChainConfig {
    /// Human-readable chain name.
    pub name: String,
    /// EVM chain ID.
    pub chain_id: u64,
    /// Morpho singleton address.
    pub morpho_blue: String,
    /// Multicall3 address.
    pub multicall3: String,
    /// Expected Multicall3 runtime code hash.
    pub expected_multicall3_code_hash: String,
    /// First block included in topology replay.
    pub event_start_block: u64,
    /// Role-scoped RPC references.
    pub rpc: Vec<RpcConfig>,
}

/// Allocator-maintained safety, performance, and strategy policy.
#[derive(Debug)]
pub struct AdvancedConfig {
    /// Reconciliation timing.
    pub node: AdvancedNodeConfig,
    /// Chain/provider operational bounds.
    pub chain: AdvancedChainConfig,
    /// Exact snapshot policy.
    pub snapshot: SnapshotConfig,
    /// Transaction lifecycle and gas policy.
    pub execution: ExecutionConfig,
    /// Bounded solver limits.
    pub solver: SolverConfig,
    /// Rebalancing objective and activation thresholds.
    pub strategy: StrategyConfig,
}

/// Allocator-maintained reconciliation timing.
#[derive(Debug)]
pub struct AdvancedNodeConfig {
    /// Full exact reconciliation cadence.
    pub full_reconciliation_interval: Duration,
    /// Full topology reconciliation cadence.
    pub topology_reconciliation_interval: Duration,
}

/// Allocator-maintained chain operational bounds.
#[derive(Debug)]
pub struct AdvancedChainConfig {
    /// Maximum range per log query, chosen for the configured providers.
    pub maximum_log_range: u64,
    /// Maximum canonical rewind search.
    pub reorg_rescan_blocks: u64,
    /// Transaction-inclusion opportunity policy.
    pub block_opportunity_policy: BlockOpportunityPolicy,
}

/// Raw application configuration after merging the strict normal/advanced envelope.
#[derive(Debug)]
pub struct AppConfig {
    /// Configuration schema version.
    pub schema_version: u32,
    /// Process settings.
    pub node: NodeConfig,
    /// Chain and provider settings.
    pub chain: ChainConfig,
    /// Atomic snapshot policy.
    pub snapshot: SnapshotConfig,
    /// Execution timing and gas policy.
    pub execution: ExecutionConfig,
    /// Bounded solver limits.
    pub solver: SolverConfig,
    /// Strategy thresholds.
    pub strategy: StrategyConfig,
    /// Restricted signer configuration.
    pub signing: SigningConfig,
    /// Operator alert transports.
    pub alerts: AlertConfig,
    /// Per-vault configuration.
    pub vault: Vec<VaultConfig>,
}

/// Raw process settings.
#[derive(Debug)]
pub struct NodeConfig {
    /// Stable instance identity.
    pub instance_id: String,
    /// Runtime capability mode.
    pub mode: RuntimeMode,
    /// Durable state directory.
    pub data_dir: String,
    /// Full exact reconciliation cadence.
    pub full_reconciliation_interval: Duration,
    /// Full topology reconciliation cadence.
    pub topology_reconciliation_interval: Duration,
}

/// Raw chain configuration.
#[derive(Debug)]
pub struct ChainConfig {
    /// Human-readable chain name.
    pub name: String,
    /// EVM chain ID.
    pub chain_id: u64,
    /// Morpho singleton address.
    pub morpho_blue: String,
    /// Multicall3 address.
    pub multicall3: String,
    /// Expected Multicall3 runtime code hash.
    pub expected_multicall3_code_hash: String,
    /// First block included in topology replay.
    pub event_start_block: u64,
    /// Maximum range per log query.
    pub maximum_log_range: u64,
    /// Maximum canonical rewind search.
    pub reorg_rescan_blocks: u64,
    /// Configured transaction-inclusion opportunity policy.
    pub block_opportunity_policy: BlockOpportunityPolicy,
    /// Role-scoped RPC references.
    pub rpc: Vec<RpcConfig>,
}

/// Raw RPC provider reference. The endpoint itself remains in the environment.
#[derive(Debug)]
pub struct RpcConfig {
    /// Stable provider name.
    pub name: String,
    /// Environment variable containing the endpoint.
    pub url_env: String,
    /// Optional environment variable containing a WebSocket endpoint used for head hints.
    pub websocket_url_env: Option<String>,
    /// Allowed provider roles.
    pub roles: Vec<RpcRole>,
    /// Whether the deployment owner treats the endpoint as production-grade.
    pub production_grade: bool,
    /// Whether WebSocket subscriptions are supported.
    pub supports_websocket: bool,
    /// Whether historical state reads are supported.
    pub supports_historical_state: bool,
}

/// Raw exact-snapshot policy.
#[derive(Debug)]
pub struct SnapshotConfig {
    /// Snapshot implementation.
    pub mode: SnapshotMode,
    /// Require the strongest available signing context.
    pub strict_signing_context: bool,
    /// Maximum background snapshot age in canonical blocks.
    pub maximum_background_snapshot_age_blocks: u64,
    /// Maximum signing snapshot age in canonical blocks.
    pub maximum_signing_snapshot_age_blocks: u64,
    /// Bounded snapshot retries.
    pub maximum_snapshot_retries: u32,
    /// Maximum allowed lag of the Solidity-visible timestamp behind the canonical RPC header.
    pub maximum_evm_timestamp_lag_seconds: u64,
    /// Maximum snapshot-to-sign delay.
    pub maximum_snapshot_to_sign_latency: Duration,
    /// Maximum sign-to-broadcast delay.
    pub maximum_sign_to_broadcast_latency: Duration,
}

/// Raw execution and transaction-lifecycle policy.
#[derive(Debug)]
pub struct ExecutionConfig {
    /// Expected inclusion in configured opportunities.
    pub expected_inclusion_opportunities: u64,
    /// Maximum inclusion in configured opportunities.
    pub maximum_inclusion_opportunities: u64,
    /// Rate-plan pending horizon.
    pub maximum_rate_rebalance_pending_opportunities: u64,
    /// Capital-plan pending horizon.
    pub maximum_capital_deployment_pending_opportunities: u64,
    /// Liquidity-plan pending horizon.
    pub maximum_liquidity_maintenance_pending_opportunities: u64,
    /// Delay before rebroadcasting byte-identical durable signed bytes.
    pub identical_rebroadcast_after_opportunities: u64,
    /// Replacement delay in configured opportunities.
    pub replacement_after_opportunities: u64,
    /// Cancellation threshold in remaining configured opportunities.
    pub cancel_when_opportunities_remaining: u64,
    /// Receipt confirmation depth in EVM blocks.
    pub receipt_confirmation_evm_blocks: u64,
    /// Maximum Vault V2 actions per transaction.
    pub maximum_actions: usize,
    /// Maximum signed transaction gas.
    pub maximum_signed_transaction_gas: u64,
    /// Gas estimate headroom in basis points.
    pub gas_headroom_bps: u32,
    /// Maximum fee per gas in wei.
    pub maximum_fee_per_gas_wei: String,
    /// Maximum rolling daily gas expenditure in wei.
    pub maximum_daily_gas_spend_wei: String,
}

/// Raw bounded solver policy.
#[derive(Debug)]
pub struct SolverConfig {
    /// Maximum evaluated nodes per optimization pass.
    pub maximum_nodes: u64,
    /// Maximum amount candidates per position.
    pub maximum_amount_candidates_per_position: usize,
    /// Maximum source subsets.
    pub maximum_source_sets: usize,
    /// Maximum destination subsets.
    pub maximum_destination_sets: usize,
    /// Emergency incomplete rate solver; forbidden in release-one Execute.
    pub allow_incomplete_rate_solver: bool,
}

/// Raw strategy thresholds.
#[derive(Debug)]
pub struct StrategyConfig {
    /// Optimization objective.
    pub objective: StrategyObjective,
    /// Episode entry spread in simple APR basis points.
    pub entry_spread_apr_bps: u32,
    /// Target spread in simple APR basis points.
    pub target_spread_apr_bps: u32,
    /// Integer-rounding tolerance above the target spread.
    pub target_tolerance_apr_bps: u32,
    /// Utilization-strategy entry spread in utilization basis points.
    pub utilization_entry_spread_bps: u32,
    /// Utilization-strategy target spread in utilization basis points.
    pub utilization_target_spread_bps: u32,
    /// Integer tolerance above the utilization target, in basis points.
    pub utilization_target_tolerance_bps: u32,
    /// Minimum improvement required from a utilization plan, in basis points.
    pub utilization_minimum_improvement_bps: u32,
    /// Allowed portfolio utilization-spread worsening, in basis points.
    pub utilization_portfolio_spread_tolerance_bps: u32,
    /// Required portfolio improvement.
    pub minimum_portfolio_improvement_apr_bps: u32,
    /// Required controllable-set improvement.
    pub minimum_controllable_improvement_apr_bps: u32,
    /// Portfolio comparison tolerance.
    pub portfolio_spread_tolerance_apr_bps: u32,
    /// Short confirmation in configured opportunities.
    pub confirmation_opportunities: u64,
    /// Per-plan share of the solver's full optimal movement, in basis points.
    pub immediate_tranche_bps: u32,
    /// Persistent confirmation duration.
    pub persistent_confirmation_duration: Duration,
    /// Required independent borrower-side events.
    pub minimum_independent_rate_events: u32,
    /// Minimum span between independent events.
    pub minimum_independent_event_span: Duration,
    /// Minimum independent event borrow-rate impact.
    pub minimum_independent_event_rate_impact_apr_bps: u32,
    /// Minimum independent event utilization impact, in basis points.
    pub minimum_independent_event_utilization_impact_bps: u32,
    /// Maximum rate episode lifetime.
    pub maximum_rate_episode_duration: Duration,
    /// Release-one emergency bypass; forbidden in Execute.
    pub extreme_spread_bypass_enabled: bool,
    /// Existing-shareholder value horizon.
    pub benefit_horizon: Duration,
    /// Maximum rolling daily transactions.
    pub maximum_daily_transactions: u32,
    /// Top-K APY diversification and mandatory periodic refresh policy.
    pub top_k_apy: TopKApyConfig,
}

/// Restricted signer configuration. Neither variant accepts calldata.
#[derive(Debug)]
pub enum SigningConfig {
    /// Authenticated production remote signer.
    RemoteSigner {
        /// Environment variable containing the endpoint.
        endpoint_env: String,
    },
    /// Local test-only signer.
    LocalDevelopment {
        /// Environment variable containing the test key.
        private_key_env: String,
        /// Exact chain ID explicitly authorized for test Execute mode.
        execute_chain_id: Option<u64>,
    },
}

/// Raw alert configuration.
#[derive(Debug)]
pub struct AlertConfig {
    /// Telegram transport.
    pub telegram: TelegramConfig,
    /// PagerDuty transport.
    pub pagerduty: PagerDutyConfig,
}

/// Raw Telegram reference configuration.
#[derive(Debug)]
pub struct TelegramConfig {
    /// Enables Telegram delivery.
    pub enabled: bool,
    /// Environment variable containing the bot token.
    pub bot_token_env: String,
    /// Destination chat identifier.
    pub chat_id: String,
    /// Optional topic/thread identifier.
    pub message_thread_id: Option<i64>,
}

/// Raw PagerDuty reference configuration.
#[derive(Debug)]
pub struct PagerDutyConfig {
    /// Enables PagerDuty delivery.
    pub enabled: bool,
    /// Environment variable containing the integration key.
    pub integration_key_env: String,
}

/// Raw vault-scoped risk and topology configuration.
#[derive(Debug)]
pub struct VaultConfig {
    /// Stable operator name.
    pub name: String,
    /// Vault address.
    pub address: String,
    /// Vault asset token.
    pub asset: String,
    /// Expected asset decimals.
    pub asset_decimals: u8,
    /// Expected vault runtime code hash.
    pub expected_vault_code_hash: String,
    /// Vault deployment block.
    pub deployment_block: u64,
    /// Dedicated allocator signer address.
    pub signer_address: String,
    /// Vault-scoped routine strategy selection.
    pub strategy: VaultStrategy,
    /// Require no routine idle balance after service constraints and locks.
    pub strict_zero_routine_idle: bool,
    /// Minimum action amount.
    pub minimum_action_assets: String,
    /// Maximum allowed rounding dust.
    pub maximum_rounding_dust_assets: String,
    /// Maximum action-local loss.
    pub maximum_immediate_rebalance_loss_assets: String,
    /// Maximum terminal-value sacrifice.
    pub maximum_terminal_value_sacrifice_assets: String,
    /// Minimum active positions after economic exit.
    pub minimum_active_positions_after_economic_exit: usize,
    /// Hourly movement bound.
    pub maximum_movement_per_hour_assets: String,
    /// Daily movement bound.
    pub maximum_movement_per_day_assets: String,
    /// Minimum independent-event asset amount.
    pub minimum_independent_event_assets: String,
    /// Required atomic exit coverage.
    pub minimum_atomic_exit_coverage_assets: String,
    /// Liquidity-adapter floor.
    pub minimum_liquidity_adapter_assets: String,
    /// Required native deposit headroom.
    pub minimum_deposit_headroom_assets: String,
    /// Explicit deposit-headroom search bound.
    pub deposit_headroom_search_upper_bound_assets: String,
    /// Source token-liquidity floor.
    pub minimum_source_token_liquidity_assets: String,
    /// Require operator authorization before manual lock clearance.
    pub lock_operator_clearance_required: bool,
    /// Fail closed on unattributed idle assets.
    pub unattributed_idle_fail_closed: bool,
    /// Require a supported nonzero liquidity adapter.
    pub require_supported_nonzero_liquidity_adapter: bool,
    /// Require all four gates to be zero.
    pub require_zero_gates: bool,
    /// Required parent dead-share address.
    pub required_vault_dead_address: String,
    /// Minimum direct-market dead supply shares.
    pub minimum_market_dead_supply_shares: String,
    /// Static allocator allowlist.
    pub approved_allocators: Vec<String>,
    /// Static sentinel allowlist.
    pub approved_sentinels: Vec<String>,
    /// Release-one rate groups; exactly one is required.
    pub rate_group: Vec<RateGroupConfig>,
    /// Configured direct adapters.
    pub adapter: Vec<AdapterConfig>,
    /// Optional supported liquidity-only adapter profile.
    pub liquidity_adapter: Option<LiquidityAdapterConfig>,
    /// Configured direct positions.
    pub position: Vec<PositionConfig>,
}

/// Raw rate-group bounds.
#[derive(Debug)]
pub struct RateGroupConfig {
    /// Stable rate-group name.
    pub name: String,
    /// Minimum group assets.
    pub minimum_assets: String,
    /// Target group assets.
    pub target_assets: String,
    /// Maximum group assets.
    pub maximum_assets: String,
    /// Whether assets may move across rate groups.
    pub allow_cross_group_movement: bool,
}

/// Raw configured liquidity-only adapter.
#[derive(Debug)]
pub struct LiquidityAdapterConfig {
    /// Adapter address; must equal the parent vault's live liquidity adapter.
    pub address: String,
    /// Narrow behavior profile.
    pub kind: LiquidityAdapterKind,
    /// Expected adapter runtime code hash.
    pub expected_code_hash: String,
    /// Wrapped MetaMorpho V1 vault.
    pub morpho_vault_v1: String,
    /// Expected wrapped vault runtime code hash.
    pub expected_morpho_vault_v1_code_hash: String,
    /// Per-action movement bound for this liquidity path.
    pub maximum_action_assets: String,
}

/// Raw configured direct adapter.
#[derive(Debug)]
pub struct AdapterConfig {
    /// Adapter address.
    pub address: String,
    /// Adapter behavior profile.
    pub kind: AdapterKind,
    /// Expected runtime code hash.
    pub expected_code_hash: String,
    /// Maximum discovered current markets.
    pub maximum_markets: usize,
}

/// Raw configured direct market position.
#[derive(Debug)]
pub struct PositionConfig {
    /// Owning adapter.
    pub adapter: String,
    /// Loan token; must equal the vault asset.
    pub loan_token: String,
    /// Collateral token.
    pub collateral_token: String,
    /// Oracle.
    pub oracle: String,
    /// IRM; checked against adapter immutables at startup.
    pub irm: String,
    /// LLTV WAD.
    pub lltv: String,
    /// Operator-supplied market ID checked against exact derivation.
    pub market_id: String,
    /// Movement mode.
    pub mode: MarketMode,
    /// Release-one rate group name.
    pub rate_group: String,
    /// Position minimum assets.
    pub minimum_position_assets: String,
    /// Position maximum assets.
    pub maximum_position_assets: String,
    /// Source-local liquidity floor.
    pub minimum_source_liquidity_assets: String,
    /// Maximum source utilization WAD.
    pub maximum_source_utilization_wad: String,
    /// Relevance entry hysteresis.
    pub minimum_relevance_entry_assets: String,
    /// Relevance exit hysteresis.
    pub minimum_relevance_exit_assets: String,
    /// Minimum market supply for rate relevance.
    pub minimum_rate_relevant_market_supply_assets: String,
    /// Minimum market borrow for rate relevance.
    pub minimum_rate_relevant_market_borrow_assets: String,
    /// Destination market supply seed.
    pub minimum_destination_market_supply_assets: String,
    /// Destination market supply-share seed.
    pub minimum_destination_market_supply_shares: String,
    /// Position-local action bound.
    pub maximum_action_assets: String,
    /// Whether an active position may be fully exited.
    pub allow_active_complete_exit: bool,
    /// Full-exit dust threshold.
    pub complete_exit_dust_threshold_assets: String,
    /// Explicit reward policy.
    pub reward_policy: RewardPolicy,
}

impl ConfigDocument {
    /// The application configuration that the two halves of the envelope make up.
    pub open spec fn merged(self) -> AppConfig {
        AppConfig {
            schema_version: self.schema_version,
            node: NodeConfig {
                instance_id: self.normal.node.instance_id,
                mode: self.normal.node.mode,
                data_dir: self.normal.node.data_dir,
                full_reconciliation_interval: self.advanced.node.full_reconciliation_interval,
                topology_reconciliation_interval:
                    self.advanced.node.topology_reconciliation_interval,
            },
            chain: ChainConfig {
                name: self.normal.chain.name,
                chain_id: self.normal.chain.chain_id,
                morpho_blue: self.normal.chain.morpho_blue,
                multicall3: self.normal.chain.multicall3,
                expected_multicall3_code_hash: self.normal.chain.expected_multicall3_code_hash,
                event_start_block: self.normal.chain.event_start_block,
                maximum_log_range: self.advanced.chain.maximum_log_range,
                reorg_rescan_blocks: self.advanced.chain.reorg_rescan_blocks,
                block_opportunity_policy: self.advanced.chain.block_opportunity_policy,
                rpc: self.normal.chain.rpc,
            },
            snapshot: self.advanced.snapshot,
            execution: self.advanced.execution,
            solver: self.advanced.solver,
            strategy: self.advanced.strategy,
            signing: self.normal.signing,
            alerts: self.normal.alerts,
            vault: self.normal.vault,
        }
    }

    /// Merges the normal and advanced halves of the envelope.
    pub fn into_app_config(self) -> (r: AppConfig)
        ensures
            r == self.merged(),
    {
        let NormalConfig { node, chain, signing, alerts, vault } = self.normal;
        AppConfig {
            schema_version: self.schema_version,
            node: NodeConfig {
                instance_id: node.instance_id,
                mode: node.mode,
                data_dir: node.data_dir,
                full_reconciliation_interval: self.advanced.node.full_reconciliation_interval,
                topology_reconciliation_interval:
                    self.advanced.node.topology_reconciliation_interval,
            },
            chain: ChainConfig {
                name: chain.name,
                chain_id: chain.chain_id,
                morpho_blue: chain.morpho_blue,
                multicall3: chain.multicall3,
                expected_multicall3_code_hash: chain.expected_multicall3_code_hash,
                event_start_block: chain.event_start_block,
                maximum_log_range: self.advanced.chain.maximum_log_range,
                reorg_rescan_blocks: self.advanced.chain.reorg_rescan_blocks,
                block_opportunity_policy: self.advanced.chain.block_opportunity_policy,
                rpc: chain.rpc,
            },
            snapshot: self.advanced.snapshot,
            execution: self.advanced.execution,
            solver: self.advanced.solver,
            strategy: self.advanced.strategy,
            signing,
            alerts,
            vault,
        }
    }
}

/// What a signer reference holds.
pub ghost enum SigningView {
    /// Remote signer endpoint environment.
    RemoteSigner {
        /// Endpoint environment variable.
        endpoint_env: Seq<char>,
    },
    /// Local test signer.
    LocalDevelopment {
        /// Test key environment variable.
        private_key_env: Seq<char>,
        /// Authorized chain ID.
        execute_chain_id: Option<u64>,
    },
}

impl View for SigningConfig {
    type V = SigningView;

    open spec fn view(&self) -> SigningView {
        match *self {
            SigningConfig::RemoteSigner { endpoint_env } => SigningView::RemoteSigner {
                endpoint_env: endpoint_env@,
            },
            SigningConfig::LocalDevelopment { private_key_env, execute_chain_id } => {
                SigningView::LocalDevelopment {
                    private_key_env: private_key_env@,
                    execute_chain_id,
                }
            },
        }
    }
}

/// What a Telegram reference holds.
pub ghost struct TelegramView {
    /// Enables Telegram delivery.
    pub enabled: bool,
    /// Environment variable containing the bot token.
    pub bot_token_env: Seq<char>,
    /// Destination chat identifier.
    pub chat_id: Seq<char>,
    /// Optional topic/thread identifier.
    pub message_thread_id: Option<i64>,
}

impl View for TelegramConfig {
    type V = TelegramView;

    open spec fn view(&self) -> TelegramView {
        TelegramView {
            enabled: self.enabled,
            bot_token_env: self.bot_token_env@,
            chat_id: self.chat_id@,
            message_thread_id: self.message_thread_id,
        }
    }
}

/// What a PagerDuty reference holds.
pub ghost struct PagerDutyView {
    /// Enables PagerDuty delivery.
    pub enabled: bool,
    /// Environment variable containing the integration key.
    pub integration_key_env: Seq<char>,
}

impl View for PagerDutyConfig {
    type V = PagerDutyView;

    open spec fn view(&self) -> PagerDutyView {
        PagerDutyView {
            enabled: self.enabled,
            integration_key_env: self.integration_key_env@,
        }
    }
}

} // verus!
