//! Configuration parsing, exact unit conversion, and fail-closed validation.

use vstd::prelude::*;

use crate::domain::{
    AdapterAddress, MarketId, MarketMode, MarketParams, PositionKey, RateGroupId, RatePerSecond,
    RewardPolicy, TokenAddress, VaultAddress,
};
use crate::collections::OrderedKey;
use crate::primitives::{sum, u256, word_modulus, Address, B256, U256};

pub mod laws;
pub mod policy;
pub mod raw;
pub mod text;
pub mod top_k;
pub mod units;
pub mod validate;
pub mod vault;

pub use raw::{
    AdapterConfig, AlertConfig, AppConfig, ChainConfig, ExecutionConfig, LiquidityAdapterConfig,
    NodeConfig, PagerDutyConfig, PositionConfig, RateGroupConfig, RpcConfig, SigningConfig,
    SnapshotConfig, SolverConfig, StrategyConfig, TelegramConfig, VaultConfig,
};
pub use text::{ConfigError, Duration};
pub use top_k::{TopKApyConfig, ValidatedTopKApyConfig};
pub use units::{
    apr_bps_to_rate_per_second_down, apr_bps_to_rate_per_second_up, utilization_bps_to_wad,
};

pub use validate::config_revision;

use raw::{PagerDutyView, SigningView, TelegramView};
use top_k::TopKPolicyView;

verus! {

/// Configuration schema supported by this binary.
pub const CONFIG_SCHEMA_VERSION: u32 = 6;

/// Exact simple-APR time basis in seconds.
pub const SECONDS_PER_YEAR: u64 = 31_536_000;

/// Exact fixed-point scale.
pub const WAD: u64 = 1_000_000_000_000_000_000;

/// Runtime mode.
#[derive(Clone, Copy, Debug, PartialEq, Eq, Structural)]
pub enum RuntimeMode {
    /// Read and report only.
    Observe,
    /// Build, validate, and simulate plans without signing.
    Shadow,
    /// Sign only after all readiness gates pass.
    Execute,
}

/// Chain-specific policy for measuring transaction-inclusion opportunities.
#[derive(Clone, Copy, Debug, PartialEq, Eq, Structural)]
pub enum BlockOpportunityPolicy {
    /// Every canonical EVM block is an eligible inclusion opportunity.
    EveryCanonicalBlock,
    /// Only HyperEVM fast blocks are eligible; the signer must be opted out of big blocks.
    HyperEvmFastBlocks {
        /// Exact gas limit identifying a fast block.
        gas_limit: u64,
    },
}

impl BlockOpportunityPolicy {
    /// Optional block gas limit used to count eligible canonical opportunities.
    pub fn required_gas_limit(self) -> (r: Option<u64>)
        ensures
            r == (match self {
                BlockOpportunityPolicy::EveryCanonicalBlock => None::<u64>,
                BlockOpportunityPolicy::HyperEvmFastBlocks { gas_limit } => Some(gas_limit),
            }),
    {
        match self {
            BlockOpportunityPolicy::EveryCanonicalBlock => None,
            BlockOpportunityPolicy::HyperEvmFastBlocks { gas_limit } => Some(gas_limit),
        }
    }

    /// Whether final preflight must query HyperEVM's signer lane state.
    pub fn requires_hyper_evm_signer_lane_check(self) -> (r: bool)
        ensures
            r == (self is HyperEvmFastBlocks),
    {
        match self {
            BlockOpportunityPolicy::EveryCanonicalBlock => false,
            BlockOpportunityPolicy::HyperEvmFastBlocks { .. } => true,
        }
    }
}

/// RPC provider role.
#[derive(Clone, Copy, Debug, PartialEq, Eq, Structural)]
pub enum RpcRole {
    /// Canonical head polling.
    Head,
    /// Canonical logs.
    Logs,
    /// Exact state reads.
    Read,
    /// `eth_call` simulation.
    Simulate,
    /// Raw signed transaction submission.
    Submit,
    /// Independent canonical checkpoint.
    Checkpoint,
    /// Receipt reads.
    Receipt,
}

/// Snapshot implementation mode.
#[derive(Clone, Copy, Debug, PartialEq, Eq, Structural)]
pub enum SnapshotMode {
    /// State calls are pinned to one canonical EIP-1898 block hash.
    PinnedBlock,
    /// Atomic latest-head reads with header matching.
    AtomicLatest,
}

/// Supported spread-equalization objective.
#[derive(Clone, Copy, Debug, PartialEq, Eq, Structural)]
pub enum StrategyObjective {
    /// Minimize configured spot borrow-rate spread.
    SpotBorrowRateSpread,
    /// Minimize configured Morpho market utilization spread.
    UtilizationSpread,
}

/// Vault-scoped routine allocation strategy.
#[derive(Clone, Copy, Debug, PartialEq, Eq, Structural)]
pub enum VaultStrategy {
    /// Use the configured spot-rate or utilization spread objective.
    SpreadEqualization,
    /// Diversify direct capital across the best conservative native-supply-yield markets.
    TopKApyDiversified,
}

/// Supported adapter kind.
#[derive(Clone, Copy, Debug, PartialEq, Eq, Structural)]
pub enum AdapterKind {
    /// Direct Morpho Market V1 Adapter V2.
    MorphoMarketV1AdapterV2,
}

/// Supported liquidity-adapter behavior profile.
#[derive(Clone, Copy, Debug, PartialEq, Eq, Structural)]
pub enum LiquidityAdapterKind {
    /// Morpho Vault V1 adapter wrapping a single canonical zero-rate idle market.
    MorphoVaultV1Idle,
}

/// Canonical bounded solver policy.
#[derive(Clone, Copy, Debug, PartialEq, Eq, Structural)]
pub struct SolverConfigCanonical {
    /// Maximum nodes per optimization pass.
    pub maximum_nodes: u64,
    /// Amount candidates per position.
    pub maximum_amount_candidates_per_position: usize,
    /// Source set bound.
    pub maximum_source_sets: usize,
    /// Destination set bound.
    pub maximum_destination_sets: usize,
    /// Incomplete rate search policy.
    pub allow_incomplete_rate_solver: bool,
}

/// Canonical strategy policy with separate exact rate and utilization WAD domains.
#[derive(Debug)]
pub struct ValidatedStrategyConfig {
    /// Objective.
    pub objective: StrategyObjective,
    /// Lower-bound entry rate rounded up.
    pub entry_spread_rate_per_second: RatePerSecond,
    /// Upper-bound target rate rounded down.
    pub target_spread_rate_per_second: RatePerSecond,
    /// Convergence tolerance rounded down.
    pub target_tolerance_rate_per_second: RatePerSecond,
    /// Utilization-strategy entry spread in WAD units.
    pub utilization_entry_spread_wad: U256,
    /// Utilization-strategy target spread in WAD units.
    pub utilization_target_spread_wad: U256,
    /// Utilization-strategy target tolerance in WAD units.
    pub utilization_target_tolerance_wad: U256,
    /// Utilization-strategy minimum improvement in WAD units.
    pub utilization_minimum_improvement_wad: U256,
    /// Utilization-strategy portfolio tolerance in WAD units.
    pub utilization_portfolio_spread_tolerance_wad: U256,
    /// Minimum portfolio improvement rounded up.
    pub minimum_portfolio_improvement_rate_per_second: RatePerSecond,
    /// Minimum controllable improvement rounded up.
    pub minimum_controllable_improvement_rate_per_second: RatePerSecond,
    /// Portfolio tolerance rounded down.
    pub portfolio_spread_tolerance_rate_per_second: RatePerSecond,
    /// Fast-block confirmation count.
    pub confirmation_opportunities: u64,
    /// Per-plan share of the full optimal movement, in basis points.
    pub immediate_tranche_bps: u32,
    /// Persistent confirmation milliseconds.
    pub persistent_confirmation_duration_millis: u128,
    /// Independent event count.
    pub minimum_independent_rate_events: u32,
    /// Independent event span milliseconds.
    pub minimum_independent_event_span_millis: u128,
    /// Minimum event impact rounded up.
    pub minimum_independent_event_rate_impact: RatePerSecond,
    /// Minimum independent event utilization impact in WAD units.
    pub minimum_independent_event_utilization_impact_wad: U256,
    /// Episode duration milliseconds.
    pub maximum_rate_episode_duration_millis: u128,
    /// Extreme bypass policy.
    pub extreme_spread_bypass_enabled: bool,
    /// Benefit horizon seconds.
    pub benefit_horizon_seconds: u64,
    /// Daily transaction bound.
    pub maximum_daily_transactions: u32,
    /// Exact validated top-K APY policy.
    pub top_k_apy: ValidatedTopKApyConfig,
}

impl ValidatedStrategyConfig {
    /// Entry threshold of the selected objective.
    pub open spec fn entry_spread_spec(&self) -> U256 {
        match self.objective {
            StrategyObjective::SpotBorrowRateSpread => self.entry_spread_rate_per_second.0,
            StrategyObjective::UtilizationSpread => self.utilization_entry_spread_wad,
        }
    }

    /// Entry threshold in the selected objective's native WAD domain.
    pub fn entry_spread(&self) -> (r: U256)
        ensures
            r == self.entry_spread_spec(),
    {
        match self.objective {
            StrategyObjective::SpotBorrowRateSpread => self.entry_spread_rate_per_second.0,
            StrategyObjective::UtilizationSpread => self.utilization_entry_spread_wad,
        }
    }

    /// Target threshold of the selected objective.
    pub open spec fn target_spread_spec(&self) -> U256 {
        match self.objective {
            StrategyObjective::SpotBorrowRateSpread => self.target_spread_rate_per_second.0,
            StrategyObjective::UtilizationSpread => self.utilization_target_spread_wad,
        }
    }

    /// Target threshold in the selected objective's native WAD domain.
    pub fn target_spread(&self) -> (r: U256)
        ensures
            r == self.target_spread_spec(),
    {
        match self.objective {
            StrategyObjective::SpotBorrowRateSpread => self.target_spread_rate_per_second.0,
            StrategyObjective::UtilizationSpread => self.utilization_target_spread_wad,
        }
    }

    /// Target tolerance of the selected objective.
    pub open spec fn target_tolerance_spec(&self) -> U256 {
        match self.objective {
            StrategyObjective::SpotBorrowRateSpread => self.target_tolerance_rate_per_second.0,
            StrategyObjective::UtilizationSpread => self.utilization_target_tolerance_wad,
        }
    }

    /// Target tolerance in the selected objective's native WAD domain.
    pub fn target_tolerance(&self) -> (r: U256)
        ensures
            r == self.target_tolerance_spec(),
    {
        match self.objective {
            StrategyObjective::SpotBorrowRateSpread => self.target_tolerance_rate_per_second.0,
            StrategyObjective::UtilizationSpread => self.utilization_target_tolerance_wad,
        }
    }

    /// Minimum accepted improvement of a branch.
    pub open spec fn minimum_improvement_spec(&self, portfolio: bool) -> U256 {
        match self.objective {
            StrategyObjective::SpotBorrowRateSpread => if portfolio {
                self.minimum_portfolio_improvement_rate_per_second.0
            } else {
                self.minimum_controllable_improvement_rate_per_second.0
            },
            StrategyObjective::UtilizationSpread => self.utilization_minimum_improvement_wad,
        }
    }

    /// Minimum accepted improvement for either frozen objective branch.
    pub fn minimum_improvement(&self, portfolio: bool) -> (r: U256)
        ensures
            r == self.minimum_improvement_spec(portfolio),
    {
        match self.objective {
            StrategyObjective::SpotBorrowRateSpread => {
                if portfolio {
                    self.minimum_portfolio_improvement_rate_per_second.0
                } else {
                    self.minimum_controllable_improvement_rate_per_second.0
                }
            },
            StrategyObjective::UtilizationSpread => self.utilization_minimum_improvement_wad,
        }
    }

    /// Allowed portfolio spread worsening of the selected objective.
    pub open spec fn portfolio_spread_tolerance_spec(&self) -> U256 {
        match self.objective {
            StrategyObjective::SpotBorrowRateSpread => {
                self.portfolio_spread_tolerance_rate_per_second.0
            },
            StrategyObjective::UtilizationSpread => self.utilization_portfolio_spread_tolerance_wad,
        }
    }

    /// Allowed portfolio spread worsening in the selected objective domain.
    pub fn portfolio_spread_tolerance(&self) -> (r: U256)
        ensures
            r == self.portfolio_spread_tolerance_spec(),
    {
        match self.objective {
            StrategyObjective::SpotBorrowRateSpread => {
                self.portfolio_spread_tolerance_rate_per_second.0
            },
            StrategyObjective::UtilizationSpread => self.utilization_portfolio_spread_tolerance_wad,
        }
    }

    /// Minimum independent-event impact of the selected objective.
    pub open spec fn minimum_independent_event_impact_spec(&self) -> U256 {
        match self.objective {
            StrategyObjective::SpotBorrowRateSpread => self.minimum_independent_event_rate_impact.0,
            StrategyObjective::UtilizationSpread => {
                self.minimum_independent_event_utilization_impact_wad
            },
        }
    }

    /// Minimum independent-event impact in the selected objective domain.
    pub fn minimum_independent_event_impact(&self) -> (r: U256)
        ensures
            r == self.minimum_independent_event_impact_spec(),
    {
        match self.objective {
            StrategyObjective::SpotBorrowRateSpread => self.minimum_independent_event_rate_impact.0,
            StrategyObjective::UtilizationSpread => {
                self.minimum_independent_event_utilization_impact_wad
            },
        }
    }

    /// Target plus tolerance, clamped to the largest word.
    pub open spec fn convergence_spread_spec(&self) -> U256 {
        match sum(self.target_spread_spec(), self.target_tolerance_spec()) {
            Some(value) => value,
            None => u256((word_modulus() - 1) as nat),
        }
    }

    /// Inclusive convergence threshold in the selected objective domain.
    pub fn convergence_spread(&self) -> (r: U256)
        ensures
            r == self.convergence_spread_spec(),
    {
        match self.target_spread().checked_add(self.target_tolerance()) {
            Some(value) => value,
            None => U256::max_value(),
        }
    }
}

/// Canonical rate-group bounds.
#[derive(Debug)]
pub struct ValidatedRateGroupConfig {
    /// Group name.
    pub name: String,
    /// Derived group ID.
    pub id: RateGroupId,
    /// Minimum assets.
    pub minimum_assets: U256,
    /// Target assets.
    pub target_assets: U256,
    /// Maximum assets.
    pub maximum_assets: U256,
    /// Cross-group policy.
    pub allow_cross_group_movement: bool,
}

/// Canonical direct-adapter configuration.
#[derive(Clone, Copy, Debug, PartialEq, Eq, Structural)]
pub struct ValidatedAdapterConfig {
    /// Adapter address.
    pub address: AdapterAddress,
    /// Adapter behavior profile.
    pub kind: AdapterKind,
    /// Expected runtime hash.
    pub expected_code_hash: B256,
    /// Market-count bound.
    pub maximum_markets: usize,
}

/// Canonical liquidity-only adapter configuration.
#[derive(Clone, Copy, Debug, PartialEq, Eq, Structural)]
pub struct ValidatedLiquidityAdapterConfig {
    /// Stable synthetic action key used by the closed transaction grammar.
    pub position_key: PositionKey,
    /// Adapter address.
    pub address: AdapterAddress,
    /// Narrow behavior profile.
    pub kind: LiquidityAdapterKind,
    /// Expected adapter runtime hash.
    pub expected_code_hash: B256,
    /// Wrapped MetaMorpho V1 vault.
    pub morpho_vault_v1: Address,
    /// Expected wrapped vault runtime hash.
    pub expected_morpho_vault_v1_code_hash: B256,
    /// Per-action movement bound.
    pub maximum_action_assets: U256,
}

/// Canonical direct-position configuration.
#[derive(Clone, Copy, Debug, PartialEq, Eq, Structural)]
pub struct ValidatedPositionConfig {
    /// Derived position key.
    pub position_key: PositionKey,
    /// Adapter.
    pub adapter: AdapterAddress,
    /// Canonical market parameters.
    pub market_params: MarketParams,
    /// Derived and verified market ID.
    pub market_id: MarketId,
    /// Movement mode.
    pub mode: MarketMode,
    /// Derived rate-group ID.
    pub rate_group: RateGroupId,
    /// Position minimum.
    pub minimum_position_assets: U256,
    /// Position maximum.
    pub maximum_position_assets: U256,
    /// Source liquidity floor.
    pub minimum_source_liquidity_assets: U256,
    /// Source utilization bound.
    pub maximum_source_utilization_wad: U256,
    /// Relevance entry threshold.
    pub minimum_relevance_entry_assets: U256,
    /// Relevance exit threshold.
    pub minimum_relevance_exit_assets: U256,
    /// Rate-relevant supply floor.
    pub minimum_rate_relevant_market_supply_assets: U256,
    /// Rate-relevant borrow floor.
    pub minimum_rate_relevant_market_borrow_assets: U256,
    /// Destination supply seed.
    pub minimum_destination_market_supply_assets: U256,
    /// Destination share seed.
    pub minimum_destination_market_supply_shares: U256,
    /// Position action bound.
    pub maximum_action_assets: U256,
    /// Complete-exit policy.
    pub allow_active_complete_exit: bool,
    /// Complete-exit dust threshold.
    pub complete_exit_dust_threshold_assets: U256,
    /// Explicit reward policy.
    pub reward_policy: RewardPolicy,
}

/// Canonical vault configuration.
#[derive(Debug)]
pub struct ValidatedVaultConfig {
    /// Operator name.
    pub name: String,
    /// Vault address.
    pub address: VaultAddress,
    /// Asset token.
    pub asset: TokenAddress,
    /// Asset decimals.
    pub asset_decimals: u8,
    /// Expected vault runtime hash.
    pub expected_vault_code_hash: B256,
    /// Deployment block.
    pub deployment_block: u64,
    /// Dedicated signer.
    pub signer_address: Address,
    /// Vault-scoped routine strategy.
    pub strategy: VaultStrategy,
    /// Strict routine idle policy.
    pub strict_zero_routine_idle: bool,
    /// Minimum action amount.
    pub minimum_action_assets: U256,
    /// Rounding dust bound.
    pub maximum_rounding_dust_assets: U256,
    /// Immediate loss bound.
    pub maximum_immediate_rebalance_loss_assets: U256,
    /// Terminal sacrifice bound.
    pub maximum_terminal_value_sacrifice_assets: U256,
    /// Active position floor.
    pub minimum_active_positions_after_economic_exit: usize,
    /// Hourly movement bound.
    pub maximum_movement_per_hour_assets: U256,
    /// Daily movement bound.
    pub maximum_movement_per_day_assets: U256,
    /// Independent event amount.
    pub minimum_independent_event_assets: U256,
    /// Atomic exit coverage floor.
    pub minimum_atomic_exit_coverage_assets: U256,
    /// Liquidity-adapter asset floor.
    pub minimum_liquidity_adapter_assets: U256,
    /// Deposit headroom floor.
    pub minimum_deposit_headroom_assets: U256,
    /// Deposit headroom search bound.
    pub deposit_headroom_search_upper_bound_assets: U256,
    /// Source token-liquidity floor.
    pub minimum_source_token_liquidity_assets: U256,
    /// Manual clearance policy.
    pub lock_operator_clearance_required: bool,
    /// Unattributed idle policy.
    pub unattributed_idle_fail_closed: bool,
    /// Liquidity-adapter requirement.
    pub require_supported_nonzero_liquidity_adapter: bool,
    /// Gate policy.
    pub require_zero_gates: bool,
    /// Dead-share address.
    pub required_vault_dead_address: Address,
    /// Market dead-share floor.
    pub minimum_market_dead_supply_shares: U256,
    /// Sorted allocator allowlist.
    pub approved_allocators: Vec<Address>,
    /// Sorted sentinel allowlist.
    pub approved_sentinels: Vec<Address>,
    /// Single rate group.
    pub rate_group: ValidatedRateGroupConfig,
    /// Sorted adapters.
    pub adapters: Vec<ValidatedAdapterConfig>,
    /// Optional supported liquidity-only adapter.
    pub liquidity_adapter: Option<ValidatedLiquidityAdapterConfig>,
    /// Sorted direct positions.
    pub positions: Vec<ValidatedPositionConfig>,
}

/// What a canonical strategy policy holds.
pub ghost struct StrategyView {
    /// Objective.
    pub objective: StrategyObjective,
    /// Lower-bound entry rate rounded up.
    pub entry_spread_rate_per_second: RatePerSecond,
    /// Upper-bound target rate rounded down.
    pub target_spread_rate_per_second: RatePerSecond,
    /// Convergence tolerance rounded down.
    pub target_tolerance_rate_per_second: RatePerSecond,
    /// Utilization-strategy entry spread in WAD units.
    pub utilization_entry_spread_wad: U256,
    /// Utilization-strategy target spread in WAD units.
    pub utilization_target_spread_wad: U256,
    /// Utilization-strategy target tolerance in WAD units.
    pub utilization_target_tolerance_wad: U256,
    /// Utilization-strategy minimum improvement in WAD units.
    pub utilization_minimum_improvement_wad: U256,
    /// Utilization-strategy portfolio tolerance in WAD units.
    pub utilization_portfolio_spread_tolerance_wad: U256,
    /// Minimum portfolio improvement rounded up.
    pub minimum_portfolio_improvement_rate_per_second: RatePerSecond,
    /// Minimum controllable improvement rounded up.
    pub minimum_controllable_improvement_rate_per_second: RatePerSecond,
    /// Portfolio tolerance rounded down.
    pub portfolio_spread_tolerance_rate_per_second: RatePerSecond,
    /// Fast-block confirmation count.
    pub confirmation_opportunities: u64,
    /// Per-plan share of the full optimal movement, in basis points.
    pub immediate_tranche_bps: u32,
    /// Persistent confirmation milliseconds.
    pub persistent_confirmation_duration_millis: u128,
    /// Independent event count.
    pub minimum_independent_rate_events: u32,
    /// Independent event span milliseconds.
    pub minimum_independent_event_span_millis: u128,
    /// Minimum event impact rounded up.
    pub minimum_independent_event_rate_impact: RatePerSecond,
    /// Minimum independent event utilization impact in WAD units.
    pub minimum_independent_event_utilization_impact_wad: U256,
    /// Episode duration milliseconds.
    pub maximum_rate_episode_duration_millis: u128,
    /// Extreme bypass policy.
    pub extreme_spread_bypass_enabled: bool,
    /// Benefit horizon seconds.
    pub benefit_horizon_seconds: u64,
    /// Daily transaction bound.
    pub maximum_daily_transactions: u32,
    /// Exact validated top-K APY policy.
    pub top_k_apy: TopKPolicyView,
}

impl View for ValidatedStrategyConfig {
    type V = StrategyView;

    open spec fn view(&self) -> StrategyView {
        StrategyView {
            objective: self.objective,
            entry_spread_rate_per_second: self.entry_spread_rate_per_second,
            target_spread_rate_per_second: self.target_spread_rate_per_second,
            target_tolerance_rate_per_second: self.target_tolerance_rate_per_second,
            utilization_entry_spread_wad: self.utilization_entry_spread_wad,
            utilization_target_spread_wad: self.utilization_target_spread_wad,
            utilization_target_tolerance_wad: self.utilization_target_tolerance_wad,
            utilization_minimum_improvement_wad: self.utilization_minimum_improvement_wad,
            utilization_portfolio_spread_tolerance_wad: self.utilization_portfolio_spread_tolerance_wad,
            minimum_portfolio_improvement_rate_per_second: self.minimum_portfolio_improvement_rate_per_second,
            minimum_controllable_improvement_rate_per_second: self.minimum_controllable_improvement_rate_per_second,
            portfolio_spread_tolerance_rate_per_second: self.portfolio_spread_tolerance_rate_per_second,
            confirmation_opportunities: self.confirmation_opportunities,
            immediate_tranche_bps: self.immediate_tranche_bps,
            persistent_confirmation_duration_millis: self.persistent_confirmation_duration_millis,
            minimum_independent_rate_events: self.minimum_independent_rate_events,
            minimum_independent_event_span_millis: self.minimum_independent_event_span_millis,
            minimum_independent_event_rate_impact: self.minimum_independent_event_rate_impact,
            minimum_independent_event_utilization_impact_wad: self.minimum_independent_event_utilization_impact_wad,
            maximum_rate_episode_duration_millis: self.maximum_rate_episode_duration_millis,
            extreme_spread_bypass_enabled: self.extreme_spread_bypass_enabled,
            benefit_horizon_seconds: self.benefit_horizon_seconds,
            maximum_daily_transactions: self.maximum_daily_transactions,
            top_k_apy: self.top_k_apy@,
        }
    }
}

/// What a canonical rate group holds.
pub ghost struct RateGroupView {
    /// Group name.
    pub name: Seq<char>,
    /// Derived group ID.
    pub id: RateGroupId,
    /// Minimum assets.
    pub minimum_assets: U256,
    /// Target assets.
    pub target_assets: U256,
    /// Maximum assets.
    pub maximum_assets: U256,
    /// Cross-group policy.
    pub allow_cross_group_movement: bool,
}

impl View for ValidatedRateGroupConfig {
    type V = RateGroupView;

    open spec fn view(&self) -> RateGroupView {
        RateGroupView {
            name: self.name@,
            id: self.id,
            minimum_assets: self.minimum_assets,
            target_assets: self.target_assets,
            maximum_assets: self.maximum_assets,
            allow_cross_group_movement: self.allow_cross_group_movement,
        }
    }
}

/// What a canonical vault configuration holds.
pub ghost struct VaultView {
    /// Operator name.
    pub name: Seq<char>,
    /// Vault address.
    pub address: VaultAddress,
    /// Asset token.
    pub asset: TokenAddress,
    /// Asset decimals.
    pub asset_decimals: u8,
    /// Expected vault runtime hash.
    pub expected_vault_code_hash: B256,
    /// Deployment block.
    pub deployment_block: u64,
    /// Dedicated signer.
    pub signer_address: Address,
    /// Vault-scoped routine strategy.
    pub strategy: VaultStrategy,
    /// Strict routine idle policy.
    pub strict_zero_routine_idle: bool,
    /// Minimum action amount.
    pub minimum_action_assets: U256,
    /// Rounding dust bound.
    pub maximum_rounding_dust_assets: U256,
    /// Immediate loss bound.
    pub maximum_immediate_rebalance_loss_assets: U256,
    /// Terminal sacrifice bound.
    pub maximum_terminal_value_sacrifice_assets: U256,
    /// Active position floor.
    pub minimum_active_positions_after_economic_exit: usize,
    /// Hourly movement bound.
    pub maximum_movement_per_hour_assets: U256,
    /// Daily movement bound.
    pub maximum_movement_per_day_assets: U256,
    /// Independent event amount.
    pub minimum_independent_event_assets: U256,
    /// Atomic exit coverage floor.
    pub minimum_atomic_exit_coverage_assets: U256,
    /// Liquidity-adapter asset floor.
    pub minimum_liquidity_adapter_assets: U256,
    /// Deposit headroom floor.
    pub minimum_deposit_headroom_assets: U256,
    /// Deposit headroom search bound.
    pub deposit_headroom_search_upper_bound_assets: U256,
    /// Source token-liquidity floor.
    pub minimum_source_token_liquidity_assets: U256,
    /// Manual clearance policy.
    pub lock_operator_clearance_required: bool,
    /// Unattributed idle policy.
    pub unattributed_idle_fail_closed: bool,
    /// Liquidity-adapter requirement.
    pub require_supported_nonzero_liquidity_adapter: bool,
    /// Gate policy.
    pub require_zero_gates: bool,
    /// Dead-share address.
    pub required_vault_dead_address: Address,
    /// Market dead-share floor.
    pub minimum_market_dead_supply_shares: U256,
    /// Sorted allocator allowlist.
    pub approved_allocators: Seq<Address>,
    /// Sorted sentinel allowlist.
    pub approved_sentinels: Seq<Address>,
    /// Single rate group.
    pub rate_group: RateGroupView,
    /// Sorted adapters.
    pub adapters: Seq<ValidatedAdapterConfig>,
    /// Optional supported liquidity-only adapter.
    pub liquidity_adapter: Option<ValidatedLiquidityAdapterConfig>,
    /// Sorted direct positions.
    pub positions: Seq<ValidatedPositionConfig>,
}

impl View for ValidatedVaultConfig {
    type V = VaultView;

    open spec fn view(&self) -> VaultView {
        VaultView {
            name: self.name@,
            address: self.address,
            asset: self.asset,
            asset_decimals: self.asset_decimals,
            expected_vault_code_hash: self.expected_vault_code_hash,
            deployment_block: self.deployment_block,
            signer_address: self.signer_address,
            strategy: self.strategy,
            strict_zero_routine_idle: self.strict_zero_routine_idle,
            minimum_action_assets: self.minimum_action_assets,
            maximum_rounding_dust_assets: self.maximum_rounding_dust_assets,
            maximum_immediate_rebalance_loss_assets: self.maximum_immediate_rebalance_loss_assets,
            maximum_terminal_value_sacrifice_assets: self.maximum_terminal_value_sacrifice_assets,
            minimum_active_positions_after_economic_exit: self.minimum_active_positions_after_economic_exit,
            maximum_movement_per_hour_assets: self.maximum_movement_per_hour_assets,
            maximum_movement_per_day_assets: self.maximum_movement_per_day_assets,
            minimum_independent_event_assets: self.minimum_independent_event_assets,
            minimum_atomic_exit_coverage_assets: self.minimum_atomic_exit_coverage_assets,
            minimum_liquidity_adapter_assets: self.minimum_liquidity_adapter_assets,
            minimum_deposit_headroom_assets: self.minimum_deposit_headroom_assets,
            deposit_headroom_search_upper_bound_assets: self.deposit_headroom_search_upper_bound_assets,
            minimum_source_token_liquidity_assets: self.minimum_source_token_liquidity_assets,
            lock_operator_clearance_required: self.lock_operator_clearance_required,
            unattributed_idle_fail_closed: self.unattributed_idle_fail_closed,
            require_supported_nonzero_liquidity_adapter: self.require_supported_nonzero_liquidity_adapter,
            require_zero_gates: self.require_zero_gates,
            required_vault_dead_address: self.required_vault_dead_address,
            minimum_market_dead_supply_shares: self.minimum_market_dead_supply_shares,
            approved_allocators: self.approved_allocators@,
            approved_sentinels: self.approved_sentinels@,
            rate_group: self.rate_group@,
            adapters: self.adapters@,
            liquidity_adapter: self.liquidity_adapter,
            positions: self.positions@,
        }
    }
}

/// Canonical validated process settings.
#[derive(Debug)]
pub struct ValidatedNodeConfig {
    /// Instance identity.
    pub instance_id: String,
    /// Runtime mode.
    pub mode: RuntimeMode,
    /// Durable state path.
    pub data_dir: String,
    /// Full reconciliation interval.
    pub full_reconciliation_interval_millis: u128,
    /// Topology reconciliation interval.
    pub topology_reconciliation_interval_millis: u128,
}

/// What canonical process settings holds.
pub ghost struct NodeView {
    /// Instance identity.
    pub instance_id: Seq<char>,
    /// Runtime mode.
    pub mode: RuntimeMode,
    /// Durable state path.
    pub data_dir: Seq<char>,
    /// Full reconciliation interval.
    pub full_reconciliation_interval_millis: u128,
    /// Topology reconciliation interval.
    pub topology_reconciliation_interval_millis: u128,
}

impl View for ValidatedNodeConfig {
    type V = NodeView;

    open spec fn view(&self) -> NodeView {
        NodeView {
            instance_id: self.instance_id@,
            mode: self.mode,
            data_dir: self.data_dir@,
            full_reconciliation_interval_millis: self.full_reconciliation_interval_millis,
            topology_reconciliation_interval_millis: self.topology_reconciliation_interval_millis,
        }
    }
}

/// Canonical validated RPC reference.
#[derive(Debug)]
pub struct ValidatedRpcConfig {
    /// Provider name.
    pub name: String,
    /// Endpoint environment reference.
    pub url_env: String,
    /// Optional WebSocket endpoint environment reference.
    pub websocket_url_env: Option<String>,
    /// Sorted roles.
    pub roles: Vec<RpcRole>,
    /// Production-grade policy flag.
    pub production_grade: bool,
    /// WebSocket capability expectation.
    pub supports_websocket: bool,
    /// Historical-state capability expectation.
    pub supports_historical_state: bool,
}

/// What a canonical RPC reference holds.
pub ghost struct RpcView {
    /// Provider name.
    pub name: Seq<char>,
    /// Endpoint environment reference.
    pub url_env: Seq<char>,
    /// Optional WebSocket endpoint environment reference.
    pub websocket_url_env: Option<Seq<char>>,
    /// Sorted roles.
    pub roles: Seq<RpcRole>,
    /// Production-grade policy flag.
    pub production_grade: bool,
    /// WebSocket capability expectation.
    pub supports_websocket: bool,
    /// Historical-state capability expectation.
    pub supports_historical_state: bool,
}

impl View for ValidatedRpcConfig {
    type V = RpcView;

    open spec fn view(&self) -> RpcView {
        RpcView {
            name: self.name@,
            url_env: self.url_env@,
            websocket_url_env: optional_text(self.websocket_url_env),
            roles: self.roles@,
            production_grade: self.production_grade,
            supports_websocket: self.supports_websocket,
            supports_historical_state: self.supports_historical_state,
        }
    }
}

/// Canonical validated chain settings.
#[derive(Debug)]
pub struct ValidatedChainConfig {
    /// Chain name.
    pub name: String,
    /// EVM chain ID.
    pub chain_id: u64,
    /// Morpho address.
    pub morpho_blue: Address,
    /// Multicall3 address.
    pub multicall3: Address,
    /// Multicall3 runtime hash.
    pub expected_multicall3_code_hash: B256,
    /// Event replay start.
    pub event_start_block: u64,
    /// Maximum log range.
    pub maximum_log_range: u64,
    /// Reorg rescan bound.
    pub reorg_rescan_blocks: u64,
    /// Transaction-inclusion opportunity policy.
    pub block_opportunity_policy: BlockOpportunityPolicy,
    /// Sorted provider references.
    pub rpc: Vec<ValidatedRpcConfig>,
}

/// What canonical chain settings holds.
pub ghost struct ChainView {
    /// Chain name.
    pub name: Seq<char>,
    /// EVM chain ID.
    pub chain_id: u64,
    /// Morpho address.
    pub morpho_blue: Address,
    /// Multicall3 address.
    pub multicall3: Address,
    /// Multicall3 runtime hash.
    pub expected_multicall3_code_hash: B256,
    /// Event replay start.
    pub event_start_block: u64,
    /// Maximum log range.
    pub maximum_log_range: u64,
    /// Reorg rescan bound.
    pub reorg_rescan_blocks: u64,
    /// Transaction-inclusion opportunity policy.
    pub block_opportunity_policy: BlockOpportunityPolicy,
    /// Sorted provider references.
    pub rpc: Seq<RpcView>,
}

impl View for ValidatedChainConfig {
    type V = ChainView;

    open spec fn view(&self) -> ChainView {
        ChainView {
            name: self.name@,
            chain_id: self.chain_id,
            morpho_blue: self.morpho_blue,
            multicall3: self.multicall3,
            expected_multicall3_code_hash: self.expected_multicall3_code_hash,
            event_start_block: self.event_start_block,
            maximum_log_range: self.maximum_log_range,
            reorg_rescan_blocks: self.reorg_rescan_blocks,
            block_opportunity_policy: self.block_opportunity_policy,
            rpc: rpc_views(self.rpc@),
        }
    }
}

/// Canonical snapshot policy.
#[derive(Clone, Copy, Debug, PartialEq, Eq, Structural)]
pub struct ValidatedSnapshotConfig {
    /// Snapshot mode.
    pub mode: SnapshotMode,
    /// Strict signing context.
    pub strict_signing_context: bool,
    /// Background age bound.
    pub maximum_background_snapshot_age_blocks: u64,
    /// Signing age bound.
    pub maximum_signing_snapshot_age_blocks: u64,
    /// Retry bound.
    pub maximum_snapshot_retries: u32,
    /// Maximum allowed Solidity-visible timestamp lag behind the canonical RPC header.
    pub maximum_evm_timestamp_lag_seconds: u64,
    /// Snapshot-to-sign latency in milliseconds.
    pub maximum_snapshot_to_sign_latency_millis: u128,
    /// Sign-to-broadcast latency in milliseconds.
    pub maximum_sign_to_broadcast_latency_millis: u128,
}

/// Canonical exact execution policy.
#[derive(Clone, Copy, Debug, PartialEq, Eq, Structural)]
pub struct ValidatedExecutionConfig {
    /// Expected inclusion.
    pub expected_inclusion_opportunities: u64,
    /// Maximum inclusion.
    pub maximum_inclusion_opportunities: u64,
    /// Rate pending horizon.
    pub maximum_rate_rebalance_pending_opportunities: u64,
    /// Capital pending horizon.
    pub maximum_capital_deployment_pending_opportunities: u64,
    /// Liquidity pending horizon.
    pub maximum_liquidity_maintenance_pending_opportunities: u64,
    /// Byte-identical rebroadcast delay.
    pub identical_rebroadcast_after_opportunities: u64,
    /// Replacement delay.
    pub replacement_after_opportunities: u64,
    /// Cancellation threshold.
    pub cancel_when_opportunities_remaining: u64,
    /// Receipt depth.
    pub receipt_confirmation_evm_blocks: u64,
    /// Action bound.
    pub maximum_actions: usize,
    /// Signed gas bound.
    pub maximum_signed_transaction_gas: u64,
    /// Gas headroom.
    pub gas_headroom_bps: u32,
    /// Maximum fee per gas in wei.
    pub maximum_fee_per_gas_wei: U256,
    /// Maximum daily gas spend in wei.
    pub maximum_daily_gas_spend_wei: U256,
}

/// Canonical alert references.
#[derive(Debug)]
pub struct ValidatedAlertConfig {
    /// Telegram reference.
    pub telegram: TelegramConfig,
    /// PagerDuty reference.
    pub pagerduty: PagerDutyConfig,
}

/// What canonical alert references holds.
pub ghost struct AlertView {
    /// Telegram reference.
    pub telegram: TelegramView,
    /// PagerDuty reference.
    pub pagerduty: PagerDutyView,
}

impl View for ValidatedAlertConfig {
    type V = AlertView;

    open spec fn view(&self) -> AlertView {
        AlertView {
            telegram: self.telegram@,
            pagerduty: self.pagerduty@,
        }
    }
}

/// Canonical validated application configuration.
#[derive(Debug)]
pub struct ValidatedAppConfig {
    /// Schema version.
    pub schema_version: u32,
    /// Process settings.
    pub node: ValidatedNodeConfig,
    /// Chain settings.
    pub chain: ValidatedChainConfig,
    /// Snapshot policy.
    pub snapshot: ValidatedSnapshotConfig,
    /// Execution policy.
    pub execution: ValidatedExecutionConfig,
    /// Solver policy.
    pub solver: SolverConfigCanonical,
    /// Exact strategy rates and thresholds.
    pub strategy: ValidatedStrategyConfig,
    /// Signer reference without secret material.
    pub signing: SigningConfig,
    /// Alert references without secret material.
    pub alerts: ValidatedAlertConfig,
    /// Sorted vault configuration.
    pub vaults: Vec<ValidatedVaultConfig>,
}

/// What a canonical application configuration holds.
pub ghost struct AppView {
    /// Schema version.
    pub schema_version: u32,
    /// Process settings.
    pub node: NodeView,
    /// Chain settings.
    pub chain: ChainView,
    /// Snapshot policy.
    pub snapshot: ValidatedSnapshotConfig,
    /// Execution policy.
    pub execution: ValidatedExecutionConfig,
    /// Solver policy.
    pub solver: SolverConfigCanonical,
    /// Exact strategy rates and thresholds.
    pub strategy: StrategyView,
    /// Signer reference without secret material.
    pub signing: SigningView,
    /// Alert references without secret material.
    pub alerts: AlertView,
    /// Sorted vault configuration.
    pub vaults: Seq<VaultView>,
}

impl View for ValidatedAppConfig {
    type V = AppView;

    open spec fn view(&self) -> AppView {
        AppView {
            schema_version: self.schema_version,
            node: self.node@,
            chain: self.chain@,
            snapshot: self.snapshot,
            execution: self.execution,
            solver: self.solver,
            strategy: self.strategy@,
            signing: self.signing@,
            alerts: self.alerts@,
            vaults: vault_views(self.vaults@),
        }
    }
}

/// Fully parsed, sorted configuration with no secret values or raw numeric/address strings.
#[derive(Debug)]
pub struct ValidatedConfig {
    /// Canonical validated configuration.
    pub app: ValidatedAppConfig,
    /// Keccak-256 of canonical validated configuration excluding this field.
    pub revision: B256,
}

/// What an optional text holds.
pub open spec fn optional_text(text: Option<String>) -> Option<Seq<char>> {
    match text {
        Some(value) => Some(value@),
        None => None,
    }
}

/// What RPC references hold.
pub open spec fn rpc_views(items: Seq<ValidatedRpcConfig>) -> Seq<RpcView> {
    Seq::new(items.len(), |i: int| items[i]@)
}

/// What vault configurations hold.
pub open spec fn vault_views(items: Seq<ValidatedVaultConfig>) -> Seq<VaultView> {
    Seq::new(items.len(), |i: int| items[i]@)
}

impl OrderedKey for RpcRole {
    open spec fn rank(self) -> int {
        match self {
            RpcRole::Head => 0,
            RpcRole::Logs => 1,
            RpcRole::Read => 2,
            RpcRole::Simulate => 3,
            RpcRole::Submit => 4,
            RpcRole::Checkpoint => 5,
            RpcRole::Receipt => 6,
        }
    }

    proof fn rank_injective(a: Self, b: Self) {
    }

    fn before(self, other: Self) -> (r: bool) {
        self.place() < other.place()
    }
}

impl RpcRole {
    /// Place of the role in declaration order.
    fn place(self) -> (r: u8)
        ensures
            r == self.rank(),
    {
        match self {
            RpcRole::Head => 0,
            RpcRole::Logs => 1,
            RpcRole::Read => 2,
            RpcRole::Simulate => 3,
            RpcRole::Submit => 4,
            RpcRole::Checkpoint => 5,
            RpcRole::Receipt => 6,
        }
    }
}

impl Default for VaultStrategy {
    fn default() -> (r: Self)
        ensures
            r == VaultStrategy::SpreadEqualization,
    {
        VaultStrategy::SpreadEqualization
    }
}

} // verus!
