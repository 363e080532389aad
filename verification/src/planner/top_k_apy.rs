//! Pure top-K native-supply-yield diversification policy and candidate builder.

use vstd::prelude::*;

use crate::collections::{value_of, with_key, with_value, OrderedKey, OrderedMap, OrderedSet};
use crate::config::{
    ValidatedPositionConfig, ValidatedTopKApyConfig, ValidatedVaultConfig, SECONDS_PER_YEAR,
};
use crate::domain::{
    actions_view, encode_adapter_data, ActionKind, ActionView, CapRef, ExactVaultSnapshot, MarketId,
    MarketMode, PositionKey, ProjectedMarketState, ProjectedVaultView, V2Action,
};
use crate::morpho::blue_math::{
    mul_div_down, mul_div_down_spec, w_taylor_compounded, w_taylor_compounded_spec, wad, WAD,
};
use crate::morpho::market_adapter::{allocate, allocate_spec};
use crate::planner::candidates::{
    append_bytes, build_candidate_lattice, lattice_amounts, words_from,
};
use crate::planner::capital::{
    cap_headroom_spec, cap_limited_allocation, cap_limited_allocation_spec, empty_capital_result,
    empty_result, pending_after, pending_spec, projected_cap_headroom, releasable_liquidity,
    find_releasable_liquidity, CapitalResultView, CapitalSolveResult,
};
use crate::planner::certificate::{CertificateView, RejectionReason, SearchCertificate};
use crate::planner::distributions::{
    bounded_distributions, bounded_distributions_spec, row_total_from, rows_view,
};
use crate::planner::moves::{
    checked_total_from, endpoint_action, endpoint_actions_from, endpoint_maximums, endpoint_total,
    endpoint_total_from, list_maximums, push_endpoint_actions, Endpoint,
};
use crate::planner::objective::lexicographically_before;
use crate::planner::simulator::{
    locked_assets, locks_sum_from, position_assets, service_constraints_spec, simulate_actions,
    simulation_spec, SimulationState, SimulationView,
};
use crate::primitives::{
    b256, big_endian, difference, group_b256, group_u256, keccak256, keccak256_digest, larger,
    product, quotient, saturating_difference, smaller, sum, u256, B256, U256,
};

verus! {

/// Stable persisted strategy identity.
pub const STRATEGY_ID: &'static str = "top_k_apy_diversified";

/// Strategy-owned durable state. Every timestamp is a canonical EVM timestamp.
pub struct TopKApyMemory {
    /// Last exact block incorporated into smoothing and membership.
    pub last_observed_block: u64,
    /// Canonical timestamp of `last_observed_block`.
    pub last_observed_timestamp: u64,
    /// Checked strategy generation incremented on confirmed membership changes.
    pub generation: u64,
    /// Confirmed selected market set in conservative rank order.
    pub selected_markets: Vec<MarketId>,
    /// Downside-fast/upside-slow native supply rate per market.
    pub smoothed_rate_by_market: OrderedMap<MarketId, U256>,
    /// Candidate membership currently awaiting canonical-time confirmation.
    pub pending_selected_markets: Vec<MarketId>,
    /// First canonical timestamp at which the pending set was observed.
    pub pending_selection_since_timestamp: Option<u64>,
    /// Canonical timestamp of the last reconciled strategy transaction.
    pub last_reconciled_rebalance_timestamp: u64,
}

/// What the durable state holds.
pub ghost struct MemoryView {
    /// Last observed block.
    pub last_observed_block: u64,
    /// Its timestamp.
    pub last_observed_timestamp: u64,
    /// Strategy generation.
    pub generation: u64,
    /// Confirmed markets.
    pub selected_markets: Seq<MarketId>,
    /// Smoothed rates in market order.
    pub smoothed_rate_by_market: Seq<(MarketId, U256)>,
    /// Markets awaiting confirmation.
    pub pending_selected_markets: Seq<MarketId>,
    /// Since when they wait.
    pub pending_selection_since_timestamp: Option<u64>,
    /// Last reconciled transaction.
    pub last_reconciled_rebalance_timestamp: u64,
}

impl View for TopKApyMemory {
    type V = MemoryView;

    open spec fn view(&self) -> MemoryView {
        MemoryView {
            last_observed_block: self.last_observed_block,
            last_observed_timestamp: self.last_observed_timestamp,
            generation: self.generation,
            selected_markets: self.selected_markets@,
            smoothed_rate_by_market: self.smoothed_rate_by_market@,
            pending_selected_markets: self.pending_selected_markets@,
            pending_selection_since_timestamp: self.pending_selection_since_timestamp,
            last_reconciled_rebalance_timestamp: self.last_reconciled_rebalance_timestamp,
        }
    }
}

impl MemoryView {
    /// State before the first observation.
    pub open spec fn blank() -> MemoryView {
        MemoryView {
            last_observed_block: 0,
            last_observed_timestamp: 0,
            generation: 0,
            selected_markets: Seq::empty(),
            smoothed_rate_by_market: Seq::empty(),
            pending_selected_markets: Seq::empty(),
            pending_selection_since_timestamp: None,
            last_reconciled_rebalance_timestamp: 0,
        }
    }
}

impl Default for TopKApyMemory {
    fn default() -> (r: Self)
        ensures
            r@ == MemoryView::blank(),
    {
        TopKApyMemory {
            last_observed_block: 0,
            last_observed_timestamp: 0,
            generation: 0,
            selected_markets: Vec::new(),
            smoothed_rate_by_market: OrderedMap::new(),
            pending_selected_markets: Vec::new(),
            pending_selection_since_timestamp: None,
            last_reconciled_rebalance_timestamp: 0,
        }
    }
}

/// Copies a list of markets.
pub(crate) fn copy_markets(markets: &Vec<MarketId>) -> (r: Vec<MarketId>)
    ensures
        r@ == markets@,
{
    let mut copy: Vec<MarketId> = Vec::new();
    let mut i: usize = 0;
    while i < markets.len()
        invariant
            i <= markets.len(),
            copy@ == markets@.subrange(0, i as int),
        decreases markets.len() - i,
    {
        copy.push(markets[i]);
        i = i + 1;
        assert(copy@ =~= markets@.subrange(0, i as int));
    }
    assert(copy@ =~= markets@);
    copy
}

fn same_markets(left: &Vec<MarketId>, right: &Vec<MarketId>) -> (r: bool)
    ensures
        r == (left@ == right@),
{
    if left.len() != right.len() {
        return false;
    }
    let mut i: usize = 0;
    while i < left.len()
        invariant
            i <= left.len(),
            left.len() == right.len(),
            forall|k: int| 0 <= k < i ==> left@[k] == right@[k],
        decreases left.len() - i,
    {
        if left[i] != right[i] {
            return false;
        }
        i = i + 1;
    }
    assert(left@ =~= right@);
    true
}

fn lists(markets: &Vec<MarketId>, market: MarketId) -> (r: bool)
    ensures
        r == markets@.contains(market),
{
    let mut i: usize = 0;
    while i < markets.len()
        invariant
            i <= markets.len(),
            forall|k: int| 0 <= k < i ==> markets@[k] != market,
        decreases markets.len() - i,
    {
        if markets[i] == market {
            assert(markets@[i as int] == market);
            return true;
        }
        i = i + 1;
    }
    false
}

impl Clone for TopKApyMemory {
    fn clone(&self) -> (r: Self)
        ensures
            r@ == self@,
    {
        TopKApyMemory {
            last_observed_block: self.last_observed_block,
            last_observed_timestamp: self.last_observed_timestamp,
            generation: self.generation,
            selected_markets: copy_markets(&self.selected_markets),
            smoothed_rate_by_market: self.smoothed_rate_by_market.clone(),
            pending_selected_markets: copy_markets(&self.pending_selected_markets),
            pending_selection_since_timestamp: self.pending_selection_since_timestamp,
            last_reconciled_rebalance_timestamp: self.last_reconciled_rebalance_timestamp,
        }
    }
}

/// Operator-visible reason that no target or transaction is currently available.
#[derive(Clone, Copy, Debug, PartialEq, Eq, Structural)]
pub enum TopKApyNoActionReason {
    /// Fewer than three exact, seeded, active markets are eligible.
    InsufficientEligibleMarkets,
    /// The proposed top set is still inside its canonical confirmation window.
    TopSetUnconfirmed,
    /// Current direct allocation is already within the target band.
    TargetReached,
    /// Current allocation has not crossed the configured entry score.
    BelowEntryScore,
    /// No exactly simulated candidate satisfies hard constraints.
    NoFeasibleCandidate,
    /// Feasible candidates do not improve the frozen score enough.
    ImprovementBelowMinimum,
    /// The configured bounded search could not be completed.
    SearchIncomplete,
}

/// Conservative exact rate evidence for one eligible market.
#[derive(Clone, Copy, Debug, PartialEq, Eq, Structural)]
pub struct TopKMarketEvidence {
    /// Market identity.
    pub market: MarketId,
    /// Exact current native supply rate per second.
    pub current_rate: U256,
    /// Exact native supply rate after the bounded probe deposit.
    pub post_probe_rate: U256,
    /// Downside-fast/upside-slow smoothed rate.
    pub smoothed_rate: U256,
    /// Conservative ranking rate: minimum of all three observations.
    pub ranking_rate: U256,
    /// Exact configured/cap-limited destination headroom.
    pub destination_capacity: U256,
}

/// Frozen selected set and deterministic target allocation.
pub struct TopKApyTarget {
    /// Confirmed selected markets in conservative rate order.
    pub selected_markets: Vec<MarketId>,
    /// Target direct assets for every selected market.
    pub target_assets_by_market: OrderedMap<MarketId, U256>,
    /// Current direct assets for every configured direct market.
    pub current_assets_by_market: OrderedMap<MarketId, U256>,
    /// Exact conservative rate evidence in deterministic order.
    pub evidence_by_market: OrderedMap<MarketId, TopKMarketEvidence>,
    /// Direct assets represented by this target.
    pub target_direct_assets: U256,
    /// Normalized L1 distance score in WAD units.
    pub current_score_wad: U256,
}

/// What a target holds; maps are in market order.
pub ghost struct TargetView {
    /// Selected markets.
    pub selected_markets: Seq<MarketId>,
    /// Target assets.
    pub target_assets_by_market: Seq<(MarketId, U256)>,
    /// Current assets.
    pub current_assets_by_market: Seq<(MarketId, U256)>,
    /// Rate evidence.
    pub evidence_by_market: Seq<(MarketId, TopKMarketEvidence)>,
    /// Direct assets represented.
    pub target_direct_assets: U256,
    /// Distance score.
    pub current_score_wad: U256,
}

impl View for TopKApyTarget {
    type V = TargetView;

    open spec fn view(&self) -> TargetView {
        TargetView {
            selected_markets: self.selected_markets@,
            target_assets_by_market: self.target_assets_by_market@,
            current_assets_by_market: self.current_assets_by_market@,
            evidence_by_market: self.evidence_by_market@,
            target_direct_assets: self.target_direct_assets,
            current_score_wad: self.current_score_wad,
        }
    }
}

/// One observation result, including durable next memory.
pub struct TopKApyObservation {
    /// Confirmed target, when available.
    pub target: Option<TopKApyTarget>,
    /// Stable no-target reason.
    pub no_action_reason: Option<TopKApyNoActionReason>,
    /// Memory to persist after this exact canonical observation.
    pub next_memory: TopKApyMemory,
}

/// What an observation holds.
pub ghost struct ObservationView {
    /// Confirmed target.
    pub target: Option<TargetView>,
    /// No-target reason.
    pub no_action_reason: Option<TopKApyNoActionReason>,
    /// Next memory.
    pub next_memory: MemoryView,
}

impl View for TopKApyObservation {
    type V = ObservationView;

    open spec fn view(&self) -> ObservationView {
        ObservationView {
            target: match self.target {
                Some(target) => Some(target@),
                None => None,
            },
            no_action_reason: self.no_action_reason,
            next_memory: self.next_memory@,
        }
    }
}

/// Pure top-K evaluation failure.
#[derive(Clone, Copy, Debug, PartialEq, Eq, Structural)]
pub enum TopKApyError {
    /// Required exact state is missing or inconsistent.
    IncompleteState,
    /// Checked integer arithmetic failed.
    Arithmetic,
}

/// Verified capital available for top-K direct-market deployment.
#[derive(Clone, Copy, Debug, PartialEq, Eq, Structural)]
pub struct TopKDeployableCapital {
    /// Verified unlocked parent idle assets.
    pub idle_assets: U256,
    /// Safely withdrawable liquidity-adapter assets above service reserves.
    pub liquidity_assets: U256,
    /// Sum of the two funding domains.
    pub total_assets: U256,
}

/// Shared deterministic bounds for top-K candidate construction.
#[derive(Clone, Copy, Debug, PartialEq, Eq, Structural)]
pub struct TopKSolveLimits {
    /// Percentage of the exact movement applied by the first candidate.
    pub immediate_tranche_bps: u32,
    /// Maximum Vault V2 actions in one transaction.
    pub maximum_actions: usize,
    /// Maximum exactly simulated candidate nodes.
    pub maximum_nodes: u64,
}

/// Capital the strategy may deploy without consuming locks or reserves.
pub open spec fn deployable_capital_spec(
    snapshot: ExactVaultSnapshot,
    vault: ValidatedVaultConfig,
) -> Result<TopKDeployableCapital, TopKApyError> {
    if !snapshot.idle_locks.verified {
        Ok(
            TopKDeployableCapital {
                idle_assets: u256(0),
                liquidity_assets: u256(0),
                total_assets: u256(0),
            },
        )
    } else {
        match locks_sum_from(snapshot.idle_locks.locks@, 0, u256(0)) {
            None => Err(TopKApyError::Arithmetic),
            Some(locked) => match difference(snapshot.parent.idle_assets, locked) {
                None => Err(TopKApyError::IncompleteState),
                Some(idle_assets) => match releasable_liquidity(snapshot, vault) {
                    None => Err(TopKApyError::IncompleteState),
                    Some(liquidity_assets) => match sum(idle_assets, liquidity_assets) {
                        None => Err(TopKApyError::Arithmetic),
                        Some(total_assets) => Ok(
                            TopKDeployableCapital { idle_assets, liquidity_assets, total_assets },
                        ),
                    },
                },
            },
        }
    }
}

/// Computes exact capital that the strategy may deploy without consuming locks or reserves.
pub fn verified_deployable_capital(
    snapshot: &ExactVaultSnapshot,
    vault: &ValidatedVaultConfig,
) -> (r: Result<TopKDeployableCapital, TopKApyError>)
    ensures
        r == deployable_capital_spec(*snapshot, *vault),
{
    if !snapshot.idle_locks.verified {
        return Ok(
            TopKDeployableCapital {
                idle_assets: U256::zero(),
                liquidity_assets: U256::zero(),
                total_assets: U256::zero(),
            },
        );
    }
    let locked = locked_assets(&snapshot.idle_locks.locks).ok_or(TopKApyError::Arithmetic)?;
    let idle_assets = snapshot.parent.idle_assets.checked_sub(locked).ok_or(
        TopKApyError::IncompleteState,
    )?;
    let liquidity_assets = find_releasable_liquidity(snapshot, vault).ok_or(
        TopKApyError::IncompleteState,
    )?;
    let total_assets = idle_assets.checked_add(liquidity_assets).ok_or(TopKApyError::Arithmetic)?;
    Ok(TopKDeployableCapital { idle_assets, liquidity_assets, total_assets })
}

/// Distance of two amounts.
pub open spec fn distance_spec(left: U256, right: U256) -> U256 {
    if left@ >= right@ {
        saturating_difference(left, right)
    } else {
        saturating_difference(right, left)
    }
}

fn absolute_difference(left: U256, right: U256) -> (r: U256)
    ensures
        r == distance_spec(left, right),
{
    if right.le(left) {
        left.saturating_sub(right)
    } else {
        right.saturating_sub(left)
    }
}

/// Smoothed rate: a decrease is taken at once, an increase by the configured share.
pub open spec fn smoothed_rate_spec(
    previous: Option<U256>,
    current: U256,
    alpha_bps: u32,
) -> Option<U256> {
    match previous {
        None => Some(current),
        Some(before) => if current@ <= before@ {
            Some(current)
        } else {
            match mul_div_down_spec(
                saturating_difference(current, before),
                u256(alpha_bps as nat),
                u256(10_000),
            ) {
                Err(_) => None,
                Ok(accepted) => sum(before, accepted),
            }
        },
    }
}

/// Smooths a rate: downside is immediate and upside is taken by the configured share.
pub fn smoothed_rate(previous: Option<U256>, current: U256, alpha_bps: u32) -> (r: Option<U256>)
    ensures
        r == smoothed_rate_spec(previous, current, alpha_bps),
{
    let before = match previous {
        Some(before) => before,
        None => return Some(current),
    };
    if current.le(before) {
        return Some(current);
    }
    let increase = current.saturating_sub(before);
    match mul_div_down(increase, U256::from_u64(alpha_bps as u64), U256::from_u64(10_000)) {
        Ok(accepted) => before.checked_add(accepted),
        Err(_) => None,
    }
}

/// With a share of at most the whole, a smoothed rate lies between the previous and the current
/// rate and never above the current one after a decrease.
pub proof fn smoothing_is_conservative(previous: U256, current: U256, alpha_bps: u32)
    requires
        alpha_bps <= 10_000,
        smoothed_rate_spec(Some(previous), current, alpha_bps) is Some,
    ensures
        ({
            let smoothed = smoothed_rate_spec(Some(previous), current, alpha_bps)->0;
            &&& current@ <= previous@ ==> smoothed == current
            &&& current@ > previous@ ==> previous@ <= smoothed@ <= current@
        }),
{
    broadcast use group_u256;

    if current@ > previous@ {
        let rise = (current@ - previous@) as nat;
        let scaled = rise * (alpha_bps as nat);
        assert(scaled / 10_000 <= rise) by (nonlinear_arith)
            requires
                scaled == rise * (alpha_bps as nat),
                alpha_bps <= 10_000,
        ;
    }
}

/// Assets by market of the positions from index `from` on, stored into `done`.
pub open spec fn projected_assets_from(
    positions: Seq<ValidatedPositionConfig>,
    expected: Seq<(PositionKey, U256)>,
    from: int,
    done: Seq<(MarketId, U256)>,
) -> Result<Seq<(MarketId, U256)>, TopKApyError>
    decreases positions.len() - from,
{
    if from >= positions.len() {
        Ok(done)
    } else {
        match value_of(expected, positions[from].position_key) {
            None => Err(TopKApyError::IncompleteState),
            Some(assets) => projected_assets_from(
                positions,
                expected,
                from + 1,
                with_value(done, positions[from].market_id, assets),
            ),
        }
    }
}

fn current_assets_by_market(projection: &ProjectedVaultView, vault: &ValidatedVaultConfig) -> (r:
    Result<OrderedMap<MarketId, U256>, TopKApyError>)
    ensures
        match projected_assets_from(
            vault.positions@,
            projection.vault.position_expected_assets@,
            0,
            Seq::empty(),
        ) {
            Ok(assets) => r is Ok && r->Ok_0@ == assets,
            Err(error) => r is Err && r->Err_0 == error,
        },
{
    let mut assets: OrderedMap<MarketId, U256> = OrderedMap::new();
    let mut i: usize = 0;
    while i < vault.positions.len()
        invariant
            i <= vault.positions.len(),
            projected_assets_from(
                vault.positions@,
                projection.vault.position_expected_assets@,
                0,
                Seq::empty(),
            ) == projected_assets_from(
                vault.positions@,
                projection.vault.position_expected_assets@,
                i as int,
                assets@,
            ),
        decreases vault.positions.len() - i,
    {
        let position = vault.positions[i];
        let amount = projection.vault.position_expected_assets.get(position.position_key).ok_or(
            TopKApyError::IncompleteState,
        )?;
        assets.insert(position.market_id, amount);
        i = i + 1;
    }
    Ok(assets)
}

/// Values of entries in key order.
pub open spec fn entry_values<V>(entries: Seq<(MarketId, V)>) -> Seq<V> {
    Seq::new(entries.len(), |i: int| entries[i].1)
}

/// Sum of entry values.
pub open spec fn entries_total(entries: Seq<(MarketId, U256)>) -> Result<U256, TopKApyError> {
    checked_total_from(entry_values(entries), 0, u256(0)).ok_or(TopKApyError::Arithmetic)
}

fn sum_entries(entries: &OrderedMap<MarketId, U256>) -> (r: Result<U256, TopKApyError>)
    ensures
        r == entries_total(entries@),
{
    let ghost values = entry_values(entries@);
    let mut total = U256::zero();
    let mut i: usize = 0;
    while i < entries.len()
        invariant
            i <= entries@.len(),
            values == entry_values(entries@),
            checked_total_from(values, 0, u256(0)) == checked_total_from(values, i as int, total),
        decreases entries@.len() - i,
    {
        total = total.checked_add(entries.at(i).1).ok_or(TopKApyError::Arithmetic)?;
        i = i + 1;
    }
    Ok(total)
}

/// Annual yield of a per-second rate under compounding.
pub open spec fn annualized_spec(rate: U256) -> Result<U256, TopKApyError> {
    match w_taylor_compounded_spec(rate, u256(SECONDS_PER_YEAR as nat)) {
        Ok(value) => Ok(value),
        Err(_) => Err(TopKApyError::Arithmetic),
    }
}

/// Annualizes a per-second supply rate under compounding.
pub fn annualized_supply_yield(rate_per_second: U256) -> (r: Result<U256, TopKApyError>)
    ensures
        r == annualized_spec(rate_per_second),
{
    match w_taylor_compounded(rate_per_second, U256::from_u64(SECONDS_PER_YEAR)) {
        Ok(value) => Ok(value),
        Err(_) => Err(TopKApyError::Arithmetic),
    }
}

/// First evidence from index `from` on for a market.
pub open spec fn evidence_of_from(
    evidence: Seq<TopKMarketEvidence>,
    market: MarketId,
    from: int,
) -> Option<TopKMarketEvidence>
    decreases evidence.len() - from,
{
    if from >= evidence.len() {
        None
    } else if evidence[from].market == market {
        Some(evidence[from])
    } else {
        evidence_of_from(evidence, market, from + 1)
    }
}

fn find_evidence(evidence: &Vec<TopKMarketEvidence>, market: MarketId) -> (r: Option<
    TopKMarketEvidence,
>)
    ensures
        r == evidence_of_from(evidence@, market, 0),
{
    let mut i: usize = 0;
    while i < evidence.len()
        invariant
            i <= evidence.len(),
            evidence_of_from(evidence@, market, 0) == evidence_of_from(
                evidence@,
                market,
                i as int,
            ),
        decreases evidence.len() - i,
    {
        if evidence[i].market == market {
            return Some(evidence[i]);
        }
        i = i + 1;
    }
    None
}

/// Conservative annual yield of a market.
pub open spec fn ranking_apy(evidence: Seq<TopKMarketEvidence>, market: MarketId) -> Result<
    U256,
    TopKApyError,
> {
    match evidence_of_from(evidence, market, 0) {
        None => Err(TopKApyError::IncompleteState),
        Some(item) => annualized_spec(item.ranking_rate),
    }
}

fn ranking_yield(evidence: &Vec<TopKMarketEvidence>, market: MarketId) -> (r: Result<
    U256,
    TopKApyError,
>)
    ensures
        r == ranking_apy(evidence@, market),
{
    let item = find_evidence(evidence, market).ok_or(TopKApyError::IncompleteState)?;
    annualized_supply_yield(item.ranking_rate)
}

/// Sum of the yields of the selected markets from index `from` on, added to `total`.
pub open spec fn yields_from(
    selected: Seq<MarketId>,
    evidence: Seq<TopKMarketEvidence>,
    from: int,
    total: U256,
) -> Result<U256, TopKApyError>
    decreases selected.len() - from,
{
    if from >= selected.len() {
        Ok(total)
    } else {
        match ranking_apy(evidence, selected[from]) {
            Err(error) => Err(error),
            Ok(apy) => match sum(total, apy) {
                None => Err(TopKApyError::Arithmetic),
                Some(next) => yields_from(selected, evidence, from + 1, next),
            },
        }
    }
}

/// Whether the best yield exceeds the average of the others by more than the threshold.
pub open spec fn boost_required_spec(
    top_apy: U256,
    other_apy_sum: U256,
    other_count: u32,
    threshold: U256,
) -> Result<bool, TopKApyError> {
    match quotient(other_apy_sum, u256(other_count as nat)) {
        None => Err(TopKApyError::Arithmetic),
        Some(average) => Ok(top_apy@ >= average@ && top_apy@ - average@ > threshold@),
    }
}

/// Decides whether the best yield exceeds the average of the others by more than the threshold.
pub fn top_market_boost_required(
    top_apy: U256,
    other_apy_sum: U256,
    other_count: u32,
    threshold: U256,
) -> (r: Result<bool, TopKApyError>)
    ensures
        r == boost_required_spec(top_apy, other_apy_sum, other_count, threshold),
{
    broadcast use group_u256;

    let average = other_apy_sum.checked_div(U256::from_u64(other_count as u64)).ok_or(
        TopKApyError::Arithmetic,
    )?;
    match top_apy.checked_sub(average) {
        Some(gap) => Ok(threshold.lt(gap)),
        None => Ok(false),
    }
}

/// Configured weights for the number of selected markets.
pub open spec fn base_weights_spec(selected: nat, settings: ValidatedTopKApyConfig) -> Result<
    Seq<u32>,
    TopKApyError,
> {
    if selected == 3 {
        Ok(settings.three_market_weights_bps@)
    } else if selected == 4 {
        Ok(settings.four_market_weights_bps@)
    } else {
        Err(TopKApyError::IncompleteState)
    }
}

/// Boosted weights from index `from` on: the rest of the boost shared in base proportions, the last
/// market taking what is left.
pub open spec fn boosted_from(
    base: Seq<u32>,
    boosted_remainder: u32,
    base_remainder: u32,
    from: int,
    assigned: u32,
    done: Seq<u32>,
) -> Result<Seq<u32>, TopKApyError>
    decreases base.len() - from,
{
    if from >= base.len() {
        Ok(done)
    } else {
        let scaled: Result<u32, TopKApyError> = if from + 1 == base.len() {
            if assigned <= 10_000 {
                Ok((10_000 - assigned) as u32)
            } else {
                Err(TopKApyError::Arithmetic)
            }
        } else if boosted_remainder * base[from] > u32::MAX || base_remainder == 0 {
            Err(TopKApyError::Arithmetic)
        } else {
            Ok(((boosted_remainder * base[from]) / (base_remainder as int)) as u32)
        };
        match scaled {
            Err(error) => Err(error),
            Ok(weight) => if assigned + weight > u32::MAX {
                Err(TopKApyError::Arithmetic)
            } else {
                boosted_from(
                    base,
                    boosted_remainder,
                    base_remainder,
                    from + 1,
                    (assigned + weight) as u32,
                    done.push(weight),
                )
            },
        }
    }
}

/// Base weights with the best market raised to the boost weight.
pub open spec fn boosted_weights_spec(base: Seq<u32>, boost: u32) -> Result<
    Seq<u32>,
    TopKApyError,
> {
    if base.len() == 0 {
        Err(TopKApyError::IncompleteState)
    } else if base[0] > 10_000 || boost > 10_000 {
        Err(TopKApyError::Arithmetic)
    } else {
        boosted_from(
            base,
            (10_000 - boost) as u32,
            (10_000 - base[0]) as u32,
            1,
            boost,
            seq![boost],
        )
    }
}

/// Weights applied to a selected set.
pub open spec fn effective_weights_spec(
    selected: Seq<MarketId>,
    evidence: Seq<TopKMarketEvidence>,
    settings: ValidatedTopKApyConfig,
) -> Result<Seq<u32>, TopKApyError> {
    match base_weights_spec(selected.len(), settings) {
        Err(error) => Err(error),
        Ok(base) => match ranking_apy(evidence, selected[0]) {
            Err(error) => Err(error),
            Ok(top) => match yields_from(selected, evidence, 1, u256(0)) {
                Err(error) => Err(error),
                Ok(others) => match boost_required_spec(
                    top,
                    others,
                    (selected.len() - 1) as u32,
                    settings.top_market_boost_threshold_apy_wad,
                ) {
                    Err(error) => Err(error),
                    Ok(required) => if !required {
                        Ok(base)
                    } else {
                        boosted_weights_spec(base, settings.top_market_boost_weight_bps)
                    },
                },
            },
        },
    }
}

fn copy_weights(weights: &Vec<u32>) -> (r: Vec<u32>)
    ensures
        r@ == weights@,
{
    let mut copy: Vec<u32> = Vec::new();
    let mut i: usize = 0;
    while i < weights.len()
        invariant
            i <= weights.len(),
            copy@ == weights@.subrange(0, i as int),
        decreases weights.len() - i,
    {
        copy.push(weights[i]);
        i = i + 1;
        assert(copy@ =~= weights@.subrange(0, i as int));
    }
    assert(copy@ =~= weights@);
    copy
}

fn boosted_weights(base: &Vec<u32>, boost: u32) -> (r: Result<Vec<u32>, TopKApyError>)
    ensures
        match boosted_weights_spec(base@, boost) {
            Ok(weights) => r is Ok && r->Ok_0@ == weights,
            Err(error) => r is Err && r->Err_0 == error,
        },
{
    if base.len() == 0 {
        return Err(TopKApyError::IncompleteState);
    }
    let base_remainder: u32 = match 10_000u32.checked_sub(base[0]) {
        Some(value) => value,
        None => return Err(TopKApyError::Arithmetic),
    };
    let boosted_remainder: u32 = match 10_000u32.checked_sub(boost) {
        Some(value) => value,
        None => return Err(TopKApyError::Arithmetic),
    };
    let mut weights: Vec<u32> = Vec::new();
    weights.push(boost);
    assert(weights@ =~= seq![boost]);
    let mut assigned: u32 = boost;
    let mut i: usize = 1;
    while i < base.len()
        invariant
            1 <= i <= base.len(),
            boosted_weights_spec(base@, boost) == boosted_from(
                base@,
                boosted_remainder,
                base_remainder,
                i as int,
                assigned,
                weights@,
            ),
        decreases base.len() - i,
    {
        let weight: u32 = if i == base.len() - 1 {
            match 10_000u32.checked_sub(assigned) {
                Some(value) => value,
                None => return Err(TopKApyError::Arithmetic),
            }
        } else {
            let scaled: u32 = match boosted_remainder.checked_mul(base[i]) {
                Some(value) => value,
                None => return Err(TopKApyError::Arithmetic),
            };
            if base_remainder == 0 {
                return Err(TopKApyError::Arithmetic);
            }
            scaled / base_remainder
        };
        assigned =
        match assigned.checked_add(weight) {
            Some(value) => value,
            None => return Err(TopKApyError::Arithmetic),
        };
        weights.push(weight);
        i = i + 1;
    }
    Ok(weights)
}

/// Chooses the weights of a selected set, boosted when the best market stands out.
pub fn effective_target_weights(
    selected: &Vec<MarketId>,
    evidence: &Vec<TopKMarketEvidence>,
    settings: &ValidatedTopKApyConfig,
) -> (r: Result<Vec<u32>, TopKApyError>)
    ensures
        match effective_weights_spec(selected@, evidence@, *settings) {
            Ok(weights) => r is Ok && r->Ok_0@ == weights,
            Err(error) => r is Err && r->Err_0 == error,
        },
{
    let base = if selected.len() == 3 {
        &settings.three_market_weights_bps
    } else if selected.len() == 4 {
        &settings.four_market_weights_bps
    } else {
        return Err(TopKApyError::IncompleteState);
    };
    let top = ranking_yield(evidence, selected[0])?;
    let ghost goal = yields_from(selected@, evidence@, 1, u256(0));
    let mut others = U256::zero();
    let mut i: usize = 1;
    while i < selected.len()
        invariant
            1 <= i <= selected.len(),
            goal == yields_from(selected@, evidence@, i as int, others),
            goal is Err ==> effective_weights_spec(selected@, evidence@, *settings) == Err::<
                Seq<u32>,
                TopKApyError,
            >(goal->Err_0),
        decreases selected.len() - i,
    {
        let apy = ranking_yield(evidence, selected[i])?;
        others = others.checked_add(apy).ok_or(TopKApyError::Arithmetic)?;
        i = i + 1;
    }
    let count: u32 = (selected.len() - 1) as u32;
    if !top_market_boost_required(
        top,
        others,
        count,
        settings.top_market_boost_threshold_apy_wad,
    )? {
        return Ok(copy_weights(base));
    }
    boosted_weights(base, settings.top_market_boost_weight_bps)
}

/// Sum of weights.
pub open spec fn weights_total(weights: Seq<u32>) -> int
    decreases weights.len(),
{
    if weights.len() == 0 {
        0
    } else {
        weights_total(weights.drop_last()) + weights.last()
    }
}

proof fn lemma_boosted_from(
    base: Seq<u32>,
    boosted_remainder: u32,
    base_remainder: u32,
    from: int,
    assigned: u32,
    done: Seq<u32>,
)
    requires
        0 <= from < base.len(),
        weights_total(done) == assigned,
        boosted_from(base, boosted_remainder, base_remainder, from, assigned, done) is Ok,
    ensures
        ({
            let weights = boosted_from(
                base,
                boosted_remainder,
                base_remainder,
                from,
                assigned,
                done,
            )->Ok_0;
            &&& weights_total(weights) == 10_000
            &&& weights.len() == done.len() + base.len() - from
            &&& done.len() > 0 ==> weights[0] == done[0]
        }),
    decreases base.len() - from,
{
    let weight: u32 = if from + 1 == base.len() {
        (10_000 - assigned) as u32
    } else {
        ((boosted_remainder * base[from]) / (base_remainder as int)) as u32
    };
    let next = done.push(weight);
    assert(next.drop_last() =~= done);
    assert(weights_total(next) == assigned + weight);
    if from + 1 < base.len() {
        lemma_boosted_from(
            base,
            boosted_remainder,
            base_remainder,
            from + 1,
            (assigned + weight) as u32,
            next,
        );
    }
}

/// Boosted weights give the best market exactly the boost weight, keep one weight per market and
/// add up to exactly ten thousand basis points.
pub proof fn boosted_weights_are_exact(base: Seq<u32>, boost: u32)
    requires
        base.len() >= 2,
        boosted_weights_spec(base, boost) is Ok,
    ensures
        ({
            let weights = boosted_weights_spec(base, boost)->Ok_0;
            weights.len() == base.len() && weights[0] == boost && weights_total(weights) == 10_000
        }),
{
    assert(weights_total(seq![boost]) == boost) by {
        assert(seq![boost].drop_last() =~= Seq::<u32>::empty());
        assert(weights_total(Seq::<u32>::empty()) == 0);
    }
    lemma_boosted_from(
        base,
        (10_000 - boost) as u32,
        (10_000 - base[0]) as u32,
        1,
        boost,
        seq![boost],
    );
}

/// Amounts of the markets from index `from` on: the weighted share rounded down, the last market
/// taking what is left.
pub open spec fn shares_from(
    direct_assets: U256,
    weights: Seq<u32>,
    from: int,
    assigned: U256,
    done: Seq<U256>,
) -> Result<Seq<U256>, TopKApyError>
    decreases weights.len() - from,
{
    if from >= weights.len() {
        Ok(done)
    } else {
        let share: Result<U256, TopKApyError> = if from + 1 == weights.len() {
            difference(direct_assets, assigned).ok_or(TopKApyError::Arithmetic)
        } else {
            match mul_div_down_spec(direct_assets, u256(weights[from] as nat), u256(10_000)) {
                Ok(value) => Ok(value),
                Err(_) => Err(TopKApyError::Arithmetic),
            }
        };
        match share {
            Err(error) => Err(error),
            Ok(amount) => match sum(assigned, amount) {
                None => Err(TopKApyError::Arithmetic),
                Some(next) => shares_from(
                    direct_assets,
                    weights,
                    from + 1,
                    next,
                    done.push(amount),
                ),
            },
        }
    }
}

/// Target amounts in selection order.
pub open spec fn target_shares_spec(
    selected: Seq<MarketId>,
    direct_assets: U256,
    weights: Seq<u32>,
) -> Result<Seq<U256>, TopKApyError> {
    if selected.len() != weights.len() {
        Err(TopKApyError::IncompleteState)
    } else {
        shares_from(direct_assets, weights, 0, u256(0), Seq::empty())
    }
}

/// Entries that store `amounts` under `markets` pairwise, from index `from` on.
pub open spec fn stored_from(
    markets: Seq<MarketId>,
    amounts: Seq<U256>,
    from: int,
    done: Seq<(MarketId, U256)>,
) -> Seq<(MarketId, U256)>
    decreases markets.len() - from,
{
    if from >= markets.len() {
        done
    } else {
        stored_from(markets, amounts, from + 1, with_value(done, markets[from], amounts[from]))
    }
}

/// Target assets by market.
pub open spec fn target_allocations_spec(
    selected: Seq<MarketId>,
    direct_assets: U256,
    weights: Seq<u32>,
) -> Result<Seq<(MarketId, U256)>, TopKApyError> {
    match target_shares_spec(selected, direct_assets, weights) {
        Err(error) => Err(error),
        Ok(amounts) => Ok(stored_from(selected, amounts, 0, Seq::empty())),
    }
}

/// Splits direct assets over the selected markets by weight.
pub fn target_allocations(
    selected: &Vec<MarketId>,
    direct_assets: U256,
    weights: &Vec<u32>,
) -> (r: Result<OrderedMap<MarketId, U256>, TopKApyError>)
    ensures
        match target_allocations_spec(selected@, direct_assets, weights@) {
            Ok(targets) => r is Ok && r->Ok_0@ == targets,
            Err(error) => r is Err && r->Err_0 == error,
        },
{
    if selected.len() != weights.len() {
        return Err(TopKApyError::IncompleteState);
    }
    let ghost goal = target_shares_spec(selected@, direct_assets, weights@);
    let mut amounts: Vec<U256> = Vec::new();
    let mut assigned = U256::zero();
    let mut i: usize = 0;
    while i < weights.len()
        invariant
            i <= weights.len(),
            amounts.len() == i,
            selected.len() == weights.len(),
            goal == target_shares_spec(selected@, direct_assets, weights@),
            goal == shares_from(direct_assets, weights@, i as int, assigned, amounts@),
        decreases weights.len() - i,
    {
        let amount = if i == weights.len() - 1 {
            direct_assets.checked_sub(assigned).ok_or(TopKApyError::Arithmetic)?
        } else {
            match mul_div_down(
                direct_assets,
                U256::from_u64(weights[i] as u64),
                U256::from_u64(10_000),
            ) {
                Ok(value) => value,
                Err(_) => return Err(TopKApyError::Arithmetic),
            }
        };
        assigned = assigned.checked_add(amount).ok_or(TopKApyError::Arithmetic)?;
        amounts.push(amount);
        i = i + 1;
    }
    let mut targets: OrderedMap<MarketId, U256> = OrderedMap::new();
    let mut k: usize = 0;
    while k < selected.len()
        invariant
            k <= selected.len(),
            amounts.len() == selected.len(),
            stored_from(selected@, amounts@, 0, Seq::empty()) == stored_from(
                selected@,
                amounts@,
                k as int,
                targets@,
            ),
        decreases selected.len() - k,
    {
        targets.insert(selected[k], amounts[k]);
        k = k + 1;
    }
    Ok(targets)
}

proof fn lemma_row_total_push(row: Seq<U256>, amount: U256, from: int)
    requires
        0 <= from <= row.len(),
    ensures
        row_total_from(row.push(amount), from) == row_total_from(row, from) + amount@,
    decreases row.len() - from,
{
    if from < row.len() {
        lemma_row_total_push(row, amount, from + 1);
        assert(row.push(amount)[from] == row[from]);
    } else {
        assert(row_total_from(row.push(amount), from + 1) == 0);
    }
}

proof fn lemma_shares(
    direct_assets: U256,
    weights: Seq<u32>,
    from: int,
    assigned: U256,
    done: Seq<U256>,
)
    requires
        0 <= from < weights.len(),
        row_total_from(done, 0) == assigned@,
        shares_from(direct_assets, weights, from, assigned, done) is Ok,
    ensures
        row_total_from(
            shares_from(direct_assets, weights, from, assigned, done)->Ok_0,
            0,
        ) == direct_assets@,
        shares_from(direct_assets, weights, from, assigned, done)->Ok_0.len() == done.len()
            + weights.len() - from,
    decreases weights.len() - from,
{
    broadcast use group_u256;

    let amount = if from + 1 == weights.len() {
        difference(direct_assets, assigned)->0
    } else {
        mul_div_down_spec(direct_assets, u256(weights[from] as nat), u256(10_000))->Ok_0
    };
    lemma_row_total_push(done, amount, 0);
    if from + 1 < weights.len() {
        lemma_shares(
            direct_assets,
            weights,
            from + 1,
            sum(assigned, amount)->0,
            done.push(amount),
        );
    }
}

/// Target amounts add up to exactly the direct assets.
pub proof fn target_shares_conserve_direct_assets(
    selected: Seq<MarketId>,
    direct_assets: U256,
    weights: Seq<u32>,
)
    requires
        selected.len() > 0,
        target_shares_spec(selected, direct_assets, weights) is Ok,
    ensures
        row_total_from(target_shares_spec(selected, direct_assets, weights)->Ok_0, 0)
            == direct_assets@,
        target_shares_spec(selected, direct_assets, weights)->Ok_0.len() == selected.len(),
{
    broadcast use group_u256;

    lemma_shares(direct_assets, weights, 0, u256(0), Seq::empty());
}

/// Keys of entries from index `from` on added to ordered keys.
pub open spec fn keys_added_from<V>(
    entries: Seq<(MarketId, V)>,
    from: int,
    keys: Seq<MarketId>,
) -> Seq<MarketId>
    decreases entries.len() - from,
{
    if from >= entries.len() {
        keys
    } else {
        keys_added_from(entries, from + 1, with_key(keys, entries[from].0))
    }
}

/// Markets of either side, in market order.
pub open spec fn markets_of_either(
    current: Seq<(MarketId, U256)>,
    targets: Seq<(MarketId, U256)>,
) -> Seq<MarketId> {
    keys_added_from(targets, 0, keys_added_from(current, 0, Seq::empty()))
}

fn either_markets(
    current: &OrderedMap<MarketId, U256>,
    targets: &OrderedMap<MarketId, U256>,
) -> (r: OrderedSet<MarketId>)
    ensures
        r@ == markets_of_either(current@, targets@),
{
    let mut markets: OrderedSet<MarketId> = OrderedSet::new();
    let mut i: usize = 0;
    while i < current.len()
        invariant
            i <= current@.len(),
            keys_added_from(current@, 0, Seq::empty()) == keys_added_from(
                current@,
                i as int,
                markets@,
            ),
        decreases current@.len() - i,
    {
        let _added = markets.insert(current.at(i).0);
        i = i + 1;
    }
    let ghost first = markets@;
    let mut j: usize = 0;
    while j < targets.len()
        invariant
            j <= targets@.len(),
            keys_added_from(targets@, 0, first) == keys_added_from(targets@, j as int, markets@),
        decreases targets@.len() - j,
    {
        let _added = markets.insert(targets.at(j).0);
        j = j + 1;
    }
    markets
}

/// Amount stored under a market, zero when there is none.
pub open spec fn amount_of(entries: Seq<(MarketId, U256)>, market: MarketId) -> U256 {
    match value_of(entries, market) {
        Some(amount) => amount,
        None => u256(0),
    }
}

fn stored_amount(entries: &OrderedMap<MarketId, U256>, market: MarketId) -> (r: U256)
    ensures
        r == amount_of(entries@, market),
{
    match entries.get(market) {
        Some(amount) => amount,
        None => U256::zero(),
    }
}

/// Distances of current and target assets, market by market.
pub open spec fn distances(
    markets: Seq<MarketId>,
    current: Seq<(MarketId, U256)>,
    targets: Seq<(MarketId, U256)>,
) -> Seq<U256> {
    Seq::new(
        markets.len(),
        |i: int| distance_spec(amount_of(current, markets[i]), amount_of(targets, markets[i])),
    )
}

/// Normalized L1 distance to the target: the summed distance over twice the direct assets.
pub open spec fn score_spec(
    current: Seq<(MarketId, U256)>,
    targets: Seq<(MarketId, U256)>,
    direct_assets: U256,
) -> Result<U256, TopKApyError> {
    if direct_assets@ == 0 {
        Ok(u256(0))
    } else {
        let markets = markets_of_either(current, targets);
        match checked_total_from(distances(markets, current, targets), 0, u256(0)) {
            None => Err(TopKApyError::Arithmetic),
            Some(distance) => match product(direct_assets, u256(2)) {
                None => Err(TopKApyError::Arithmetic),
                Some(denominator) => match mul_div_down_spec(
                    distance,
                    u256(WAD as nat),
                    denominator,
                ) {
                    Ok(score) => Ok(score),
                    Err(_) => Err(TopKApyError::Arithmetic),
                },
            },
        }
    }
}

fn allocation_score(
    current: &OrderedMap<MarketId, U256>,
    targets: &OrderedMap<MarketId, U256>,
    direct_assets: U256,
) -> (r: Result<U256, TopKApyError>)
    ensures
        r == score_spec(current@, targets@, direct_assets),
{
    if direct_assets.is_zero() {
        return Ok(U256::zero());
    }
    let markets = either_markets(current, targets);
    let ghost values = distances(markets@, current@, targets@);
    let ghost goal = score_spec(current@, targets@, direct_assets);
    let mut distance = U256::zero();
    let mut i: usize = 0;
    while i < markets.len()
        invariant
            i <= markets@.len(),
            values == distances(markets@, current@, targets@),
            goal == score_spec(current@, targets@, direct_assets),
            checked_total_from(values, 0, u256(0)) == checked_total_from(
                values,
                i as int,
                distance,
            ),
            checked_total_from(values, 0, u256(0)) is None ==> goal == Err::<U256, TopKApyError>(
                TopKApyError::Arithmetic,
            ),
        decreases markets@.len() - i,
    {
        let market = markets.at(i);
        let step = absolute_difference(
            stored_amount(current, market),
            stored_amount(targets, market),
        );
        distance = distance.checked_add(step).ok_or(TopKApyError::Arithmetic)?;
        i = i + 1;
    }
    let denominator = direct_assets.checked_mul(U256::from_u64(2)).ok_or(TopKApyError::Arithmetic)?;
    match mul_div_down(distance, wad(), denominator) {
        Ok(score) => Ok(score),
        Err(_) => Err(TopKApyError::Arithmetic),
    }
}

/// Rate-weighted assets of the entries from index `from` on, added to `total`.
pub open spec fn weighted_from(
    current: Seq<(MarketId, U256)>,
    markets: Seq<(MarketId, ProjectedMarketState)>,
    from: int,
    total: U256,
) -> Result<U256, TopKApyError>
    decreases current.len() - from,
{
    if from >= current.len() {
        Ok(total)
    } else {
        match value_of(markets, current[from].0) {
            None => Err(TopKApyError::IncompleteState),
            Some(market) => match product(current[from].1, market.spot_supply_rate) {
                None => Err(TopKApyError::Arithmetic),
                Some(value) => match sum(total, value) {
                    None => Err(TopKApyError::Arithmetic),
                    Some(next) => weighted_from(current, markets, from + 1, next),
                },
            },
        }
    }
}

/// Asset-weighted native supply rate of a portfolio.
pub open spec fn portfolio_rate_spec(
    current: Seq<(MarketId, U256)>,
    markets: Seq<(MarketId, ProjectedMarketState)>,
) -> Result<U256, TopKApyError> {
    match entries_total(current) {
        Err(error) => Err(error),
        Ok(total) => if total@ == 0 {
            Ok(u256(0))
        } else {
            match weighted_from(current, markets, 0, u256(0)) {
                Err(error) => Err(error),
                Ok(weighted) => quotient(weighted, total).ok_or(TopKApyError::Arithmetic),
            }
        },
    }
}

fn portfolio_rate(
    current: &OrderedMap<MarketId, U256>,
    markets: &OrderedMap<MarketId, ProjectedMarketState>,
) -> (r: Result<U256, TopKApyError>)
    ensures
        r == portfolio_rate_spec(current@, markets@),
{
    let total = sum_entries(current)?;
    if total.is_zero() {
        return Ok(U256::zero());
    }
    let ghost goal = portfolio_rate_spec(current@, markets@);
    let ghost all = weighted_from(current@, markets@, 0, u256(0));
    let mut weighted = U256::zero();
    let mut i: usize = 0;
    while i < current.len()
        invariant
            i <= current@.len(),
            goal == portfolio_rate_spec(current@, markets@),
            all == weighted_from(current@, markets@, i as int, weighted),
            all is Err ==> goal == all,
        decreases current@.len() - i,
    {
        let (key, assets) = current.at(i);
        let market = markets.get(key).ok_or(TopKApyError::IncompleteState)?;
        let value = assets.checked_mul(market.spot_supply_rate).ok_or(TopKApyError::Arithmetic)?;
        weighted = weighted.checked_add(value).ok_or(TopKApyError::Arithmetic)?;
        i = i + 1;
    }
    weighted.checked_div(total).ok_or(TopKApyError::Arithmetic)
}

/// Whether the best-to-fourth yield gap admits a fourth market.
pub fn fourth_market_allowed(best_apy: U256, fourth_apy: U256, maximum_gap: U256) -> (r: bool)
    ensures
        r == (saturating_difference(best_apy, fourth_apy)@ <= maximum_gap@),
{
    best_apy.saturating_sub(fourth_apy).le(maximum_gap)
}

/// Whether a market's target is meaningful and reachable.
pub open spec fn can_hold_spec(
    evidence: TopKMarketEvidence,
    current_assets: U256,
    target_assets: U256,
    minimum_position_assets: U256,
) -> bool {
    target_assets@ >= minimum_position_assets@ && match sum(
        current_assets,
        evidence.destination_capacity,
    ) {
        Some(maximum) => maximum@ >= target_assets@,
        None => false,
    }
}

/// Decides whether a market's target is meaningful and reachable.
pub fn market_can_hold_target(
    evidence: &TopKMarketEvidence,
    current_assets: U256,
    target_assets: U256,
    minimum_position_assets: U256,
) -> (r: bool)
    ensures
        r == can_hold_spec(*evidence, current_assets, target_assets, minimum_position_assets),
{
    minimum_position_assets.le(target_assets) && match current_assets.checked_add(
        evidence.destination_capacity,
    ) {
        Some(maximum) => target_assets.le(maximum),
        None => false,
    }
}

/// Whether a candidate exceeds an incumbent by at least the threshold.
pub open spec fn improves_spec(candidate: U256, incumbent: U256, threshold: U256) -> bool {
    candidate@ >= incumbent@ && candidate@ - incumbent@ >= threshold@
}

fn improves_by_at_least(candidate: U256, incumbent: U256, threshold: U256) -> (r: bool)
    ensures
        r == improves_spec(candidate, incumbent, threshold),
{
    broadcast use group_u256;

    match candidate.checked_sub(incumbent) {
        Some(improvement) => threshold.le(improvement),
        None => false,
    }
}

/// Decides a transition from its three independent yield comparisons: conservative target entry,
/// current-position exit and post-probe replacement.
pub fn transition_apy_improvements_allowed(
    candidate_ranking_apy: U256,
    incumbent_ranking_apy: U256,
    candidate_current_apy: U256,
    incumbent_current_apy: U256,
    candidate_post_probe_apy: U256,
    incumbent_post_probe_apy: U256,
    settings: &ValidatedTopKApyConfig,
) -> (r: bool)
    ensures
        r == (improves_spec(candidate_ranking_apy, incumbent_ranking_apy, settings.enter_apy_wad)
            && improves_spec(candidate_current_apy, incumbent_current_apy, settings.exit_apy_wad)
            && improves_spec(
            candidate_post_probe_apy,
            incumbent_post_probe_apy,
            settings.replacement_apy_wad,
        )),
{
    improves_by_at_least(candidate_ranking_apy, incumbent_ranking_apy, settings.enter_apy_wad)
        && improves_by_at_least(candidate_current_apy, incumbent_current_apy, settings.exit_apy_wad)
        && improves_by_at_least(
        candidate_post_probe_apy,
        incumbent_post_probe_apy,
        settings.replacement_apy_wad,
    )
}

/// Whether a candidate market may take the place of an incumbent.
pub open spec fn transition_spec(
    candidate: TopKMarketEvidence,
    incumbent: TopKMarketEvidence,
    settings: ValidatedTopKApyConfig,
) -> Result<bool, TopKApyError> {
    match (
        annualized_spec(candidate.ranking_rate),
        annualized_spec(incumbent.ranking_rate),
        annualized_spec(candidate.current_rate),
        annualized_spec(incumbent.current_rate),
        annualized_spec(candidate.post_probe_rate),
        annualized_spec(incumbent.post_probe_rate),
    ) {
        (Ok(a), Ok(b), Ok(c), Ok(d), Ok(e), Ok(f)) => Ok(
            improves_spec(a, b, settings.enter_apy_wad) && improves_spec(
                c,
                d,
                settings.exit_apy_wad,
            ) && improves_spec(e, f, settings.replacement_apy_wad),
        ),
        _ => Err(TopKApyError::Arithmetic),
    }
}

/// Decides whether a candidate market may take the place of an incumbent.
pub fn market_transition_allowed(
    candidate: &TopKMarketEvidence,
    incumbent: &TopKMarketEvidence,
    settings: &ValidatedTopKApyConfig,
) -> (r: Result<bool, TopKApyError>)
    ensures
        r == transition_spec(*candidate, *incumbent, *settings),
{
    let candidate_ranking = annualized_supply_yield(candidate.ranking_rate)?;
    let incumbent_ranking = annualized_supply_yield(incumbent.ranking_rate)?;
    let candidate_current = annualized_supply_yield(candidate.current_rate)?;
    let incumbent_current = annualized_supply_yield(incumbent.current_rate)?;
    let candidate_probe = annualized_supply_yield(candidate.post_probe_rate)?;
    let incumbent_probe = annualized_supply_yield(incumbent.post_probe_rate)?;
    Ok(
        transition_apy_improvements_allowed(
            candidate_ranking,
            incumbent_ranking,
            candidate_current,
            incumbent_current,
            candidate_probe,
            incumbent_probe,
            settings,
        ),
    )
}

/// Whether a pending membership has waited out its confirmation time.
pub open spec fn confirmed_spec(since: Option<u64>, now: u64, confirmation_seconds: u64) -> bool {
    match since {
        Some(timestamp) => timestamp + confirmation_seconds <= u64::MAX && now >= timestamp
            + confirmation_seconds,
        None => false,
    }
}

/// Decides whether a pending membership has waited out its canonical confirmation time.
pub fn membership_confirmed(since: Option<u64>, now: u64, confirmation_seconds: u64) -> (r: bool)
    ensures
        r == confirmed_spec(since, now, confirmation_seconds),
{
    match since {
        Some(timestamp) => match timestamp.checked_add(confirmation_seconds) {
            Some(deadline) => now >= deadline,
            None => false,
        },
        None => false,
    }
}

/// Markets of the first `count` entries of ranked evidence.
pub open spec fn leading_markets(ranked: Seq<TopKMarketEvidence>, count: nat) -> Seq<MarketId> {
    Seq::new(count, |i: int| ranked[i].market)
}

fn take_markets(ranked: &Vec<TopKMarketEvidence>, count: usize) -> (r: Vec<MarketId>)
    requires
        count <= ranked.len(),
    ensures
        r@ == leading_markets(ranked@, count as nat),
{
    let mut markets: Vec<MarketId> = Vec::new();
    let mut i: usize = 0;
    while i < count
        invariant
            i <= count <= ranked.len(),
            markets@ == leading_markets(ranked@, i as nat),
        decreases count - i,
    {
        markets.push(ranked[i].market);
        i = i + 1;
        assert(markets@ =~= leading_markets(ranked@, i as nat));
    }
    markets
}

/// Whether the fourth ranked market joins: its target is meaningful and reachable, and its yield is
/// close enough to the best.
pub open spec fn fourth_joins(
    ranked: Seq<TopKMarketEvidence>,
    direct_assets: U256,
    current_assets: Seq<(MarketId, U256)>,
    vault: ValidatedVaultConfig,
    settings: ValidatedTopKApyConfig,
) -> Result<bool, TopKApyError> {
    let four = leading_markets(ranked, 4);
    let fourth = ranked[3];
    match effective_weights_spec(four, ranked, settings) {
        Err(error) => Err(error),
        Ok(weights) => match target_allocations_spec(four, direct_assets, weights) {
            Err(error) => Err(error),
            Ok(targets) => match (
                value_of(targets, fourth.market),
                value_of(current_assets, fourth.market),
                crate::planner::moves::market_position_from(vault.positions@, fourth.market, 0),
            ) {
                (Some(target), Some(current), Some(position)) => if !can_hold_spec(
                    fourth,
                    current,
                    target,
                    position.minimum_position_assets,
                ) {
                    Ok(false)
                } else {
                    match (
                        annualized_spec(ranked[0].ranking_rate),
                        annualized_spec(fourth.ranking_rate),
                    ) {
                        (Ok(best), Ok(last)) => Ok(
                            saturating_difference(best, last)@
                                <= settings.fourth_market_max_gap_apy_wad@,
                        ),
                        _ => Err(TopKApyError::Arithmetic),
                    }
                },
                _ => Err(TopKApyError::IncompleteState),
            },
        },
    }
}

fn does_fourth_join(
    ranked: &Vec<TopKMarketEvidence>,
    direct_assets: U256,
    current_assets: &OrderedMap<MarketId, U256>,
    vault: &ValidatedVaultConfig,
    settings: &ValidatedTopKApyConfig,
) -> (r: Result<bool, TopKApyError>)
    requires
        ranked.len() >= 4,
    ensures
        r == fourth_joins(ranked@, direct_assets, current_assets@, *vault, *settings),
{
    let four = take_markets(ranked, 4);
    let fourth = ranked[3];
    let weights = effective_target_weights(&four, ranked, settings)?;
    let targets = target_allocations(&four, direct_assets, &weights)?;
    let target = targets.get(fourth.market).ok_or(TopKApyError::IncompleteState)?;
    let current = current_assets.get(fourth.market).ok_or(TopKApyError::IncompleteState)?;
    let position = crate::planner::moves::find_market_position(
        &vault.positions,
        fourth.market,
    ).ok_or(TopKApyError::IncompleteState)?;
    if !market_can_hold_target(&fourth, current, target, position.minimum_position_assets) {
        return Ok(false);
    }
    let best = annualized_supply_yield(ranked[0].ranking_rate)?;
    let last = annualized_supply_yield(fourth.ranking_rate)?;
    Ok(fourth_market_allowed(best, last, settings.fourth_market_max_gap_apy_wad))
}

/// Markets from index `from` on that a second list lacks, appended to `done`.
pub open spec fn lacking_from(
    markets: Seq<MarketId>,
    other: Seq<MarketId>,
    from: int,
    done: Seq<MarketId>,
) -> Seq<MarketId>
    decreases markets.len() - from,
{
    if from >= markets.len() {
        done
    } else {
        lacking_from(
            markets,
            other,
            from + 1,
            if other.contains(markets[from]) {
                done
            } else {
                done.push(markets[from])
            },
        )
    }
}

fn lacking(markets: &Vec<MarketId>, other: &Vec<MarketId>) -> (r: Vec<MarketId>)
    ensures
        r@ == lacking_from(markets@, other@, 0, Seq::empty()),
{
    let mut missing: Vec<MarketId> = Vec::new();
    let mut i: usize = 0;
    while i < markets.len()
        invariant
            i <= markets.len(),
            lacking_from(markets@, other@, 0, Seq::empty()) == lacking_from(
                markets@,
                other@,
                i as int,
                missing@,
            ),
        decreases markets.len() - i,
    {
        if !lists(other, markets[i]) {
            missing.push(markets[i]);
        }
        i = i + 1;
    }
    missing
}

/// Whether every list market has ranked evidence.
pub open spec fn all_ranked(markets: Seq<MarketId>, ranked: Seq<TopKMarketEvidence>) -> bool {
    forall|i: int|
        0 <= i < markets.len() ==> evidence_of_from(ranked, #[trigger] markets[i], 0) is Some
}

fn are_all_ranked(markets: &Vec<MarketId>, ranked: &Vec<TopKMarketEvidence>) -> (r: bool)
    ensures
        r == all_ranked(markets@, ranked@),
{
    let mut i: usize = 0;
    while i < markets.len()
        invariant
            i <= markets.len(),
            forall|k: int|
                0 <= k < i ==> evidence_of_from(ranked@, #[trigger] markets@[k], 0) is Some,
        decreases markets.len() - i,
    {
        if find_evidence(ranked, markets[i]).is_none() {
            assert(evidence_of_from(ranked@, markets@[i as int], 0) is None);
            return false;
        }
        i = i + 1;
    }
    true
}

/// Whether one market may replace another, by their ranked evidence.
pub open spec fn replacement_allowed(
    ranked: Seq<TopKMarketEvidence>,
    candidate: MarketId,
    incumbent: MarketId,
    settings: ValidatedTopKApyConfig,
) -> Result<bool, TopKApyError> {
    match (evidence_of_from(ranked, candidate, 0), evidence_of_from(ranked, incumbent, 0)) {
        (Some(entering), Some(leaving)) => transition_spec(entering, leaving, settings),
        _ => Err(TopKApyError::IncompleteState),
    }
}

fn may_replace(
    ranked: &Vec<TopKMarketEvidence>,
    candidate: MarketId,
    incumbent: MarketId,
    settings: &ValidatedTopKApyConfig,
) -> (r: Result<bool, TopKApyError>)
    ensures
        r == replacement_allowed(ranked@, candidate, incumbent, *settings),
{
    let entering = find_evidence(ranked, candidate).ok_or(TopKApyError::IncompleteState)?;
    let leaving = find_evidence(ranked, incumbent).ok_or(TopKApyError::IncompleteState)?;
    market_transition_allowed(&entering, &leaving, settings)
}

/// Whether every pairwise replacement from index `from` on is allowed.
pub open spec fn replacements_allowed_from(
    ranked: Seq<TopKMarketEvidence>,
    incoming: Seq<MarketId>,
    outgoing: Seq<MarketId>,
    settings: ValidatedTopKApyConfig,
    from: int,
) -> Result<bool, TopKApyError>
    decreases incoming.len() - from,
{
    if from >= incoming.len() || from >= outgoing.len() {
        Ok(true)
    } else {
        match replacement_allowed(ranked, incoming[from], outgoing[from], settings) {
            Err(error) => Err(error),
            Ok(allowed) => if !allowed {
                Ok(false)
            } else {
                replacements_allowed_from(ranked, incoming, outgoing, settings, from + 1)
            },
        }
    }
}

fn may_replace_all(
    ranked: &Vec<TopKMarketEvidence>,
    incoming: &Vec<MarketId>,
    outgoing: &Vec<MarketId>,
    settings: &ValidatedTopKApyConfig,
) -> (r: Result<bool, TopKApyError>)
    ensures
        r == replacements_allowed_from(ranked@, incoming@, outgoing@, *settings, 0),
{
    let mut i: usize = 0;
    while i < incoming.len() && i < outgoing.len()
        invariant
            i <= incoming.len(),
            replacements_allowed_from(ranked@, incoming@, outgoing@, *settings, 0)
                == replacements_allowed_from(
                ranked@,
                incoming@,
                outgoing@,
                *settings,
                i as int,
            ),
        decreases incoming.len() - i,
    {
        if !may_replace(ranked, incoming[i], outgoing[i], settings)? {
            return Ok(false);
        }
        i = i + 1;
    }
    Ok(true)
}

/// First index from `from` on at which a list holds a market.
pub open spec fn index_from(markets: Seq<MarketId>, market: MarketId, from: int) -> Option<int>
    decreases markets.len() - from,
{
    if from >= markets.len() {
        None
    } else if markets[from] == market {
        Some(from)
    } else {
        index_from(markets, market, from + 1)
    }
}

fn find_index(markets: &Vec<MarketId>, market: MarketId) -> (r: Option<usize>)
    ensures
        (match r {
            Some(index) => Some(index as int),
            None => None::<int>,
        }) == index_from(markets@, market, 0),
        r is Some ==> r->0 < markets.len(),
{
    let mut i: usize = 0;
    while i < markets.len()
        invariant
            i <= markets.len(),
            index_from(markets@, market, 0) == index_from(markets@, market, i as int),
        decreases markets.len() - i,
    {
        if markets[i] == market {
            return Some(i);
        }
        i = i + 1;
    }
    None
}

/// Whether every promotion from index `from` on is allowed: a market that moves up must earn the
/// place of the market it displaces.
pub open spec fn promotions_allowed_from(
    ranked: Seq<TopKMarketEvidence>,
    desired: Seq<MarketId>,
    current: Seq<MarketId>,
    settings: ValidatedTopKApyConfig,
    from: int,
) -> Result<bool, TopKApyError>
    decreases desired.len() - from,
{
    if from >= desired.len() {
        Ok(true)
    } else {
        let rest = promotions_allowed_from(ranked, desired, current, settings, from + 1);
        match index_from(current, desired[from], 0) {
            None => rest,
            Some(held) => if held <= from {
                rest
            } else {
                match replacement_allowed(ranked, desired[from], current[from], settings) {
                    Err(error) => Err(error),
                    Ok(allowed) => if !allowed {
                        Ok(false)
                    } else {
                        rest
                    },
                }
            },
        }
    }
}

fn may_promote_all(
    ranked: &Vec<TopKMarketEvidence>,
    desired: &Vec<MarketId>,
    current: &Vec<MarketId>,
    settings: &ValidatedTopKApyConfig,
) -> (r: Result<bool, TopKApyError>)
    ensures
        r == promotions_allowed_from(ranked@, desired@, current@, *settings, 0),
{
    let mut i: usize = 0;
    while i < desired.len()
        invariant
            i <= desired.len(),
            promotions_allowed_from(ranked@, desired@, current@, *settings, 0)
                == promotions_allowed_from(
                ranked@,
                desired@,
                current@,
                *settings,
                i as int,
            ),
        decreases desired.len() - i,
    {
        if let Some(held) = find_index(current, desired[i]) {
            if held > i {
                if !may_replace(ranked, desired[i], current[i], settings)? {
                    return Ok(false);
                }
            }
        }
        i = i + 1;
    }
    Ok(true)
}

/// Membership proposed by ranked evidence, given the confirmed one.
pub open spec fn membership_spec(
    ranked: Seq<TopKMarketEvidence>,
    direct_assets: U256,
    current_assets: Seq<(MarketId, U256)>,
    vault: ValidatedVaultConfig,
    selected: Seq<MarketId>,
    settings: ValidatedTopKApyConfig,
) -> Result<Seq<MarketId>, TopKApyError> {
    if ranked.len() < 3 {
        Ok(Seq::empty())
    } else {
        let joins = if ranked.len() >= 4 {
            fourth_joins(ranked, direct_assets, current_assets, vault, settings)
        } else {
            Ok(false)
        };
        match joins {
            Err(error) => Err(error),
            Ok(four) => {
                let desired = leading_markets(
                    ranked,
                    if four {
                        4
                    } else {
                        3
                    },
                );
                let incoming = lacking_from(desired, selected, 0, Seq::empty());
                let outgoing = lacking_from(selected, desired, 0, Seq::empty());
                if selected.len() == 0 || !all_ranked(selected, ranked) || selected.len()
                    != desired.len() {
                    Ok(desired)
                } else if incoming.len() != outgoing.len() {
                    Ok(selected)
                } else {
                    match replacements_allowed_from(ranked, incoming, outgoing, settings, 0) {
                        Err(error) => Err(error),
                        Ok(replaced) => if !replaced {
                            Ok(selected)
                        } else {
                            match promotions_allowed_from(ranked, desired, selected, settings, 0) {
                                Err(error) => Err(error),
                                Ok(promoted) => if !promoted {
                                    Ok(selected)
                                } else {
                                    Ok(desired)
                                },
                            }
                        },
                    }
                }
            },
        }
    }
}

/// Proposes the selected set: the best three markets, or four when the fourth is close and
/// reachable, with every replacement and promotion of a confirmed market gated.
///
/// A rank-only change alters the weighted target even when membership is unchanged, so each
/// promotion is gated exactly like a replacement.
pub fn proposed_membership(
    ranked: &Vec<TopKMarketEvidence>,
    direct_assets: U256,
    current_assets: &OrderedMap<MarketId, U256>,
    vault: &ValidatedVaultConfig,
    memory: &TopKApyMemory,
    settings: &ValidatedTopKApyConfig,
) -> (r: Result<Vec<MarketId>, TopKApyError>)
    ensures
        match membership_spec(
            ranked@,
            direct_assets,
            current_assets@,
            *vault,
            memory.selected_markets@,
            *settings,
        ) {
            Ok(markets) => r is Ok && r->Ok_0@ == markets,
            Err(error) => r is Err && r->Err_0 == error,
        },
{
    if ranked.len() < 3 {
        return Ok(Vec::new());
    }
    let four = if ranked.len() >= 4 {
        does_fourth_join(ranked, direct_assets, current_assets, vault, settings)?
    } else {
        false
    };
    let desired = take_markets(
        ranked,
        if four {
            4
        } else {
            3
        },
    );
    let selected = &memory.selected_markets;
    if selected.len() == 0 || !are_all_ranked(selected, ranked) || selected.len() != desired.len() {
        return Ok(desired);
    }
    let incoming = lacking(&desired, selected);
    let outgoing = lacking(selected, &desired);
    if incoming.len() != outgoing.len() {
        return Ok(copy_markets(selected));
    }
    if !may_replace_all(ranked, &incoming, &outgoing, settings)? {
        return Ok(copy_markets(selected));
    }
    if !may_promote_all(ranked, &desired, selected, settings)? {
        return Ok(copy_markets(selected));
    }
    Ok(desired)
}

/// A proposal is empty with fewer than three ranked markets; otherwise it keeps the confirmed set
/// or takes the leading three or four ranked markets. The first proposal is a leading set.
pub proof fn membership_is_kept_or_leading(
    ranked: Seq<TopKMarketEvidence>,
    direct_assets: U256,
    current_assets: Seq<(MarketId, U256)>,
    vault: ValidatedVaultConfig,
    selected: Seq<MarketId>,
    settings: ValidatedTopKApyConfig,
)
    requires
        membership_spec(ranked, direct_assets, current_assets, vault, selected, settings) is Ok,
    ensures
        ({
            let proposed = membership_spec(
                ranked,
                direct_assets,
                current_assets,
                vault,
                selected,
                settings,
            )->Ok_0;
            &&& ranked.len() < 3 ==> proposed.len() == 0
            &&& ranked.len() >= 3 ==> proposed == selected || proposed == leading_markets(ranked, 3)
                || (ranked.len() >= 4 && proposed == leading_markets(ranked, 4))
            &&& ranked.len() >= 3 && selected.len() == 0 ==> proposed.len() == 3 || proposed.len()
                == 4
        }),
{
}

/// Deposit that probes a market's rate: the configured share of direct assets, at least the
/// position minimum, at most the headroom.
pub open spec fn probe_spec(
    target_direct_assets: U256,
    probe_bps: u32,
    minimum_position_assets: U256,
    capacity: U256,
) -> Result<U256, TopKApyError> {
    match mul_div_down_spec(target_direct_assets, u256(probe_bps as nat), u256(10_000)) {
        Err(_) => Err(TopKApyError::Arithmetic),
        Ok(share) => Ok(smaller(larger(share, minimum_position_assets), capacity)),
    }
}

/// Frozen inputs of one observation.
pub ghost struct ObservationProblem {
    /// Exact snapshot.
    pub snapshot: ExactVaultSnapshot,
    /// Inclusion projection.
    pub projection: ProjectedVaultView,
    /// Vault policy.
    pub vault: ValidatedVaultConfig,
    /// Strategy policy.
    pub settings: ValidatedTopKApyConfig,
    /// Cap-limited supply per position under reallocation.
    pub reallocation_limits: Seq<(PositionKey, U256)>,
    /// Current direct assets by market.
    pub current_assets: Seq<(MarketId, U256)>,
    /// Direct assets of the target.
    pub target_direct_assets: U256,
    /// Whether this block is observed for the first time.
    pub first_observation: bool,
}

/// Smoothed rate of a market: advanced once per block, otherwise what was stored.
pub open spec fn observed_rate_spec(
    stored: Option<U256>,
    current: U256,
    alpha_bps: u32,
    first_observation: bool,
) -> Result<U256, TopKApyError> {
    if first_observation {
        smoothed_rate_spec(stored, current, alpha_bps).ok_or(TopKApyError::Arithmetic)
    } else {
        match stored {
            Some(rate) => Ok(rate),
            None => Ok(current),
        }
    }
}

/// Native supply rate of a market after the probe deposit.
pub open spec fn post_probe_spec(
    problem: ObservationProblem,
    configured: ValidatedPositionConfig,
    market: ProjectedMarketState,
    probe: U256,
) -> Result<U256, TopKApyError> {
    if probe@ == 0 {
        Ok(market.spot_supply_rate)
    } else {
        match (
            value_of(problem.snapshot.positions@, configured.position_key),
            value_of(problem.snapshot.markets@, configured.market_id),
        ) {
            (Some(position), Some(stored)) => match allocate_spec(
                market,
                position.internal_supply_shares,
                probe,
                position.parent_recorded_market_allocation,
                stored.fee,
                position.affected_caps,
            ) {
                Ok(transition) => Ok(transition.market.spot_supply_rate),
                Err(_) => Err(TopKApyError::IncompleteState),
            },
            _ => Err(TopKApyError::IncompleteState),
        }
    }
}

/// Evidence of one Active position, absent when its market is too small, unseeded or unreachable.
pub open spec fn market_evidence(
    problem: ObservationProblem,
    configured: ValidatedPositionConfig,
    smoothed: Seq<(MarketId, U256)>,
) -> Result<Option<TopKMarketEvidence>, TopKApyError> {
    match (
        value_of(problem.snapshot.positions@, configured.position_key),
        value_of(problem.projection.markets@, configured.market_id),
    ) {
        (Some(position), Some(market)) => if market.total_supply_assets@
            < configured.minimum_destination_market_supply_assets@ || market.total_supply_shares@
            < configured.minimum_destination_market_supply_shares@
            || position.market_dead_supply_shares@
            < problem.vault.minimum_market_dead_supply_shares@ {
            Ok(None)
        } else {
            match (
                value_of(problem.current_assets, configured.market_id),
                value_of(problem.reallocation_limits, configured.position_key),
            ) {
                (Some(current), Some(limit)) => {
                    let capacity = smaller(
                        saturating_difference(configured.maximum_position_assets, current),
                        limit,
                    );
                    let reachable = match sum(current, capacity) {
                        Some(maximum) => maximum@ >= configured.minimum_position_assets@,
                        None => false,
                    };
                    if !reachable {
                        Ok(None)
                    } else {
                        match probe_spec(
                            problem.target_direct_assets,
                            problem.settings.probe_allocation_bps,
                            configured.minimum_position_assets,
                            capacity,
                        ) {
                            Err(error) => Err(error),
                            Ok(probe) => match post_probe_spec(
                                problem,
                                configured,
                                market,
                                probe,
                            ) {
                                Err(error) => Err(error),
                                Ok(post_probe_rate) => match observed_rate_spec(
                                    value_of(smoothed, configured.market_id),
                                    market.spot_supply_rate,
                                    problem.settings.upside_ema_alpha_bps,
                                    problem.first_observation,
                                ) {
                                    Err(error) => Err(error),
                                    Ok(rate) => Ok(
                                        Some(
                                            TopKMarketEvidence {
                                                market: configured.market_id,
                                                current_rate: market.spot_supply_rate,
                                                post_probe_rate,
                                                smoothed_rate: rate,
                                                ranking_rate: smaller(
                                                    smaller(
                                                        market.spot_supply_rate,
                                                        post_probe_rate,
                                                    ),
                                                    rate,
                                                ),
                                                destination_capacity: capacity,
                                            },
                                        ),
                                    ),
                                },
                            },
                        }
                    }
                },
                _ => Err(TopKApyError::IncompleteState),
            }
        },
        _ => Err(TopKApyError::IncompleteState),
    }
}

/// Evidence of the Active positions from index `from` on, and the smoothed rates with theirs
/// stored.
pub open spec fn evidence_from(
    problem: ObservationProblem,
    from: int,
    smoothed: Seq<(MarketId, U256)>,
    done: Seq<TopKMarketEvidence>,
) -> Result<(Seq<(MarketId, U256)>, Seq<TopKMarketEvidence>), TopKApyError>
    decreases problem.vault.positions@.len() - from,
{
    if from >= problem.vault.positions@.len() {
        Ok((smoothed, done))
    } else if problem.vault.positions@[from].mode != MarketMode::Active {
        evidence_from(problem, from + 1, smoothed, done)
    } else {
        match market_evidence(problem, problem.vault.positions@[from], smoothed) {
            Err(error) => Err(error),
            Ok(None) => evidence_from(problem, from + 1, smoothed, done),
            Ok(Some(item)) => evidence_from(
                problem,
                from + 1,
                with_value(smoothed, item.market, item.smoothed_rate),
                done.push(item),
            ),
        }
    }
}

/// Whether evidence ranks ahead: larger ranking rate first, then market order.
pub open spec fn evidence_ahead(left: TopKMarketEvidence, right: TopKMarketEvidence) -> bool {
    left.ranking_rate@ > right.ranking_rate@ || (left.ranking_rate@ == right.ranking_rate@
        && left.market.rank() < right.market.rank())
}

fn is_ahead(left: &TopKMarketEvidence, right: &TopKMarketEvidence) -> (r: bool)
    ensures
        r == evidence_ahead(*left, *right),
{
    if right.ranking_rate.lt(left.ranking_rate) {
        return true;
    }
    if left.ranking_rate.lt(right.ranking_rate) {
        return false;
    }
    left.market.before(right.market)
}

/// Index of the first ranked evidence from `from` on that `item` ranks ahead of.
pub open spec fn ranked_place_from(
    ranked: Seq<TopKMarketEvidence>,
    item: TopKMarketEvidence,
    from: int,
) -> int
    decreases ranked.len() - from,
{
    if from >= ranked.len() {
        ranked.len() as int
    } else if evidence_ahead(item, ranked[from]) {
        from
    } else {
        ranked_place_from(ranked, item, from + 1)
    }
}

/// Evidence from index `from` on inserted at its rank, stable among equals.
pub open spec fn ranked_from(
    evidence: Seq<TopKMarketEvidence>,
    from: int,
    ranked: Seq<TopKMarketEvidence>,
) -> Seq<TopKMarketEvidence>
    decreases evidence.len() - from,
{
    if from >= evidence.len() {
        ranked
    } else {
        ranked_from(
            evidence,
            from + 1,
            ranked.insert(ranked_place_from(ranked, evidence[from], 0), evidence[from]),
        )
    }
}

fn rank_evidence(evidence: &Vec<TopKMarketEvidence>) -> (r: Vec<TopKMarketEvidence>)
    ensures
        r@ == ranked_from(evidence@, 0, Seq::empty()),
{
    let mut ranked: Vec<TopKMarketEvidence> = Vec::new();
    let mut i: usize = 0;
    while i < evidence.len()
        invariant
            i <= evidence.len(),
            ranked_from(evidence@, 0, Seq::empty()) == ranked_from(
                evidence@,
                i as int,
                ranked@,
            ),
        decreases evidence.len() - i,
    {
        let mut at: usize = 0;
        while at < ranked.len() && !is_ahead(&evidence[i], &ranked[at])
            invariant
                at <= ranked.len(),
                i < evidence.len(),
                ranked_place_from(ranked@, evidence@[i as int], 0) == ranked_place_from(
                    ranked@,
                    evidence@[i as int],
                    at as int,
                ),
            decreases ranked.len() - at,
        {
            at = at + 1;
        }
        ranked.insert(at, evidence[i]);
        i = i + 1;
    }
    ranked
}

/// Whether no later evidence ranks ahead of an earlier one.
pub open spec fn in_rank_order(ranked: Seq<TopKMarketEvidence>) -> bool {
    forall|i: int, j: int|
        0 <= i < j < ranked.len() ==> !evidence_ahead(#[trigger] ranked[j], #[trigger] ranked[i])
}

proof fn lemma_ranked_place(ranked: Seq<TopKMarketEvidence>, item: TopKMarketEvidence, from: int)
    requires
        0 <= from <= ranked.len(),
    ensures
        from <= ranked_place_from(ranked, item, from) <= ranked.len(),
        forall|i: int|
            from <= i < ranked_place_from(ranked, item, from) ==> !evidence_ahead(
                item,
                #[trigger] ranked[i],
            ),
        ranked_place_from(ranked, item, from) < ranked.len() ==> evidence_ahead(
            item,
            ranked[ranked_place_from(ranked, item, from)],
        ),
    decreases ranked.len() - from,
{
    if from < ranked.len() && !evidence_ahead(item, ranked[from]) {
        lemma_ranked_place(ranked, item, from + 1);
    }
}

proof fn lemma_ranked_from(
    evidence: Seq<TopKMarketEvidence>,
    from: int,
    ranked: Seq<TopKMarketEvidence>,
)
    requires
        0 <= from <= evidence.len(),
        in_rank_order(ranked),
    ensures
        in_rank_order(ranked_from(evidence, from, ranked)),
        ranked_from(evidence, from, ranked).len() == ranked.len() + evidence.len() - from,
    decreases evidence.len() - from,
{
    if from < evidence.len() {
        let item = evidence[from];
        lemma_ranked_place(ranked, item, 0);
        let at = ranked_place_from(ranked, item, 0);
        let next = ranked.insert(at, item);
        assert forall|i: int, j: int| 0 <= i < j < next.len() implies !evidence_ahead(
            #[trigger] next[j],
            #[trigger] next[i],
        ) by {
            if i < at && j > at {
                assert(!evidence_ahead(ranked[j - 1], ranked[i]));
            } else if i == at {
                assert(evidence_ahead(item, ranked[at]));
                if j - 1 > at {
                    assert(!evidence_ahead(ranked[j - 1], ranked[at]));
                }
            } else if i > at {
                assert(!evidence_ahead(ranked[j - 1], ranked[i - 1]));
            } else if j < at {
                assert(!evidence_ahead(ranked[j], ranked[i]));
            }
        }
        lemma_ranked_from(evidence, from + 1, next);
    }
}

/// Ranking keeps every piece of evidence and orders it by conservative rate, ties by market.
pub proof fn ranking_orders_evidence(evidence: Seq<TopKMarketEvidence>)
    ensures
        in_rank_order(ranked_from(evidence, 0, Seq::empty())),
        ranked_from(evidence, 0, Seq::empty()).len() == evidence.len(),
{
    lemma_ranked_from(evidence, 0, Seq::empty());
}

/// Rates from index `from` on of markets that still have evidence, stored into `done`.
pub open spec fn kept_rates_from(
    rates: Seq<(MarketId, U256)>,
    ranked: Seq<TopKMarketEvidence>,
    from: int,
    done: Seq<(MarketId, U256)>,
) -> Seq<(MarketId, U256)>
    decreases rates.len() - from,
{
    if from >= rates.len() {
        done
    } else {
        kept_rates_from(
            rates,
            ranked,
            from + 1,
            if evidence_of_from(ranked, rates[from].0, 0) is Some {
                with_value(done, rates[from].0, rates[from].1)
            } else {
                done
            },
        )
    }
}

fn keep_rates(rates: &OrderedMap<MarketId, U256>, ranked: &Vec<TopKMarketEvidence>) -> (r:
    OrderedMap<MarketId, U256>)
    ensures
        r@ == kept_rates_from(rates@, ranked@, 0, Seq::empty()),
{
    let mut kept: OrderedMap<MarketId, U256> = OrderedMap::new();
    let mut i: usize = 0;
    while i < rates.len()
        invariant
            i <= rates@.len(),
            kept_rates_from(rates@, ranked@, 0, Seq::empty()) == kept_rates_from(
                rates@,
                ranked@,
                i as int,
                kept@,
            ),
        decreases rates@.len() - i,
    {
        let (market, rate) = rates.at(i);
        if find_evidence(ranked, market).is_some() {
            kept.insert(market, rate);
        }
        i = i + 1;
    }
    kept
}

/// Evidence from index `from` on stored under its market.
pub open spec fn evidence_entries_from(
    ranked: Seq<TopKMarketEvidence>,
    from: int,
    done: Seq<(MarketId, TopKMarketEvidence)>,
) -> Seq<(MarketId, TopKMarketEvidence)>
    decreases ranked.len() - from,
{
    if from >= ranked.len() {
        done
    } else {
        evidence_entries_from(
            ranked,
            from + 1,
            with_value(done, ranked[from].market, ranked[from]),
        )
    }
}

fn store_evidence(ranked: &Vec<TopKMarketEvidence>) -> (r: OrderedMap<MarketId, TopKMarketEvidence>)
    ensures
        r@ == evidence_entries_from(ranked@, 0, Seq::empty()),
{
    let mut entries: OrderedMap<MarketId, TopKMarketEvidence> = OrderedMap::new();
    let mut i: usize = 0;
    while i < ranked.len()
        invariant
            i <= ranked.len(),
            evidence_entries_from(ranked@, 0, Seq::empty()) == evidence_entries_from(
                ranked@,
                i as int,
                entries@,
            ),
        decreases ranked.len() - i,
    {
        entries.insert(ranked[i].market, ranked[i]);
        i = i + 1;
    }
    entries
}

/// Memory and outcome after a membership proposal: the next memory, and whether a confirmed set is
/// available.
pub open spec fn membership_advanced(
    memory: MemoryView,
    ranked: Seq<TopKMarketEvidence>,
    proposed: Seq<MarketId>,
    timestamp: u64,
    confirmation_seconds: u64,
) -> Result<(MemoryView, bool), TopKApyError> {
    if proposed == memory.selected_markets {
        Ok(
            (
                MemoryView {
                    pending_selected_markets: Seq::empty(),
                    pending_selection_since_timestamp: None,
                    ..memory
                },
                true,
            ),
        )
    } else if !all_ranked(memory.selected_markets, ranked) {
        if memory.generation == u64::MAX {
            Err(TopKApyError::Arithmetic)
        } else {
            Ok(
                (
                    MemoryView {
                        selected_markets: proposed,
                        pending_selected_markets: Seq::empty(),
                        pending_selection_since_timestamp: None,
                        generation: (memory.generation + 1) as u64,
                        ..memory
                    },
                    true,
                ),
            )
        }
    } else {
        let waiting = if memory.pending_selected_markets != proposed {
            MemoryView {
                pending_selected_markets: proposed,
                pending_selection_since_timestamp: Some(timestamp),
                ..memory
            }
        } else {
            memory
        };
        if !confirmed_spec(
            waiting.pending_selection_since_timestamp,
            timestamp,
            confirmation_seconds,
        ) {
            Ok((waiting, false))
        } else if waiting.generation == u64::MAX {
            Err(TopKApyError::Arithmetic)
        } else {
            Ok(
                (
                    MemoryView {
                        selected_markets: waiting.pending_selected_markets,
                        pending_selected_markets: Seq::empty(),
                        pending_selection_since_timestamp: None,
                        generation: (waiting.generation + 1) as u64,
                        ..waiting
                    },
                    true,
                ),
            )
        }
    }
}

fn advance_membership(
    memory: &mut TopKApyMemory,
    ranked: &Vec<TopKMarketEvidence>,
    proposed: Vec<MarketId>,
    timestamp: u64,
    confirmation_seconds: u64,
) -> (r: Result<bool, TopKApyError>)
    ensures
        match membership_advanced(
            old(memory)@,
            ranked@,
            proposed@,
            timestamp,
            confirmation_seconds,
        ) {
            Ok((next, confirmed)) => r is Ok && r->Ok_0 == confirmed && final(memory)@ == next,
            Err(error) => r is Err && r->Err_0 == error,
        },
{
    if same_markets(&proposed, &memory.selected_markets) {
        memory.pending_selected_markets = Vec::new();
        memory.pending_selection_since_timestamp = None;
        return Ok(true);
    }
    if !are_all_ranked(&memory.selected_markets, ranked) {
        let generation: u64 = match memory.generation.checked_add(1) {
            Some(value) => value,
            None => return Err(TopKApyError::Arithmetic),
        };
        memory.selected_markets = proposed;
        memory.pending_selected_markets = Vec::new();
        memory.pending_selection_since_timestamp = None;
        memory.generation = generation;
        return Ok(true);
    }
    if !same_markets(&memory.pending_selected_markets, &proposed) {
        memory.pending_selected_markets = proposed;
        memory.pending_selection_since_timestamp = Some(timestamp);
    }
    if !membership_confirmed(
        memory.pending_selection_since_timestamp,
        timestamp,
        confirmation_seconds,
    ) {
        return Ok(false);
    }
    let generation: u64 = match memory.generation.checked_add(1) {
        Some(value) => value,
        None => return Err(TopKApyError::Arithmetic),
    };
    memory.selected_markets = copy_markets(&memory.pending_selected_markets);
    memory.pending_selected_markets = Vec::new();
    memory.pending_selection_since_timestamp = None;
    memory.generation = generation;
    Ok(true)
}

/// A different proposal replaces a fully eligible confirmed set only after it has waited out the
/// confirmation time, and every change of the confirmed set raises the generation by one.
pub proof fn membership_changes_are_confirmed(
    memory: MemoryView,
    ranked: Seq<TopKMarketEvidence>,
    proposed: Seq<MarketId>,
    timestamp: u64,
    confirmation_seconds: u64,
)
    requires
        membership_advanced(memory, ranked, proposed, timestamp, confirmation_seconds) is Ok,
    ensures
        ({
            let (next, confirmed) = membership_advanced(
                memory,
                ranked,
                proposed,
                timestamp,
                confirmation_seconds,
            )->Ok_0;
            &&& next.selected_markets != memory.selected_markets ==> confirmed
                && next.selected_markets == proposed && next.generation == memory.generation + 1
                && next.pending_selected_markets.len() == 0
            &&& next.selected_markets == memory.selected_markets ==> next.generation
                == memory.generation
            &&& (next.selected_markets != memory.selected_markets && all_ranked(
                memory.selected_markets,
                ranked,
            ) && confirmation_seconds > 0) ==> memory.pending_selected_markets == proposed
                && memory.pending_selection_since_timestamp is Some
                && memory.pending_selection_since_timestamp->0 + confirmation_seconds <= timestamp
        }),
{
}

/// Target of a confirmed selection.
pub open spec fn confirmed_target(
    problem: ObservationProblem,
    ranked: Seq<TopKMarketEvidence>,
    memory: MemoryView,
) -> Result<TargetView, TopKApyError> {
    match effective_weights_spec(memory.selected_markets, ranked, problem.settings) {
        Err(error) => Err(error),
        Ok(weights) => match target_allocations_spec(
            memory.selected_markets,
            problem.target_direct_assets,
            weights,
        ) {
            Err(error) => Err(error),
            Ok(targets) => match score_spec(
                problem.current_assets,
                targets,
                problem.target_direct_assets,
            ) {
                Err(error) => Err(error),
                Ok(score) => Ok(
                    TargetView {
                        selected_markets: memory.selected_markets,
                        target_assets_by_market: targets,
                        current_assets_by_market: problem.current_assets,
                        evidence_by_market: evidence_entries_from(ranked, 0, Seq::empty()),
                        target_direct_assets: problem.target_direct_assets,
                        current_score_wad: score,
                    },
                ),
            },
        },
    }
}

/// Observation over frozen inputs.
pub open spec fn observed_target(problem: ObservationProblem, memory: MemoryView) -> Result<
    ObservationView,
    TopKApyError,
> {
    match evidence_from(problem, 0, memory.smoothed_rate_by_market, Seq::empty()) {
        Err(error) => Err(error),
        Ok((smoothed, evidence)) => {
            let ranked = ranked_from(evidence, 0, Seq::empty());
            let rates = kept_rates_from(smoothed, ranked, 0, Seq::empty());
            let seen = if problem.first_observation {
                MemoryView {
                    smoothed_rate_by_market: rates,
                    last_observed_block: problem.projection.head.number,
                    last_observed_timestamp: problem.projection.head.timestamp,
                    ..memory
                }
            } else {
                MemoryView { smoothed_rate_by_market: rates, ..memory }
            };
            match membership_spec(
                ranked,
                problem.target_direct_assets,
                problem.current_assets,
                problem.vault,
                seen.selected_markets,
                problem.settings,
            ) {
                Err(error) => Err(error),
                Ok(proposed) => if proposed.len() < 3 {
                    Ok(
                        ObservationView {
                            target: None,
                            no_action_reason: Some(
                                TopKApyNoActionReason::InsufficientEligibleMarkets,
                            ),
                            next_memory: seen,
                        },
                    )
                } else {
                    match membership_advanced(
                        seen,
                        ranked,
                        proposed,
                        problem.projection.head.timestamp,
                        problem.settings.membership_confirmation_seconds,
                    ) {
                        Err(error) => Err(error),
                        Ok((next, confirmed)) => if !confirmed {
                            Ok(
                                ObservationView {
                                    target: None,
                                    no_action_reason: Some(
                                        TopKApyNoActionReason::TopSetUnconfirmed,
                                    ),
                                    next_memory: next,
                                },
                            )
                        } else {
                            match confirmed_target(problem, ranked, next) {
                                Err(error) => Err(error),
                                Ok(target) => Ok(
                                    ObservationView {
                                        target: Some(target),
                                        no_action_reason: None,
                                        next_memory: next,
                                    },
                                ),
                            }
                        },
                    }
                },
            }
        },
    }
}

/// Memory an observation starts from.
pub open spec fn remembered(memory: Option<&TopKApyMemory>) -> MemoryView {
    match memory {
        Some(known) => known@,
        None => MemoryView::blank(),
    }
}

/// Observation of one exact canonical state.
pub open spec fn observe_spec(
    snapshot: ExactVaultSnapshot,
    projection: ProjectedVaultView,
    vault: ValidatedVaultConfig,
    settings: ValidatedTopKApyConfig,
    reallocation_limits: Seq<(PositionKey, U256)>,
    memory: Option<&TopKApyMemory>,
    additional_direct_assets: U256,
) -> Result<ObservationView, TopKApyError> {
    let known = remembered(memory);
    match projected_assets_from(
        vault.positions@,
        projection.vault.position_expected_assets@,
        0,
        Seq::empty(),
    ) {
        Err(error) => Err(error),
        Ok(current_assets) => match entries_total(current_assets) {
            Err(error) => Err(error),
            Ok(direct) => match sum(direct, additional_direct_assets) {
                None => Err(TopKApyError::Arithmetic),
                Some(target_direct_assets) => observed_target(
                    ObservationProblem {
                        snapshot,
                        projection,
                        vault,
                        settings,
                        reallocation_limits,
                        current_assets,
                        target_direct_assets,
                        first_observation: known.last_observed_block != projection.head.number,
                    },
                    known,
                ),
            },
        },
    }
}

struct ObservationInput<'a> {
    snapshot: &'a ExactVaultSnapshot,
    projection: &'a ProjectedVaultView,
    vault: &'a ValidatedVaultConfig,
    settings: &'a ValidatedTopKApyConfig,
    reallocation_limits: &'a OrderedMap<PositionKey, U256>,
    current_assets: OrderedMap<MarketId, U256>,
    target_direct_assets: U256,
    first_observation: bool,
}

impl<'a> ObservationInput<'a> {
    spec fn problem(&self) -> ObservationProblem {
        ObservationProblem {
            snapshot: *self.snapshot,
            projection: *self.projection,
            vault: *self.vault,
            settings: *self.settings,
            reallocation_limits: self.reallocation_limits@,
            current_assets: self.current_assets@,
            target_direct_assets: self.target_direct_assets,
            first_observation: self.first_observation,
        }
    }

    fn evidence_for(
        &self,
        configured: &ValidatedPositionConfig,
        smoothed: &OrderedMap<MarketId, U256>,
    ) -> (r: Result<Option<TopKMarketEvidence>, TopKApyError>)
        ensures
            r == market_evidence(self.problem(), *configured, smoothed@),
    {
        let position = self.snapshot.positions.get(configured.position_key).ok_or(
            TopKApyError::IncompleteState,
        )?;
        let market = self.projection.markets.get(configured.market_id).ok_or(
            TopKApyError::IncompleteState,
        )?;
        if market.total_supply_assets.lt(configured.minimum_destination_market_supply_assets)
            || market.total_supply_shares.lt(configured.minimum_destination_market_supply_shares)
            || position.market_dead_supply_shares.lt(
            self.vault.minimum_market_dead_supply_shares,
        ) {
            return Ok(None);
        }
        let current = self.current_assets.get(configured.market_id).ok_or(
            TopKApyError::IncompleteState,
        )?;
        let limit = self.reallocation_limits.get(configured.position_key).ok_or(
            TopKApyError::IncompleteState,
        )?;
        let capacity = configured.maximum_position_assets.saturating_sub(current).min(limit);
        match current.checked_add(capacity) {
            Some(maximum) => {
                if maximum.lt(configured.minimum_position_assets) {
                    return Ok(None);
                }
            },
            None => return Ok(None),
        }
        let probe = match mul_div_down(
            self.target_direct_assets,
            U256::from_u64(self.settings.probe_allocation_bps as u64),
            U256::from_u64(10_000),
        ) {
            Ok(share) => share.max(configured.minimum_position_assets).min(capacity),
            Err(_) => return Err(TopKApyError::Arithmetic),
        };
        let post_probe_rate = if probe.is_zero() {
            market.spot_supply_rate
        } else {
            let stored = self.snapshot.markets.get(configured.market_id).ok_or(
                TopKApyError::IncompleteState,
            )?;
            match allocate(
                &market,
                position.internal_supply_shares,
                probe,
                position.parent_recorded_market_allocation,
                stored.fee,
                position.affected_caps,
            ) {
                Ok(transition) => transition.market.spot_supply_rate,
                Err(_) => return Err(TopKApyError::IncompleteState),
            }
        };
        let known = smoothed.get(configured.market_id);
        let rate = if self.first_observation {
            smoothed_rate(
                known,
                market.spot_supply_rate,
                self.settings.upside_ema_alpha_bps,
            ).ok_or(TopKApyError::Arithmetic)?
        } else {
            match known {
                Some(rate) => rate,
                None => market.spot_supply_rate,
            }
        };
        Ok(
            Some(
                TopKMarketEvidence {
                    market: configured.market_id,
                    current_rate: market.spot_supply_rate,
                    post_probe_rate,
                    smoothed_rate: rate,
                    ranking_rate: market.spot_supply_rate.min(post_probe_rate).min(rate),
                    destination_capacity: capacity,
                },
            ),
        )
    }

    fn gather(&self, smoothed: &mut OrderedMap<MarketId, U256>) -> (r: Result<
        Vec<TopKMarketEvidence>,
        TopKApyError,
    >)
        ensures
            match evidence_from(self.problem(), 0, old(smoothed)@, Seq::empty()) {
                Ok((rates, evidence)) => r is Ok && r->Ok_0@ == evidence && final(smoothed)@
                    == rates,
                Err(error) => r is Err && r->Err_0 == error,
            },
    {
        let mut evidence: Vec<TopKMarketEvidence> = Vec::new();
        let mut i: usize = 0;
        while i < self.vault.positions.len()
            invariant
                i <= self.vault.positions.len(),
                evidence_from(self.problem(), 0, old(smoothed)@, Seq::empty()) == evidence_from(
                    self.problem(),
                    i as int,
                    smoothed@,
                    evidence@,
                ),
            decreases self.vault.positions.len() - i,
        {
            let configured = self.vault.positions[i];
            if configured.mode == MarketMode::Active {
                if let Some(item) = self.evidence_for(&configured, smoothed)? {
                    smoothed.insert(item.market, item.smoothed_rate);
                    evidence.push(item);
                }
            }
            i = i + 1;
        }
        Ok(evidence)
    }

    fn target(self, ranked: &Vec<TopKMarketEvidence>, memory: &TopKApyMemory) -> (r: Result<
        TopKApyTarget,
        TopKApyError,
    >)
        ensures
            match confirmed_target(self.problem(), ranked@, memory@) {
                Ok(target) => r is Ok && r->Ok_0@ == target,
                Err(error) => r is Err && r->Err_0 == error,
            },
    {
        let weights = effective_target_weights(&memory.selected_markets, ranked, self.settings)?;
        let targets = target_allocations(
            &memory.selected_markets,
            self.target_direct_assets,
            &weights,
        )?;
        let score = allocation_score(&self.current_assets, &targets, self.target_direct_assets)?;
        Ok(
            TopKApyTarget {
                selected_markets: copy_markets(&memory.selected_markets),
                target_assets_by_market: targets,
                current_assets_by_market: self.current_assets,
                evidence_by_market: store_evidence(ranked),
                target_direct_assets: self.target_direct_assets,
                current_score_wad: score,
            },
        )
    }
}

/// Observes one exact canonical state and derives the shared confirmed top-K target.
///
/// `reallocation_limits` gives, for every Active position, the supply its caps admit once
/// reallocation has released shared caps.
pub fn observe_top_k_target(
    snapshot: &ExactVaultSnapshot,
    projection: &ProjectedVaultView,
    vault: &ValidatedVaultConfig,
    settings: &ValidatedTopKApyConfig,
    reallocation_limits: &OrderedMap<PositionKey, U256>,
    memory: Option<&TopKApyMemory>,
    additional_direct_assets: U256,
) -> (r: Result<TopKApyObservation, TopKApyError>)
    ensures
        match observe_spec(
            *snapshot,
            *projection,
            *vault,
            *settings,
            reallocation_limits@,
            memory,
            additional_direct_assets,
        ) {
            Ok(observation) => r is Ok && r->Ok_0@ == observation,
            Err(error) => r is Err && r->Err_0 == error,
        },
{
    let mut next = match memory {
        Some(known) => known.clone(),
        None => TopKApyMemory::default(),
    };
    let current_assets = current_assets_by_market(projection, vault)?;
    let direct = sum_entries(&current_assets)?;
    let target_direct_assets = direct.checked_add(additional_direct_assets).ok_or(
        TopKApyError::Arithmetic,
    )?;
    let first_observation = next.last_observed_block != projection.head.number;
    let input = ObservationInput {
        snapshot,
        projection,
        vault,
        settings,
        reallocation_limits,
        current_assets,
        target_direct_assets,
        first_observation,
    };
    let evidence = input.gather(&mut next.smoothed_rate_by_market)?;
    let ranked = rank_evidence(&evidence);
    next.smoothed_rate_by_market = keep_rates(&next.smoothed_rate_by_market, &ranked);
    if first_observation {
        next.last_observed_block = projection.head.number;
        next.last_observed_timestamp = projection.head.timestamp;
    }
    let proposed = proposed_membership(
        &ranked,
        target_direct_assets,
        &input.current_assets,
        vault,
        &next,
        settings,
    )?;
    if proposed.len() < 3 {
        return Ok(
            TopKApyObservation {
                target: None,
                no_action_reason: Some(TopKApyNoActionReason::InsufficientEligibleMarkets),
                next_memory: next,
            },
        );
    }
    if !advance_membership(
        &mut next,
        &ranked,
        proposed,
        projection.head.timestamp,
        settings.membership_confirmation_seconds,
    )? {
        return Ok(
            TopKApyObservation {
                target: None,
                no_action_reason: Some(TopKApyNoActionReason::TopSetUnconfirmed),
                next_memory: next,
            },
        );
    }
    let target = input.target(&ranked, &next)?;
    Ok(TopKApyObservation { target: Some(target), no_action_reason: None, next_memory: next })
}

/// Last configured position that serves a market, among those from index `from` on and `found`.
pub open spec fn last_position_from(
    positions: Seq<ValidatedPositionConfig>,
    market: MarketId,
    from: int,
    found: Option<ValidatedPositionConfig>,
) -> Option<ValidatedPositionConfig>
    decreases positions.len() - from,
{
    if from >= positions.len() {
        found
    } else {
        last_position_from(
            positions,
            market,
            from + 1,
            if positions[from].market_id == market {
                Some(positions[from])
            } else {
                found
            },
        )
    }
}

fn find_position(positions: &Vec<ValidatedPositionConfig>, market: MarketId) -> (r: Option<
    ValidatedPositionConfig,
>)
    ensures
        r == last_position_from(positions@, market, 0, None),
{
    let mut found: Option<ValidatedPositionConfig> = None;
    let mut i: usize = 0;
    while i < positions.len()
        invariant
            i <= positions.len(),
            last_position_from(positions@, market, 0, None) == last_position_from(
                positions@,
                market,
                i as int,
                found,
            ),
        decreases positions.len() - i,
    {
        if positions[i].market_id == market {
            found = Some(positions[i]);
        }
        i = i + 1;
    }
    found
}

/// Headroom of every cap from entry `from` on, stored into `done`.
pub open spec fn headrooms_from(
    snapshot: ExactVaultSnapshot,
    projection: ProjectedVaultView,
    from: int,
    done: Seq<(CapRef, U256)>,
) -> Result<Seq<(CapRef, U256)>, TopKApyError>
    decreases snapshot.caps@.len() - from,
{
    if from >= snapshot.caps@.len() {
        Ok(done)
    } else {
        match cap_headroom_spec(snapshot, projection, snapshot.caps@[from].0) {
            None => Err(TopKApyError::IncompleteState),
            Some(headroom) => headrooms_from(
                snapshot,
                projection,
                from + 1,
                with_value(done, snapshot.caps@[from].0, headroom),
            ),
        }
    }
}

fn list_headrooms(snapshot: &ExactVaultSnapshot, projection: &ProjectedVaultView) -> (r: Result<
    OrderedMap<CapRef, U256>,
    TopKApyError,
>)
    ensures
        match headrooms_from(*snapshot, *projection, 0, Seq::empty()) {
            Ok(headrooms) => r is Ok && r->Ok_0@ == headrooms,
            Err(error) => r is Err && r->Err_0 == error,
        },
{
    let mut headrooms: OrderedMap<CapRef, U256> = OrderedMap::new();
    let mut i: usize = 0;
    while i < snapshot.caps.len()
        invariant
            i <= snapshot.caps@.len(),
            headrooms_from(*snapshot, *projection, 0, Seq::empty()) == headrooms_from(
                *snapshot,
                *projection,
                i as int,
                headrooms@,
            ),
        decreases snapshot.caps@.len() - i,
    {
        let reference = snapshot.caps.at(i).0;
        let headroom = projected_cap_headroom(snapshot, projection, reference).ok_or(
            TopKApyError::IncompleteState,
        )?;
        headrooms.insert(reference, headroom);
        i = i + 1;
    }
    Ok(headrooms)
}

/// Smallest remaining headroom of the affected caps from index `from` on and `least`.
pub open spec fn shared_headroom_from(
    headrooms: Seq<(CapRef, U256)>,
    affected: [CapRef; 3],
    from: int,
    least: Option<U256>,
) -> Result<U256, TopKApyError>
    decreases 3 - from,
{
    if from >= 3 {
        least.ok_or(TopKApyError::IncompleteState)
    } else {
        match value_of(headrooms, affected@[from]) {
            None => Err(TopKApyError::IncompleteState),
            Some(headroom) => shared_headroom_from(
                headrooms,
                affected,
                from + 1,
                match least {
                    None => Some(headroom),
                    Some(value) => Some(smaller(value, headroom)),
                },
            ),
        }
    }
}

fn shared_headroom(headrooms: &OrderedMap<CapRef, U256>, affected: [CapRef; 3]) -> (r: Result<
    U256,
    TopKApyError,
>)
    ensures
        r == shared_headroom_from(headrooms@, affected, 0, None),
{
    let mut least: Option<U256> = None;
    let mut i: usize = 0;
    while i < 3
        invariant
            i <= 3,
            shared_headroom_from(headrooms@, affected, 0, None) == shared_headroom_from(
                headrooms@,
                affected,
                i as int,
                least,
            ),
        decreases 3 - i,
    {
        let headroom = headrooms.get(affected[i]).ok_or(TopKApyError::IncompleteState)?;
        least =
        match least {
            None => Some(headroom),
            Some(value) => Some(value.min(headroom)),
        };
        i = i + 1;
    }
    least.ok_or(TopKApyError::IncompleteState)
}

/// Headrooms with an amount taken off the affected caps from index `from` on.
pub open spec fn headrooms_spent_from(
    headrooms: Seq<(CapRef, U256)>,
    affected: [CapRef; 3],
    amount: U256,
    from: int,
) -> Result<Seq<(CapRef, U256)>, TopKApyError>
    decreases 3 - from,
{
    if from >= 3 {
        Ok(headrooms)
    } else {
        match value_of(headrooms, affected@[from]) {
            None => Err(TopKApyError::IncompleteState),
            Some(headroom) => match difference(headroom, amount) {
                None => Err(TopKApyError::Arithmetic),
                Some(left) => headrooms_spent_from(
                    with_value(headrooms, affected@[from], left),
                    affected,
                    amount,
                    from + 1,
                ),
            },
        }
    }
}

fn spend_headrooms(
    headrooms: &mut OrderedMap<CapRef, U256>,
    affected: [CapRef; 3],
    amount: U256,
) -> (r: Result<(), TopKApyError>)
    ensures
        match headrooms_spent_from(old(headrooms)@, affected, amount, 0) {
            Ok(left) => r is Ok && final(headrooms)@ == left,
            Err(error) => r is Err && r->Err_0 == error,
        },
{
    let mut i: usize = 0;
    while i < 3
        invariant
            i <= 3,
            headrooms_spent_from(old(headrooms)@, affected, amount, 0) == headrooms_spent_from(
                headrooms@,
                affected,
                amount,
                i as int,
            ),
        decreases 3 - i,
    {
        let headroom = headrooms.get(affected[i]).ok_or(TopKApyError::IncompleteState)?;
        let left = headroom.checked_sub(amount).ok_or(TopKApyError::Arithmetic)?;
        headrooms.insert(affected[i], left);
        i = i + 1;
    }
    Ok(())
}

/// What a market may take of a deployment: its target deficit within the action bound, its own and
/// shared headroom, and what is left to deploy.
pub open spec fn deficit_amount(
    snapshot: ExactVaultSnapshot,
    projection: ProjectedVaultView,
    vault: ValidatedVaultConfig,
    target: TargetView,
    market: MarketId,
    headrooms: Seq<(CapRef, U256)>,
    remaining: U256,
) -> Result<(ValidatedPositionConfig, [CapRef; 3], U256), TopKApyError> {
    match last_position_from(vault.positions@, market, 0, None) {
        None => Err(TopKApyError::IncompleteState),
        Some(configured) => match (
            value_of(target.current_assets_by_market, market),
            value_of(target.target_assets_by_market, market),
            value_of(target.evidence_by_market, market),
            cap_limited_allocation_spec(snapshot, projection, configured.position_key),
            value_of(snapshot.positions@, configured.position_key),
        ) {
            (
                Some(current),
                Some(desired),
                Some(evidence),
                Some(capped),
                Some(position),
            ) => match shared_headroom_from(headrooms, position.affected_caps, 0, None) {
                Err(error) => Err(error),
                Ok(shared) => Ok(
                    (
                        configured,
                        position.affected_caps,
                        smaller(
                            smaller(
                                smaller(
                                    smaller(
                                        saturating_difference(desired, current),
                                        configured.maximum_action_assets,
                                    ),
                                    smaller(evidence.destination_capacity, capped),
                                ),
                                shared,
                            ),
                            remaining,
                        ),
                    ),
                ),
            },
            _ => Err(TopKApyError::IncompleteState),
        },
    }
}

fn find_deficit(
    snapshot: &ExactVaultSnapshot,
    projection: &ProjectedVaultView,
    vault: &ValidatedVaultConfig,
    target: &TopKApyTarget,
    market: MarketId,
    headrooms: &OrderedMap<CapRef, U256>,
    remaining: U256,
) -> (r: Result<(ValidatedPositionConfig, [CapRef; 3], U256), TopKApyError>)
    ensures
        r == deficit_amount(
            *snapshot,
            *projection,
            *vault,
            target@,
            market,
            headrooms@,
            remaining,
        ),
{
    let configured = find_position(&vault.positions, market).ok_or(TopKApyError::IncompleteState)?;
    let current = target.current_assets_by_market.get(market).ok_or(
        TopKApyError::IncompleteState,
    )?;
    let desired = target.target_assets_by_market.get(market).ok_or(TopKApyError::IncompleteState)?;
    let evidence = target.evidence_by_market.get(market).ok_or(TopKApyError::IncompleteState)?;
    let capped = cap_limited_allocation(snapshot, projection, configured.position_key).ok_or(
        TopKApyError::IncompleteState,
    )?;
    let position = snapshot.positions.get(configured.position_key).ok_or(
        TopKApyError::IncompleteState,
    )?;
    let shared = shared_headroom(headrooms, position.affected_caps)?;
    let capacity = evidence.destination_capacity.min(capped);
    let amount = desired.saturating_sub(current).min(configured.maximum_action_assets).min(
        capacity,
    ).min(shared).min(remaining);
    Ok((configured, position.affected_caps, amount))
}

/// Endpoints filled from the selected markets at index `from` on, and what remains to deploy.
pub open spec fn deficits_filled_from(
    snapshot: ExactVaultSnapshot,
    projection: ProjectedVaultView,
    vault: ValidatedVaultConfig,
    target: TargetView,
    from: int,
    headrooms: Seq<(CapRef, U256)>,
    remaining: U256,
    done: Seq<Endpoint>,
) -> Result<(Seq<Endpoint>, U256), TopKApyError>
    decreases target.selected_markets.len() - from,
{
    if from >= target.selected_markets.len() || remaining@ == 0 {
        Ok((done, remaining))
    } else {
        match deficit_amount(
            snapshot,
            projection,
            vault,
            target,
            target.selected_markets[from],
            headrooms,
            remaining,
        ) {
            Err(error) => Err(error),
            Ok((configured, affected, amount)) => if amount@ < vault.minimum_action_assets@ {
                deficits_filled_from(
                    snapshot,
                    projection,
                    vault,
                    target,
                    from + 1,
                    headrooms,
                    remaining,
                    done,
                )
            } else {
                match headrooms_spent_from(headrooms, affected, amount, 0) {
                    Err(error) => Err(error),
                    Ok(left) => match difference(remaining, amount) {
                        None => Err(TopKApyError::Arithmetic),
                        Some(rest) => deficits_filled_from(
                            snapshot,
                            projection,
                            vault,
                            target,
                            from + 1,
                            left,
                            rest,
                            done.push((configured, amount)),
                        ),
                    },
                }
            },
        }
    }
}

fn fill_deficits(
    snapshot: &ExactVaultSnapshot,
    projection: &ProjectedVaultView,
    vault: &ValidatedVaultConfig,
    target: &TopKApyTarget,
    deployment: U256,
) -> (r: Result<(Vec<Endpoint>, U256), TopKApyError>)
    ensures
        match headrooms_from(*snapshot, *projection, 0, Seq::empty()) {
            Err(error) => r is Err && r->Err_0 == error,
            Ok(headrooms) => match deficits_filled_from(
                *snapshot,
                *projection,
                *vault,
                target@,
                0,
                headrooms,
                deployment,
                Seq::empty(),
            ) {
                Ok((endpoints, left)) => r is Ok && r->Ok_0.0@ == endpoints && r->Ok_0.1 == left,
                Err(error) => r is Err && r->Err_0 == error,
            },
        },
{
    let mut headrooms = list_headrooms(snapshot, projection)?;
    let ghost goal = deficits_filled_from(
        *snapshot,
        *projection,
        *vault,
        target@,
        0,
        headrooms@,
        deployment,
        Seq::empty(),
    );
    let ghost first = headrooms@;
    let mut remaining = deployment;
    let mut filled: Vec<Endpoint> = Vec::new();
    let mut i: usize = 0;
    while i < target.selected_markets.len() && !remaining.is_zero()
        invariant
            i <= target.selected_markets.len(),
            headrooms_from(*snapshot, *projection, 0, Seq::empty()) == Ok::<
                Seq<(CapRef, U256)>,
                TopKApyError,
            >(first),
            goal == deficits_filled_from(
                *snapshot,
                *projection,
                *vault,
                target@,
                0,
                first,
                deployment,
                Seq::empty(),
            ),
            goal == deficits_filled_from(
                *snapshot,
                *projection,
                *vault,
                target@,
                i as int,
                headrooms@,
                remaining,
                filled@,
            ),
        decreases target.selected_markets.len() - i,
    {
        let (configured, affected, amount) = find_deficit(
            snapshot,
            projection,
            vault,
            target,
            target.selected_markets[i],
            &headrooms,
            remaining,
        )?;
        if vault.minimum_action_assets.le(amount) {
            spend_headrooms(&mut headrooms, affected, amount)?;
            remaining = remaining.checked_sub(amount).ok_or(TopKApyError::Arithmetic)?;
            filled.push((configured, amount));
        }
        i = i + 1;
    }
    Ok((filled, remaining))
}

/// Amounts of actions.
pub open spec fn action_amounts(actions: Seq<ActionView>) -> Seq<U256> {
    Seq::new(actions.len(), |i: int| actions[i].requested)
}

/// Outcome of simulating one deployment: the plan, or the evidence of its rejection.
pub open spec fn deployment_outcome(
    snapshot: ExactVaultSnapshot,
    projection: ProjectedVaultView,
    vault: ValidatedVaultConfig,
    total_assets: U256,
    allocated: U256,
    actions: Seq<ActionView>,
    certificate: CertificateView,
) -> CapitalResultView {
    match simulation_spec(snapshot, projection, vault, actions) {
        Err(_) => empty_capital_result(certificate.rejected(RejectionReason::Simulation)),
        Ok(state) => if service_constraints_spec(state, snapshot, vault) is Err {
            empty_capital_result(certificate.rejected(RejectionReason::Service))
        } else if state.immediate_loss_assets@ > vault.maximum_immediate_rebalance_loss_assets@ {
            empty_capital_result(certificate.rejected(RejectionReason::ImmediateLoss))
        } else {
            CapitalResultView {
                actions,
                state: Some(state),
                pending: pending_spec(snapshot, vault, total_assets, allocated),
                certificate,
            }
        },
    }
}

/// Supplies of every endpoint amount.
pub open spec fn supplies(endpoints: Seq<Endpoint>) -> Seq<ActionView> {
    Seq::new(
        endpoints.len(),
        |i: int| endpoint_action(endpoints[i].0, ActionKind::Allocate, endpoints[i].1),
    )
}

/// Withdrawal that funds a deployment beyond idle, then the supplies.
pub open spec fn funded_actions(
    vault: ValidatedVaultConfig,
    withdrawal: U256,
    endpoints: Seq<Endpoint>,
) -> Result<Seq<ActionView>, TopKApyError> {
    if withdrawal@ == 0 {
        Ok(supplies(endpoints))
    } else {
        match vault.liquidity_adapter {
            None => Err(TopKApyError::IncompleteState),
            Some(adapter) => Ok(
                seq![
                    ActionView {
                        kind: ActionKind::Deallocate,
                        position: adapter.position_key,
                        adapter: adapter.address,
                        data: Seq::empty(),
                        requested: withdrawal,
                    },
                ] + supplies(endpoints),
            ),
        }
    }
}

/// Deployment of verified capital into frozen target deficits.
pub open spec fn top_k_deployment_spec(
    snapshot: ExactVaultSnapshot,
    projection: ProjectedVaultView,
    vault: ValidatedVaultConfig,
    target: TargetView,
    funding: TopKDeployableCapital,
    limits: TopKSolveLimits,
) -> Result<CapitalResultView, TopKApyError> {
    let fresh = CertificateView::begun(limits.maximum_nodes);
    match mul_div_down_spec(
        funding.total_assets,
        u256(limits.immediate_tranche_bps as nat),
        u256(10_000),
    ) {
        Err(_) => Err(TopKApyError::Arithmetic),
        Ok(deployment) => if deployment@ < vault.minimum_action_assets@ {
            Ok(empty_capital_result(fresh))
        } else {
            match headrooms_from(snapshot, projection, 0, Seq::empty()) {
                Err(error) => Err(error),
                Ok(headrooms) => match deficits_filled_from(
                    snapshot,
                    projection,
                    vault,
                    target,
                    0,
                    headrooms,
                    deployment,
                    Seq::empty(),
                ) {
                    Err(error) => Err(error),
                    Ok((endpoints, remaining)) => match difference(deployment, remaining) {
                        None => Err(TopKApyError::Arithmetic),
                        Some(allocated) => if allocated@ < vault.minimum_action_assets@ {
                            Ok(empty_capital_result(fresh))
                        } else {
                            let withdrawal = saturating_difference(allocated, funding.idle_assets);
                            if withdrawal@ > funding.liquidity_assets@ {
                                Err(TopKApyError::IncompleteState)
                            } else {
                                match funded_actions(vault, withdrawal, endpoints) {
                                    Err(error) => Err(error),
                                    Ok(actions) => if actions.len() > limits.maximum_actions
                                        || limits.maximum_nodes == 0 {
                                        Ok(empty_capital_result(fresh.incomplete()))
                                    } else {
                                        Ok(
                                            deployment_outcome(
                                                snapshot,
                                                projection,
                                                vault,
                                                funding.total_assets,
                                                allocated,
                                                actions,
                                                fresh.counted().over_lattice(
                                                    b256(
                                                        keccak256_digest(
                                                            words_from(
                                                                action_amounts(actions),
                                                                0,
                                                                big_endian(allocated@, 32),
                                                            ),
                                                        ),
                                                    ),
                                                ),
                                            ),
                                        )
                                    },
                                }
                            }
                        },
                    },
                },
            }
        },
    }
}

fn fund_actions(
    vault: &ValidatedVaultConfig,
    withdrawal: U256,
    endpoints: &Vec<Endpoint>,
) -> (r: Result<Vec<V2Action>, TopKApyError>)
    ensures
        match funded_actions(*vault, withdrawal, endpoints@) {
            Ok(actions) => r is Ok && actions_view(r->Ok_0@) == actions,
            Err(error) => r is Err && r->Err_0 == error,
        },
{
    let mut actions: Vec<V2Action> = Vec::new();
    assert(actions_view(actions@) =~= Seq::<ActionView>::empty());
    if !withdrawal.is_zero() {
        let adapter = vault.liquidity_adapter.ok_or(TopKApyError::IncompleteState)?;
        let data: Vec<u8> = Vec::new();
        assert(data@ =~= Seq::<u8>::empty());
        actions.push(
            V2Action::build(
                ActionKind::Deallocate,
                adapter.position_key,
                adapter.address,
                data,
                withdrawal,
            ),
        );
        assert(actions_view(actions@) =~= seq![
            ActionView {
                kind: ActionKind::Deallocate,
                position: adapter.position_key,
                adapter: adapter.address,
                data: Seq::empty(),
                requested: withdrawal,
            },
        ]);
    }
    let ghost first = actions_view(actions@);
    let ghost all = supplies(endpoints@);
    assert(first + all.subrange(0, 0) =~= first);
    let mut i: usize = 0;
    while i < endpoints.len()
        invariant
            i <= endpoints.len(),
            all == supplies(endpoints@),
            actions_view(actions@) == first + all.subrange(0, i as int),
        decreases endpoints.len() - i,
    {
        let (position, amount) = endpoints[i];
        let ghost held = actions_view(actions@);
        actions.push(
            V2Action::build(
                ActionKind::Allocate,
                position.position_key,
                position.adapter,
                encode_adapter_data(&position.market_params),
                amount,
            ),
        );
        assert(actions_view(actions@) =~= held.push(all[i as int]));
        i = i + 1;
        assert(actions_view(actions@) =~= first + all.subrange(0, i as int));
    }
    assert(all.subrange(0, i as int) =~= all);
    assert(Seq::<ActionView>::empty() + all =~= all);
    Ok(actions)
}

fn hash_action_amounts(allocated: U256, actions: &Vec<V2Action>) -> (r: B256)
    ensures
        r == b256(
            keccak256_digest(
                words_from(action_amounts(actions_view(actions@)), 0, big_endian(allocated@, 32)),
            ),
        ),
{
    broadcast use group_b256;

    let ghost amounts = action_amounts(actions_view(actions@));
    let ghost first = big_endian(allocated@, 32);
    let mut encoded: Vec<u8> = allocated.to_be_bytes();
    let mut i: usize = 0;
    while i < actions.len()
        invariant
            i <= actions.len(),
            amounts == action_amounts(actions_view(actions@)),
            words_from(amounts, 0, first) == words_from(amounts, i as int, encoded@),
        decreases actions.len() - i,
    {
        append_bytes(&mut encoded, &actions[i].requested().to_be_bytes());
        i = i + 1;
    }
    keccak256(encoded.as_slice())
}

/// Deploys verified capital only into frozen top-K target deficits.
pub fn solve_top_k_capital_deployment(
    snapshot: &ExactVaultSnapshot,
    projection: &ProjectedVaultView,
    vault: &ValidatedVaultConfig,
    target: &TopKApyTarget,
    funding: TopKDeployableCapital,
    limits: TopKSolveLimits,
) -> (r: Result<CapitalSolveResult, TopKApyError>)
    ensures
        match top_k_deployment_spec(*snapshot, *projection, *vault, target@, funding, limits) {
            Ok(result) => r is Ok && r->Ok_0@ == result,
            Err(error) => r is Err && r->Err_0 == error,
        },
{
    let mut certificate = SearchCertificate::begin(limits.maximum_nodes);
    let deployment = match mul_div_down(
        funding.total_assets,
        U256::from_u64(limits.immediate_tranche_bps as u64),
        U256::from_u64(10_000),
    ) {
        Ok(value) => value,
        Err(_) => return Err(TopKApyError::Arithmetic),
    };
    if deployment.lt(vault.minimum_action_assets) {
        return Ok(empty_result(certificate));
    }
    let (endpoints, remaining) = fill_deficits(snapshot, projection, vault, target, deployment)?;
    let allocated = deployment.checked_sub(remaining).ok_or(TopKApyError::Arithmetic)?;
    if allocated.lt(vault.minimum_action_assets) {
        return Ok(empty_result(certificate));
    }
    let withdrawal = allocated.saturating_sub(funding.idle_assets);
    if funding.liquidity_assets.lt(withdrawal) {
        return Err(TopKApyError::IncompleteState);
    }
    let actions = fund_actions(vault, withdrawal, &endpoints)?;
    assert(actions_view(actions@).len() == actions.len());
    if actions.len() > limits.maximum_actions || limits.maximum_nodes == 0 {
        certificate.search_complete = false;
        return Ok(empty_result(certificate));
    }
    certificate.nodes_evaluated = 1;
    certificate.candidate_lattice_hash = hash_action_amounts(allocated, &actions);
    let state = match simulate_actions(snapshot, projection, vault, &actions) {
        Ok(state) => state,
        Err(_) => {
            let _counted = certificate.reject(RejectionReason::Simulation);
            return Ok(empty_result(certificate));
        },
    };
    if state.validate_service_constraints(snapshot, vault).is_err() {
        let _counted = certificate.reject(RejectionReason::Service);
        return Ok(empty_result(certificate));
    }
    if vault.maximum_immediate_rebalance_loss_assets.lt(state.immediate_loss_assets) {
        let _counted = certificate.reject(RejectionReason::ImmediateLoss);
        return Ok(empty_result(certificate));
    }
    let pending = pending_after(snapshot, vault, funding.total_assets, allocated);
    Ok(CapitalSolveResult { actions, state: Some(state), pending, certificate })
}

/// Sources from index `from` of the markets on: current assets above target, within the action
/// bound and above the position minimum.
pub open spec fn excess_sources_from(
    target: TargetView,
    positions: Seq<ValidatedPositionConfig>,
    markets: Seq<MarketId>,
    from: int,
    done: Seq<Endpoint>,
) -> Seq<Endpoint>
    decreases markets.len() - from,
{
    if from >= markets.len() {
        done
    } else {
        let next = match (
            value_of(target.current_assets_by_market, markets[from]),
            last_position_from(positions, markets[from], 0, None),
        ) {
            (Some(current), Some(configured)) => {
                let available = smaller(
                    smaller(
                        saturating_difference(
                            current,
                            amount_of(target.target_assets_by_market, markets[from]),
                        ),
                        configured.maximum_action_assets,
                    ),
                    saturating_difference(current, configured.minimum_position_assets),
                );
                if available@ == 0 {
                    done
                } else {
                    done.push((configured, available))
                }
            },
            _ => done,
        };
        excess_sources_from(target, positions, markets, from + 1, next)
    }
}

fn excess_sources(target: &TopKApyTarget, positions: &Vec<ValidatedPositionConfig>) -> (r: Vec<
    Endpoint,
>)
    ensures
        r@ == excess_sources_from(
            target@,
            positions@,
            markets_of_either(
                target@.current_assets_by_market,
                target@.target_assets_by_market,
            ),
            0,
            Seq::empty(),
        ),
{
    let markets = either_markets(
        &target.current_assets_by_market,
        &target.target_assets_by_market,
    );
    let mut sources: Vec<Endpoint> = Vec::new();
    let mut i: usize = 0;
    while i < markets.len()
        invariant
            i <= markets@.len(),
            excess_sources_from(target@, positions@, markets@, 0, Seq::empty())
                == excess_sources_from(target@, positions@, markets@, i as int, sources@),
        decreases markets@.len() - i,
    {
        let market = markets.at(i);
        if let Some(current) = target.current_assets_by_market.get(market) {
            if let Some(configured) = find_position(positions, market) {
                let desired = stored_amount(&target.target_assets_by_market, market);
                let available = current.saturating_sub(desired).min(
                    configured.maximum_action_assets,
                ).min(current.saturating_sub(configured.minimum_position_assets));
                if !available.is_zero() {
                    sources.push((configured, available));
                }
            }
        }
        i = i + 1;
    }
    sources
}

/// Index of the first endpoint from `from` on whose market comes after the market of `endpoint`.
pub open spec fn market_place_from(sorted: Seq<Endpoint>, endpoint: Endpoint, from: int) -> int
    decreases sorted.len() - from,
{
    if from >= sorted.len() {
        sorted.len() as int
    } else if endpoint.0.market_id.rank() < sorted[from].0.market_id.rank() {
        from
    } else {
        market_place_from(sorted, endpoint, from + 1)
    }
}

/// Destinations of the selected markets from index `from` on, in market order: target assets above
/// current ones, within the action bound and the observed headroom.
pub open spec fn deficit_destinations_from(
    target: TargetView,
    positions: Seq<ValidatedPositionConfig>,
    from: int,
    sorted: Seq<Endpoint>,
) -> Seq<Endpoint>
    decreases target.selected_markets.len() - from,
{
    if from >= target.selected_markets.len() {
        sorted
    } else {
        let market = target.selected_markets[from];
        let next = match (
            value_of(target.current_assets_by_market, market),
            value_of(target.target_assets_by_market, market),
            last_position_from(positions, market, 0, None),
            value_of(target.evidence_by_market, market),
        ) {
            (Some(current), Some(desired), Some(configured), Some(evidence)) => {
                let available = smaller(
                    smaller(
                        saturating_difference(desired, current),
                        configured.maximum_action_assets,
                    ),
                    evidence.destination_capacity,
                );
                if available@ == 0 {
                    sorted
                } else {
                    sorted.insert(
                        market_place_from(sorted, (configured, available), 0),
                        (configured, available),
                    )
                }
            },
            _ => sorted,
        };
        deficit_destinations_from(target, positions, from + 1, next)
    }
}

fn insert_by_market(sorted: &mut Vec<Endpoint>, endpoint: Endpoint)
    ensures
        final(sorted)@ == old(sorted)@.insert(
            market_place_from(old(sorted)@, endpoint, 0),
            endpoint,
        ),
{
    let mut at: usize = 0;
    while at < sorted.len() && !endpoint.0.market_id.before(sorted[at].0.market_id)
        invariant
            at <= sorted.len(),
            sorted@ == old(sorted)@,
            market_place_from(sorted@, endpoint, 0) == market_place_from(
                sorted@,
                endpoint,
                at as int,
            ),
        decreases sorted.len() - at,
    {
        at = at + 1;
    }
    sorted.insert(at, endpoint);
}

fn deficit_destinations(target: &TopKApyTarget, positions: &Vec<ValidatedPositionConfig>) -> (r: Vec<
    Endpoint,
>)
    ensures
        r@ == deficit_destinations_from(target@, positions@, 0, Seq::empty()),
{
    let mut sorted: Vec<Endpoint> = Vec::new();
    let mut i: usize = 0;
    while i < target.selected_markets.len()
        invariant
            i <= target.selected_markets.len(),
            deficit_destinations_from(target@, positions@, 0, Seq::empty())
                == deficit_destinations_from(target@, positions@, i as int, sorted@),
        decreases target.selected_markets.len() - i,
    {
        let market = target.selected_markets[i];
        if let Some(current) = target.current_assets_by_market.get(market) {
            if let Some(desired) = target.target_assets_by_market.get(market) {
                if let Some(configured) = find_position(positions, market) {
                    if let Some(evidence) = target.evidence_by_market.get(market) {
                        let available = desired.saturating_sub(current).min(
                            configured.maximum_action_assets,
                        ).min(evidence.destination_capacity);
                        if !available.is_zero() {
                            insert_by_market(&mut sorted, (configured, available));
                        }
                    }
                }
            }
        }
        i = i + 1;
    }
    sorted
}

/// Lattice of every maximum with itself as the boundary.
pub open spec fn own_lattices(maximums: Seq<U256>, minimum_action: U256) -> Seq<Seq<U256>> {
    Seq::new(
        maximums.len(),
        |i: int| lattice_amounts(minimum_action, maximums[i], seq![maximums[i]], 8),
    )
}

fn build_own_lattices(maximums: &Vec<U256>, minimum_action: U256) -> (r: Vec<Vec<U256>>)
    ensures
        rows_view(r@) == own_lattices(maximums@, minimum_action),
        r.len() == maximums.len(),
{
    let ghost goal = own_lattices(maximums@, minimum_action);
    let mut lattices: Vec<Vec<U256>> = Vec::new();
    assert(rows_view(lattices@) =~= goal.subrange(0, 0));
    let mut i: usize = 0;
    while i < maximums.len()
        invariant
            i <= maximums.len(),
            lattices.len() == i,
            goal == own_lattices(maximums@, minimum_action),
            rows_view(lattices@) == goal.subrange(0, i as int),
        decreases maximums.len() - i,
    {
        let boundaries: Vec<U256> = vec![maximums[i]];
        assert(boundaries@ =~= seq![maximums@[i as int]]);
        let lattice = build_candidate_lattice(minimum_action, maximums[i], &boundaries, 8);
        let ghost held = rows_view(lattices@);
        let ghost added = lattice.amounts@;
        lattices.push(lattice.amounts);
        i = i + 1;
        assert(rows_view(lattices@) =~= held.push(added));
        assert(rows_view(lattices@) =~= goal.subrange(0, i as int));
    }
    assert(goal.subrange(0, i as int) =~= goal);
    lattices
}

/// What a list of action sequences holds.
pub open spec fn sequences_view(sequences: Seq<Vec<V2Action>>) -> Seq<Seq<ActionView>> {
    Seq::new(sequences.len(), |i: int| actions_view(sequences[i]@))
}

/// Action sequences for the pairs of rows from `(i, j)` on, and whether none was cut off by the
/// limit.
pub open spec fn pair_sequences_from(
    sources: Seq<Endpoint>,
    destinations: Seq<Endpoint>,
    source_rows: Seq<Seq<U256>>,
    destination_rows: Seq<Seq<U256>>,
    limit: nat,
    i: int,
    j: int,
    done: Seq<Seq<ActionView>>,
) -> (Seq<Seq<ActionView>>, bool)
    decreases source_rows.len() - i, destination_rows.len() - j,
{
    if i >= source_rows.len() {
        (done, true)
    } else if j >= destination_rows.len() {
        pair_sequences_from(
            sources,
            destinations,
            source_rows,
            destination_rows,
            limit,
            i + 1,
            0,
            done,
        )
    } else if done.len() >= limit {
        (done, false)
    } else {
        pair_sequences_from(
            sources,
            destinations,
            source_rows,
            destination_rows,
            limit,
            i,
            j + 1,
            done.push(
                endpoint_actions_from(
                    destinations,
                    destination_rows[j],
                    ActionKind::Allocate,
                    0,
                    endpoint_actions_from(
                        sources,
                        source_rows[i],
                        ActionKind::Deallocate,
                        0,
                        Seq::empty(),
                    ),
                ),
            ),
        )
    }
}

/// Enumeration bound of a node budget, at least one.
pub open spec fn distribution_limit_spec(maximum_nodes: u64) -> nat {
    if maximum_nodes == 0 {
        1
    } else if maximum_nodes <= usize::MAX {
        maximum_nodes as nat
    } else {
        usize::MAX as nat
    }
}

/// Action sequences that move the requested amount from excess to deficit markets, and whether the
/// enumeration was complete.
pub open spec fn movement_candidates_spec(
    target: TargetView,
    vault: ValidatedVaultConfig,
    requested_movement: U256,
    maximum_nodes: u64,
) -> Result<(Seq<Seq<ActionView>>, bool), TopKApyError> {
    let sources = excess_sources_from(
        target,
        vault.positions@,
        markets_of_either(target.current_assets_by_market, target.target_assets_by_market),
        0,
        Seq::empty(),
    );
    let destinations = deficit_destinations_from(target, vault.positions@, 0, Seq::empty());
    match (
        endpoint_total_from(sources, 0, u256(0)),
        endpoint_total_from(destinations, 0, u256(0)),
    ) {
        (Some(source_total), Some(destination_total)) => {
            let movement = smaller(smaller(requested_movement, source_total), destination_total);
            if movement@ == 0 {
                Ok((Seq::empty(), true))
            } else {
                let minimum = vault.minimum_action_assets;
                let limit = distribution_limit_spec(maximum_nodes);
                let source_maximums = endpoint_maximums(sources);
                let destination_maximums = endpoint_maximums(destinations);
                match (
                    bounded_distributions_spec(
                        source_maximums,
                        own_lattices(source_maximums, minimum),
                        movement,
                        minimum,
                        limit,
                    ),
                    bounded_distributions_spec(
                        destination_maximums,
                        own_lattices(destination_maximums, minimum),
                        movement,
                        minimum,
                        limit,
                    ),
                ) {
                    (Some(source_rows), Some(destination_rows)) => Ok(
                        pair_sequences_from(
                            sources,
                            destinations,
                            source_rows,
                            destination_rows,
                            limit,
                            0,
                            0,
                            Seq::empty(),
                        ),
                    ),
                    _ => Ok((Seq::empty(), false)),
                }
            }
        },
        _ => Err(TopKApyError::Arithmetic),
    }
}

/// Bounded enumeration of movement action sequences.
pub struct MovementActionCandidates {
    /// Action sequences in enumeration order.
    pub actions: Vec<Vec<V2Action>>,
    /// Whether nothing was cut off.
    pub search_complete: bool,
}

fn pair_sequences(
    sources: &Vec<Endpoint>,
    destinations: &Vec<Endpoint>,
    source_rows: &Vec<Vec<U256>>,
    destination_rows: &Vec<Vec<U256>>,
    limit: usize,
) -> (r: MovementActionCandidates)
    ensures
        (sequences_view(r.actions@), r.search_complete) == pair_sequences_from(
            sources@,
            destinations@,
            rows_view(source_rows@),
            rows_view(destination_rows@),
            limit as nat,
            0,
            0,
            Seq::empty(),
        ),
{
    let ghost from = rows_view(source_rows@);
    let ghost to = rows_view(destination_rows@);
    let ghost goal = pair_sequences_from(
        sources@,
        destinations@,
        from,
        to,
        limit as nat,
        0,
        0,
        Seq::empty(),
    );
    let mut sequences: Vec<Vec<V2Action>> = Vec::new();
    assert(sequences_view(sequences@) =~= Seq::<Seq<ActionView>>::empty());
    let mut i: usize = 0;
    while i < source_rows.len()
        invariant
            i <= source_rows.len(),
            from == rows_view(source_rows@),
            to == rows_view(destination_rows@),
            goal == pair_sequences_from(
                sources@,
                destinations@,
                rows_view(source_rows@),
                rows_view(destination_rows@),
                limit as nat,
                0,
                0,
                Seq::empty(),
            ),
            goal == pair_sequences_from(
                sources@,
                destinations@,
                from,
                to,
                limit as nat,
                i as int,
                0,
                sequences_view(sequences@),
            ),
        decreases source_rows.len() - i,
    {
        let mut j: usize = 0;
        while j < destination_rows.len()
            invariant
                i < source_rows.len(),
                j <= destination_rows.len(),
                from == rows_view(source_rows@),
                to == rows_view(destination_rows@),
                goal == pair_sequences_from(
                    sources@,
                    destinations@,
                    rows_view(source_rows@),
                    rows_view(destination_rows@),
                    limit as nat,
                    0,
                    0,
                    Seq::empty(),
                ),
                goal == pair_sequences_from(
                    sources@,
                    destinations@,
                    from,
                    to,
                    limit as nat,
                    i as int,
                    j as int,
                    sequences_view(sequences@),
                ),
            decreases destination_rows.len() - j,
        {
            assert(sequences_view(sequences@).len() == sequences.len());
            if sequences.len() >= limit {
                return MovementActionCandidates { actions: sequences, search_complete: false };
            }
            let mut actions: Vec<V2Action> = Vec::new();
            assert(actions_view(actions@) =~= Seq::<ActionView>::empty());
            assert(from[i as int] == source_rows@[i as int]@);
            assert(to[j as int] == destination_rows@[j as int]@);
            push_endpoint_actions(sources, &source_rows[i], ActionKind::Deallocate, &mut actions);
            push_endpoint_actions(
                destinations,
                &destination_rows[j],
                ActionKind::Allocate,
                &mut actions,
            );
            let ghost held = sequences_view(sequences@);
            let ghost added = actions_view(actions@);
            sequences.push(actions);
            assert(sequences_view(sequences@) =~= held.push(added));
            j = j + 1;
        }
        i = i + 1;
    }
    MovementActionCandidates { actions: sequences, search_complete: true }
}

/// Enumerates action sequences that move the requested amount from excess to deficit markets.
pub fn movement_action_candidates(
    target: &TopKApyTarget,
    vault: &ValidatedVaultConfig,
    requested_movement: U256,
    maximum_nodes: u64,
) -> (r: Result<MovementActionCandidates, TopKApyError>)
    ensures
        match movement_candidates_spec(target@, *vault, requested_movement, maximum_nodes) {
            Ok((sequences, complete)) => r is Ok && sequences_view(r->Ok_0.actions@) == sequences
                && r->Ok_0.search_complete == complete,
            Err(error) => r is Err && r->Err_0 == error,
        },
{
    let sources = excess_sources(target, &vault.positions);
    let destinations = deficit_destinations(target, &vault.positions);
    let source_total = endpoint_total(&sources).ok_or(TopKApyError::Arithmetic)?;
    let destination_total = endpoint_total(&destinations).ok_or(TopKApyError::Arithmetic)?;
    let movement = requested_movement.min(source_total).min(destination_total);
    let nothing: Vec<Vec<V2Action>> = Vec::new();
    assert(sequences_view(nothing@) =~= Seq::<Seq<ActionView>>::empty());
    if movement.is_zero() {
        return Ok(MovementActionCandidates { actions: nothing, search_complete: true });
    }
    let limit: usize = if maximum_nodes == 0 {
        1
    } else if maximum_nodes <= usize::MAX as u64 {
        maximum_nodes as usize
    } else {
        usize::MAX
    };
    let source_maximums = list_maximums(&sources);
    let destination_maximums = list_maximums(&destinations);
    let source_lattices = build_own_lattices(&source_maximums, vault.minimum_action_assets);
    let destination_lattices = build_own_lattices(
        &destination_maximums,
        vault.minimum_action_assets,
    );
    let source_rows = match bounded_distributions(
        &source_maximums,
        &source_lattices,
        movement,
        vault.minimum_action_assets,
        limit,
    ) {
        Some(rows) => rows,
        None => return Ok(MovementActionCandidates { actions: nothing, search_complete: false }),
    };
    let destination_rows = match bounded_distributions(
        &destination_maximums,
        &destination_lattices,
        movement,
        vault.minimum_action_assets,
        limit,
    ) {
        Some(rows) => rows,
        None => return Ok(MovementActionCandidates { actions: nothing, search_complete: false }),
    };
    Ok(pair_sequences(&sources, &destinations, &source_rows, &destination_rows, limit))
}

/// Candidate movements in increasing order: the tranche, its half and quarter, and the minimum
/// action, each executable and within the full movement.
pub open spec fn rising_amounts(full: U256, tranche: U256, minimum_action: U256) -> Seq<U256> {
    amounts_kept_from(
        seq![tranche, u256(tranche@ / 2), u256(tranche@ / 4), minimum_action],
        full,
        minimum_action,
        0,
        Seq::empty(),
    )
}

/// Amounts from index `from` on within bounds, added to ordered amounts.
pub open spec fn amounts_kept_from(
    amounts: Seq<U256>,
    full: U256,
    minimum_action: U256,
    from: int,
    kept: Seq<U256>,
) -> Seq<U256>
    decreases amounts.len() - from,
{
    if from >= amounts.len() {
        kept
    } else {
        amounts_kept_from(
            amounts,
            full,
            minimum_action,
            from + 1,
            if minimum_action@ <= amounts[from]@ <= full@ {
                with_key(kept, amounts[from])
            } else {
                kept
            },
        )
    }
}

/// Candidate movements, largest first.
pub open spec fn candidate_amounts_spec(
    full: U256,
    immediate_tranche_bps: u32,
    minimum_action: U256,
) -> Result<Seq<U256>, TopKApyError> {
    match mul_div_down_spec(full, u256(immediate_tranche_bps as nat), u256(10_000)) {
        Err(_) => Err(TopKApyError::Arithmetic),
        Ok(tranche) => Ok(rising_amounts(full, tranche, minimum_action).reverse()),
    }
}

/// Lists candidate movements, the tranche before smaller fallbacks.
pub fn candidate_amounts(
    full: U256,
    immediate_tranche_bps: u32,
    minimum_action_assets: U256,
) -> (r: Result<Vec<U256>, TopKApyError>)
    ensures
        match candidate_amounts_spec(full, immediate_tranche_bps, minimum_action_assets) {
            Ok(amounts) => r is Ok && r->Ok_0@ == amounts,
            Err(error) => r is Err && r->Err_0 == error,
        },
{
    broadcast use group_u256;

    let tranche = match mul_div_down(
        full,
        U256::from_u64(immediate_tranche_bps as u64),
        U256::from_u64(10_000),
    ) {
        Ok(value) => value,
        Err(_) => return Err(TopKApyError::Arithmetic),
    };
    let half = match tranche.checked_div(U256::from_u64(2)) {
        Some(value) => value,
        None => U256::zero(),
    };
    let quarter = match tranche.checked_div(U256::from_u64(4)) {
        Some(value) => value,
        None => U256::zero(),
    };
    let options: Vec<U256> = vec![tranche, half, quarter, minimum_action_assets];
    assert(options@ =~= seq![
        tranche,
        u256(tranche@ / 2),
        u256(tranche@ / 4),
        minimum_action_assets,
    ]);
    let mut kept: OrderedSet<U256> = OrderedSet::new();
    let mut i: usize = 0;
    while i < options.len()
        invariant
            i <= options.len(),
            amounts_kept_from(options@, full, minimum_action_assets, 0, Seq::empty())
                == amounts_kept_from(options@, full, minimum_action_assets, i as int, kept@),
        decreases options.len() - i,
    {
        if minimum_action_assets.le(options[i]) && options[i].le(full) {
            let _added = kept.insert(options[i]);
        }
        i = i + 1;
    }
    let ghost goal = kept@.reverse();
    let mut amounts: Vec<U256> = Vec::new();
    let mut left: usize = kept.len();
    while left > 0
        invariant
            left <= kept@.len(),
            goal == kept@.reverse(),
            amounts@ == goal.subrange(0, kept@.len() - left),
        decreases left,
    {
        left = left - 1;
        amounts.push(kept.at(left));
        assert(amounts@ =~= goal.subrange(0, kept@.len() - left));
    }
    assert(amounts@ =~= goal);
    Ok(amounts)
}

/// One exact top-K market-to-market candidate.
pub struct TopKApyCandidate {
    /// Strict deallocation-first semantic action sequence.
    pub actions: Vec<V2Action>,
    /// Exact sequential post-action state.
    pub state: SimulationState,
    /// Frozen score before execution.
    pub before_score_wad: U256,
    /// Frozen score after execution.
    pub after_score_wad: U256,
    /// Exact requested movement.
    pub movement_assets: U256,
    /// Exact native supply-rate weighted portfolio value before execution.
    pub before_portfolio_rate: U256,
    /// Exact native supply-rate weighted portfolio value after execution.
    pub after_portfolio_rate: U256,
}

/// What a top-K candidate holds.
pub ghost struct TopKCandidateView {
    /// Actions.
    pub actions: Seq<ActionView>,
    /// State after the actions.
    pub state: SimulationView,
    /// Score before.
    pub before_score_wad: U256,
    /// Score after.
    pub after_score_wad: U256,
    /// Requested movement.
    pub movement_assets: U256,
    /// Portfolio rate before.
    pub before_portfolio_rate: U256,
    /// Portfolio rate after.
    pub after_portfolio_rate: U256,
}

impl View for TopKApyCandidate {
    type V = TopKCandidateView;

    open spec fn view(&self) -> TopKCandidateView {
        TopKCandidateView {
            actions: actions_view(self.actions@),
            state: self.state@,
            before_score_wad: self.before_score_wad,
            after_score_wad: self.after_score_wad,
            movement_assets: self.movement_assets,
            before_portfolio_rate: self.before_portfolio_rate,
            after_portfolio_rate: self.after_portfolio_rate,
        }
    }
}

/// Complete bounded strategy result.
pub struct TopKApySolveResult {
    /// Best exactly simulated candidate.
    pub best: Option<TopKApyCandidate>,
    /// Stable no-action reason when no candidate exists.
    pub no_action_reason: Option<TopKApyNoActionReason>,
    /// Auditable bounded-search evidence.
    pub certificate: SearchCertificate,
}

/// What a strategy result holds.
pub ghost struct TopKResultView {
    /// Best candidate.
    pub best: Option<TopKCandidateView>,
    /// No-action reason.
    pub no_action_reason: Option<TopKApyNoActionReason>,
    /// Search evidence.
    pub certificate: CertificateView,
}

/// What an optional candidate holds.
pub open spec fn candidate_view(candidate: Option<TopKApyCandidate>) -> Option<TopKCandidateView> {
    match candidate {
        Some(value) => Some(value@),
        None => None,
    }
}

impl View for TopKApySolveResult {
    type V = TopKResultView;

    open spec fn view(&self) -> TopKResultView {
        TopKResultView {
            best: candidate_view(self.best),
            no_action_reason: self.no_action_reason,
            certificate: self.certificate@,
        }
    }
}

/// Assets by market after a simulation, of the positions from index `from` on.
pub open spec fn simulated_assets_from(
    state: SimulationView,
    positions: Seq<ValidatedPositionConfig>,
    from: int,
    done: Seq<(MarketId, U256)>,
) -> Result<Seq<(MarketId, U256)>, TopKApyError>
    decreases positions.len() - from,
{
    if from >= positions.len() {
        Ok(done)
    } else {
        match position_assets(state, positions[from].position_key) {
            None => Err(TopKApyError::IncompleteState),
            Some(assets) => simulated_assets_from(
                state,
                positions,
                from + 1,
                with_value(done, positions[from].market_id, assets),
            ),
        }
    }
}

fn simulation_assets_by_market(state: &SimulationState, vault: &ValidatedVaultConfig) -> (r: Result<
    OrderedMap<MarketId, U256>,
    TopKApyError,
>)
    ensures
        match simulated_assets_from(state@, vault.positions@, 0, Seq::empty()) {
            Ok(assets) => r is Ok && r->Ok_0@ == assets,
            Err(error) => r is Err && r->Err_0 == error,
        },
{
    let mut assets: OrderedMap<MarketId, U256> = OrderedMap::new();
    let mut i: usize = 0;
    while i < vault.positions.len()
        invariant
            i <= vault.positions.len(),
            simulated_assets_from(state@, vault.positions@, 0, Seq::empty())
                == simulated_assets_from(state@, vault.positions@, i as int, assets@),
        decreases vault.positions.len() - i,
    {
        let position = vault.positions[i];
        let amount = state.position_expected_assets(position.position_key).ok_or(
            TopKApyError::IncompleteState,
        )?;
        assets.insert(position.market_id, amount);
        i = i + 1;
    }
    Ok(assets)
}

/// Canonical bytes of the actions from index `from` on: direction, position and amount.
pub open spec fn action_bytes_from(actions: Seq<ActionView>, from: int, done: Seq<u8>) -> Seq<u8>
    decreases actions.len() - from,
{
    if from >= actions.len() {
        done
    } else {
        let tag: u8 = match actions[from].kind {
            ActionKind::Deallocate => 0,
            ActionKind::Allocate => 1,
        };
        action_bytes_from(
            actions,
            from + 1,
            done.push(tag) + big_endian(actions[from].position.0@, 32) + big_endian(
                actions[from].requested@,
                32,
            ),
        )
    }
}

fn append_action_bytes(buffer: &mut Vec<u8>, actions: &Vec<V2Action>)
    ensures
        final(buffer)@ == action_bytes_from(actions_view(actions@), 0, old(buffer)@),
{
    let ghost views = actions_view(actions@);
    let mut i: usize = 0;
    while i < actions.len()
        invariant
            i <= actions.len(),
            views == actions_view(actions@),
            action_bytes_from(views, 0, old(buffer)@) == action_bytes_from(
                views,
                i as int,
                buffer@,
            ),
        decreases actions.len() - i,
    {
        let tag: u8 = match actions[i].kind() {
            ActionKind::Deallocate => 0,
            ActionKind::Allocate => 1,
        };
        buffer.push(tag);
        append_bytes(buffer, &actions[i].position().0.to_bytes());
        append_bytes(buffer, &actions[i].requested().to_be_bytes());
        i = i + 1;
    }
}

/// Withdrawn assets of the actions from index `from` on, added to `total`.
pub open spec fn withdrawn_from(actions: Seq<ActionView>, from: int, total: U256) -> Result<
    U256,
    TopKApyError,
>
    decreases actions.len() - from,
{
    if from >= actions.len() {
        Ok(total)
    } else if actions[from].kind == ActionKind::Allocate {
        withdrawn_from(actions, from + 1, total)
    } else {
        match sum(total, actions[from].requested) {
            None => Err(TopKApyError::Arithmetic),
            Some(next) => withdrawn_from(actions, from + 1, next),
        }
    }
}

fn withdrawn_assets(actions: &Vec<V2Action>) -> (r: Result<U256, TopKApyError>)
    ensures
        r == withdrawn_from(actions_view(actions@), 0, u256(0)),
{
    let ghost views = actions_view(actions@);
    let mut total = U256::zero();
    let mut i: usize = 0;
    while i < actions.len()
        invariant
            i <= actions.len(),
            views == actions_view(actions@),
            withdrawn_from(views, 0, u256(0)) == withdrawn_from(views, i as int, total),
        decreases actions.len() - i,
    {
        if actions[i].kind() == ActionKind::Deallocate {
            total = total.checked_add(actions[i].requested()).ok_or(TopKApyError::Arithmetic)?;
        }
        i = i + 1;
    }
    Ok(total)
}

/// Frozen inputs of one top-K rebalance search.
pub ghost struct RebalanceProblem {
    /// Exact snapshot.
    pub snapshot: ExactVaultSnapshot,
    /// Inclusion projection.
    pub projection: ProjectedVaultView,
    /// Vault policy.
    pub vault: ValidatedVaultConfig,
    /// Strategy policy.
    pub settings: ValidatedTopKApyConfig,
    /// Frozen target.
    pub target: TargetView,
    /// Action-count bound.
    pub maximum_actions: usize,
    /// Portfolio rate before any action.
    pub before_portfolio_rate: U256,
}

/// Whether the yield sacrificed for diversification stays within budget.
pub open spec fn sacrifice_within(
    before_rate: U256,
    after_rate: U256,
    budget: U256,
) -> Result<bool, TopKApyError> {
    match (annualized_spec(before_rate), annualized_spec(after_rate)) {
        (Ok(before), Ok(after)) => Ok(
            match sum(after, budget) {
                Some(with_budget) => with_budget@ >= before@,
                None => false,
            },
        ),
        _ => Err(TopKApyError::Arithmetic),
    }
}

/// Why an action sequence is no candidate.
#[derive(Clone, Copy, Debug, PartialEq, Eq, Structural)]
pub enum RebalanceRefusal {
    /// A hard constraint fails.
    Constraint(RejectionReason),
    /// The sequence simulates within the service and loss bounds, and improves the score by less
    /// than the minimum.
    SmallImprovement,
}

impl RebalanceRefusal {
    /// Rejection category under which a refusal is counted.
    pub open spec fn category(self) -> RejectionReason {
        match self {
            RebalanceRefusal::Constraint(reason) => reason,
            RebalanceRefusal::SmallImprovement => RejectionReason::SpreadWorsening,
        }
    }
}

/// One action sequence: a candidate, why it is refused, or an evaluation failure.
pub open spec fn rebalance_assessment(
    problem: RebalanceProblem,
    actions: Seq<ActionView>,
) -> Result<Result<TopKCandidateView, RebalanceRefusal>, TopKApyError> {
    if actions.len() == 0 || actions.len() > problem.maximum_actions {
        Ok(Err(RebalanceRefusal::Constraint(RejectionReason::Simulation)))
    } else {
        match simulation_spec(problem.snapshot, problem.projection, problem.vault, actions) {
            Err(_) => Ok(Err(RebalanceRefusal::Constraint(RejectionReason::Simulation))),
            Ok(state) => if service_constraints_spec(state, problem.snapshot, problem.vault) is Err {
                Ok(Err(RebalanceRefusal::Constraint(RejectionReason::Service)))
            } else if state.immediate_loss_assets@
                > problem.vault.maximum_immediate_rebalance_loss_assets@ {
                Ok(Err(RebalanceRefusal::Constraint(RejectionReason::ImmediateLoss)))
            } else {
                match simulated_assets_from(state, problem.vault.positions@, 0, Seq::empty()) {
                    Err(error) => Err(error),
                    Ok(assets) => match score_spec(
                        assets,
                        problem.target.target_assets_by_market,
                        problem.target.target_direct_assets,
                    ) {
                        Err(error) => Err(error),
                        Ok(score) => if saturating_difference(
                            problem.target.current_score_wad,
                            score,
                        )@ < problem.settings.minimum_improvement_score_wad@ {
                            Ok(Err(RebalanceRefusal::SmallImprovement))
                        } else {
                            match portfolio_rate_spec(assets, state.markets) {
                                Err(error) => Err(error),
                                Ok(rate) => match sacrifice_within(
                                    problem.before_portfolio_rate,
                                    rate,
                                    problem.settings.maximum_diversification_cost_apy_wad,
                                ) {
                                    Err(error) => Err(error),
                                    Ok(within) => if !within {
                                        Ok(
                                            Err(
                                                RebalanceRefusal::Constraint(
                                                    RejectionReason::SpreadWorsening,
                                                ),
                                            ),
                                        )
                                    } else {
                                        match withdrawn_from(actions, 0, u256(0)) {
                                            Err(error) => Err(error),
                                            Ok(movement) => Ok(
                                                Ok(
                                                    TopKCandidateView {
                                                        actions,
                                                        state,
                                                        before_score_wad:
                                                            problem.target.current_score_wad,
                                                        after_score_wad: score,
                                                        movement_assets: movement,
                                                        before_portfolio_rate:
                                                            problem.before_portfolio_rate,
                                                        after_portfolio_rate: rate,
                                                    },
                                                ),
                                            ),
                                        }
                                    },
                                },
                            }
                        },
                    },
                }
            },
        }
    }
}

/// Ranking tuple of a candidate, smaller first: distance, larger yield, loss, movement, actions.
pub open spec fn candidate_ranking(candidate: TopKCandidateView) -> Seq<int> {
    seq![
        candidate.after_score_wad@ as int,
        -(candidate.after_portfolio_rate@ as int),
        candidate.state.immediate_loss_assets@ as int,
        candidate.movement_assets@ as int,
        candidate.actions.len() as int,
    ]
}

fn candidate_before(left: &TopKApyCandidate, right: &TopKApyCandidate) -> (r: bool)
    ensures
        r == lexicographically_before(candidate_ranking(left@), candidate_ranking(right@)),
{
    proof {
        let a = candidate_ranking(left@);
        let b = candidate_ranking(right@);
        reveal_with_fuel(lexicographically_before, 6);
        assert(a.drop_first()[0] == a[1] && b.drop_first()[0] == b[1]);
        assert(a.drop_first().drop_first()[0] == a[2]);
        assert(b.drop_first().drop_first()[0] == b[2]);
        assert(a.drop_first().drop_first().drop_first()[0] == a[3]);
        assert(b.drop_first().drop_first().drop_first()[0] == b[3]);
        assert(a.drop_first().drop_first().drop_first().drop_first()[0] == a[4]);
        assert(b.drop_first().drop_first().drop_first().drop_first()[0] == b[4]);
        assert(left@.actions.len() == left.actions.len());
        assert(right@.actions.len() == right.actions.len());
    }
    if left.after_score_wad.lt(right.after_score_wad) {
        return true;
    }
    if right.after_score_wad.lt(left.after_score_wad) {
        return false;
    }
    if right.after_portfolio_rate.lt(left.after_portfolio_rate) {
        return true;
    }
    if left.after_portfolio_rate.lt(right.after_portfolio_rate) {
        return false;
    }
    if left.state.immediate_loss_assets.lt(right.state.immediate_loss_assets) {
        return true;
    }
    if right.state.immediate_loss_assets.lt(left.state.immediate_loss_assets) {
        return false;
    }
    if left.movement_assets.lt(right.movement_assets) {
        return true;
    }
    if right.movement_assets.lt(left.movement_assets) {
        return false;
    }
    left.actions.len() < right.actions.len()
}

/// Progress of one top-K rebalance search.
pub ghost struct RebalanceProgress {
    /// Search evidence.
    pub certificate: CertificateView,
    /// Canonical bytes of everything searched.
    pub identity: Seq<u8>,
    /// Best candidate so far.
    pub best: Option<TopKCandidateView>,
    /// Whether a sequence was refused for too small an improvement alone.
    pub small_improvement: bool,
}

/// Progress after one more node.
pub open spec fn rebalance_evaluated(
    problem: RebalanceProblem,
    amount: U256,
    actions: Seq<ActionView>,
    progress: RebalanceProgress,
) -> Result<RebalanceProgress, TopKApyError> {
    let counted = progress.certificate.counted();
    let identity = action_bytes_from(
        actions,
        0,
        progress.identity + big_endian(amount@, 32),
    );
    match rebalance_assessment(problem, actions) {
        Err(error) => Err(error),
        Ok(Err(refusal)) => Ok(
            RebalanceProgress {
                certificate: counted.rejected(refusal.category()),
                identity,
                small_improvement: progress.small_improvement || refusal
                    == RebalanceRefusal::SmallImprovement,
                ..progress
            },
        ),
        Ok(Ok(candidate)) => Ok(
            RebalanceProgress {
                certificate: counted,
                identity,
                small_improvement: progress.small_improvement,
                best: match progress.best {
                    None => Some(candidate),
                    Some(current) => if lexicographically_before(
                        candidate_ranking(candidate),
                        candidate_ranking(current),
                    ) {
                        Some(candidate)
                    } else {
                        progress.best
                    },
                },
            },
        ),
    }
}

/// Progress over the sequences of one amount from index `from` on, and whether the node limit
/// stopped the search.
pub open spec fn rebalance_sequences_from(
    problem: RebalanceProblem,
    amount: U256,
    sequences: Seq<Seq<ActionView>>,
    from: int,
    progress: RebalanceProgress,
) -> Result<(RebalanceProgress, bool), TopKApyError>
    decreases sequences.len() - from,
{
    if from >= sequences.len() {
        Ok((progress, false))
    } else if progress.certificate.nodes_evaluated >= progress.certificate.node_limit {
        Ok((RebalanceProgress { certificate: progress.certificate.incomplete(), ..progress }, true))
    } else {
        match rebalance_evaluated(problem, amount, sequences[from], progress) {
            Err(error) => Err(error),
            Ok(next) => rebalance_sequences_from(problem, amount, sequences, from + 1, next),
        }
    }
}

/// Progress over the amounts from index `from` on.
pub open spec fn rebalance_amounts_from(
    problem: RebalanceProblem,
    amounts: Seq<U256>,
    from: int,
    progress: RebalanceProgress,
) -> Result<RebalanceProgress, TopKApyError>
    decreases amounts.len() - from,
{
    if from >= amounts.len() {
        Ok(progress)
    } else if progress.certificate.nodes_evaluated >= progress.certificate.node_limit {
        Ok(RebalanceProgress { certificate: progress.certificate.incomplete(), ..progress })
    } else {
        let left = (progress.certificate.node_limit - progress.certificate.nodes_evaluated) as u64;
        match movement_candidates_spec(problem.target, problem.vault, amounts[from], left) {
            Err(error) => Err(error),
            Ok((sequences, complete)) => if !complete {
                Ok(RebalanceProgress { certificate: progress.certificate.incomplete(), ..progress })
            } else {
                match rebalance_sequences_from(problem, amounts[from], sequences, 0, progress) {
                    Err(error) => Err(error),
                    Ok((next, stopped)) => if stopped {
                        Ok(next)
                    } else {
                        rebalance_amounts_from(problem, amounts, from + 1, next)
                    },
                }
            },
        }
    }
}

/// Current assets above target, market by market.
pub open spec fn excesses(target: TargetView) -> Seq<U256> {
    Seq::new(
        target.current_assets_by_market.len(),
        |i: int|
            saturating_difference(
                target.current_assets_by_market[i].1,
                amount_of(
                    target.target_assets_by_market,
                    target.current_assets_by_market[i].0,
                ),
            ),
    )
}

fn excess_total(target: &TopKApyTarget) -> (r: Result<U256, TopKApyError>)
    ensures
        r == checked_total_from(excesses(target@), 0, u256(0)).ok_or(TopKApyError::Arithmetic),
{
    let ghost values = excesses(target@);
    let mut total = U256::zero();
    let mut i: usize = 0;
    while i < target.current_assets_by_market.len()
        invariant
            i <= target.current_assets_by_market@.len(),
            values == excesses(target@),
            checked_total_from(values, 0, u256(0)) == checked_total_from(values, i as int, total),
        decreases target.current_assets_by_market@.len() - i,
    {
        let (market, current) = target.current_assets_by_market.at(i);
        let excess = current.saturating_sub(
            stored_amount(&target.target_assets_by_market, market),
        );
        total = total.checked_add(excess).ok_or(TopKApyError::Arithmetic)?;
        i = i + 1;
    }
    Ok(total)
}

/// Deterministic top-K rebalance.
pub open spec fn top_k_rebalance_spec(
    snapshot: ExactVaultSnapshot,
    projection: ProjectedVaultView,
    vault: ValidatedVaultConfig,
    settings: ValidatedTopKApyConfig,
    target: TargetView,
    limits: TopKSolveLimits,
) -> Result<TopKResultView, TopKApyError> {
    let fresh = CertificateView::begun(limits.maximum_nodes);
    if target.current_score_wad@ <= settings.target_score_wad@ {
        Ok(
            TopKResultView {
                best: None,
                no_action_reason: Some(TopKApyNoActionReason::TargetReached),
                certificate: fresh,
            },
        )
    } else if target.current_score_wad@ < settings.entry_score_wad@ {
        Ok(
            TopKResultView {
                best: None,
                no_action_reason: Some(TopKApyNoActionReason::BelowEntryScore),
                certificate: fresh,
            },
        )
    } else {
        match checked_total_from(excesses(target), 0, u256(0)) {
            None => Err(TopKApyError::Arithmetic),
            Some(excess) => match candidate_amounts_spec(
                excess,
                limits.immediate_tranche_bps,
                vault.minimum_action_assets,
            ) {
                Err(error) => Err(error),
                Ok(amounts) => match portfolio_rate_spec(
                    target.current_assets_by_market,
                    projection.markets@,
                ) {
                    Err(error) => Err(error),
                    Ok(before_portfolio_rate) => match rebalance_amounts_from(
                        RebalanceProblem {
                            snapshot,
                            projection,
                            vault,
                            settings,
                            target,
                            maximum_actions: limits.maximum_actions,
                            before_portfolio_rate,
                        },
                        amounts,
                        0,
                        RebalanceProgress {
                            certificate: fresh,
                            identity: words_from(amounts, 0, Seq::empty()),
                            best: None,
                            small_improvement: false,
                        },
                    ) {
                        Err(error) => Err(error),
                        Ok(searched) => Ok(
                            TopKResultView {
                                best: searched.best,
                                no_action_reason: if !searched.certificate.search_complete {
                                    Some(TopKApyNoActionReason::SearchIncomplete)
                                } else if searched.best is Some {
                                    None
                                } else if searched.small_improvement {
                                    Some(TopKApyNoActionReason::ImprovementBelowMinimum)
                                } else {
                                    Some(TopKApyNoActionReason::NoFeasibleCandidate)
                                },
                                certificate: searched.certificate.over_lattice(
                                    b256(keccak256_digest(searched.identity)),
                                ),
                            },
                        ),
                    },
                },
            },
        }
    }
}

struct RebalanceSearch<'a> {
    snapshot: &'a ExactVaultSnapshot,
    projection: &'a ProjectedVaultView,
    vault: &'a ValidatedVaultConfig,
    settings: &'a ValidatedTopKApyConfig,
    target: &'a TopKApyTarget,
    maximum_actions: usize,
    before_portfolio_rate: U256,
}

impl<'a> RebalanceSearch<'a> {
    spec fn problem(&self) -> RebalanceProblem {
        RebalanceProblem {
            snapshot: *self.snapshot,
            projection: *self.projection,
            vault: *self.vault,
            settings: *self.settings,
            target: self.target@,
            maximum_actions: self.maximum_actions,
            before_portfolio_rate: self.before_portfolio_rate,
        }
    }

    fn assess(&self, actions: &Vec<V2Action>) -> (r: Result<
        Result<TopKApyCandidate, RebalanceRefusal>,
        TopKApyError,
    >)
        ensures
            match rebalance_assessment(self.problem(), actions_view(actions@)) {
                Err(error) => r is Err && r->Err_0 == error,
                Ok(Err(refusal)) => r is Ok && r->Ok_0 is Err && r->Ok_0->Err_0 == refusal,
                Ok(Ok(candidate)) => r is Ok && r->Ok_0 is Ok && r->Ok_0->Ok_0@ == candidate,
            },
    {
        assert(actions_view(actions@).len() == actions.len());
        if actions.len() == 0 || actions.len() > self.maximum_actions {
            return Ok(Err(RebalanceRefusal::Constraint(RejectionReason::Simulation)));
        }
        let state = match simulate_actions(self.snapshot, self.projection, self.vault, actions) {
            Ok(state) => state,
            Err(_) => return Ok(
                Err(RebalanceRefusal::Constraint(RejectionReason::Simulation)),
            ),
        };
        if state.validate_service_constraints(self.snapshot, self.vault).is_err() {
            return Ok(Err(RebalanceRefusal::Constraint(RejectionReason::Service)));
        }
        if self.vault.maximum_immediate_rebalance_loss_assets.lt(state.immediate_loss_assets) {
            return Ok(Err(RebalanceRefusal::Constraint(RejectionReason::ImmediateLoss)));
        }
        let assets = simulation_assets_by_market(&state, self.vault)?;
        let score = allocation_score(
            &assets,
            &self.target.target_assets_by_market,
            self.target.target_direct_assets,
        )?;
        if self.target.current_score_wad.saturating_sub(score).lt(
            self.settings.minimum_improvement_score_wad,
        ) {
            return Ok(Err(RebalanceRefusal::SmallImprovement));
        }
        let rate = portfolio_rate(&assets, &state.markets)?;
        let before = annualized_supply_yield(self.before_portfolio_rate)?;
        let after = annualized_supply_yield(rate)?;
        let within = match after.checked_add(self.settings.maximum_diversification_cost_apy_wad) {
            Some(with_budget) => before.le(with_budget),
            None => false,
        };
        if !within {
            return Ok(Err(RebalanceRefusal::Constraint(RejectionReason::SpreadWorsening)));
        }
        let movement_assets = withdrawn_assets(actions)?;
        Ok(
            Ok(
                TopKApyCandidate {
                    actions: crate::domain::copy_actions(actions),
                    state,
                    before_score_wad: self.target.current_score_wad,
                    after_score_wad: score,
                    movement_assets,
                    before_portfolio_rate: self.before_portfolio_rate,
                    after_portfolio_rate: rate,
                },
            ),
        )
    }

    fn search_sequences(
        &self,
        amount: U256,
        sequences: &Vec<Vec<V2Action>>,
        certificate: &mut SearchCertificate,
        identity: &mut Vec<u8>,
        best: &mut Option<TopKApyCandidate>,
        small_improvement: &mut bool,
    ) -> (r: Result<bool, TopKApyError>)
        ensures
            match rebalance_sequences_from(
                self.problem(),
                amount,
                sequences_view(sequences@),
                0,
                RebalanceProgress {
                    certificate: old(certificate)@,
                    identity: old(identity)@,
                    best: candidate_view(*old(best)),
                    small_improvement: *old(small_improvement),
                },
            ) {
                Err(error) => r is Err && r->Err_0 == error,
                Ok((next, stopped)) => r is Ok && r->Ok_0 == stopped && next == (
                RebalanceProgress {
                    certificate: final(certificate)@,
                    identity: final(identity)@,
                    best: candidate_view(*final(best)),
                    small_improvement: *final(small_improvement),
                }),
            },
    {
        let ghost views = sequences_view(sequences@);
        let ghost goal = rebalance_sequences_from(
            self.problem(),
            amount,
            views,
            0,
            RebalanceProgress {
                certificate: certificate@,
                identity: identity@,
                best: candidate_view(*best),
                small_improvement: *small_improvement,
            },
        );
        let mut i: usize = 0;
        while i < sequences.len()
            invariant
                i <= sequences.len(),
                views == sequences_view(sequences@),
                goal == rebalance_sequences_from(
                    self.problem(),
                    amount,
                    sequences_view(sequences@),
                    0,
                    RebalanceProgress {
                        certificate: old(certificate)@,
                        identity: old(identity)@,
                        best: candidate_view(*old(best)),
                        small_improvement: *old(small_improvement),
                    },
                ),
                goal == rebalance_sequences_from(
                    self.problem(),
                    amount,
                    views,
                    i as int,
                    RebalanceProgress {
                        certificate: certificate@,
                        identity: identity@,
                        best: candidate_view(*best),
                        small_improvement: *small_improvement,
                    },
                ),
            decreases sequences.len() - i,
        {
            if certificate.nodes_evaluated >= certificate.node_limit {
                certificate.search_complete = false;
                return Ok(true);
            }
            assert(views[i as int] == actions_view(sequences@[i as int]@));
            certificate.nodes_evaluated = certificate.nodes_evaluated + 1;
            append_bytes(identity, &amount.to_be_bytes());
            append_action_bytes(identity, &sequences[i]);
            match self.assess(&sequences[i])? {
                Ok(candidate) => {
                    let improves = match &*best {
                        None => true,
                        Some(current) => candidate_before(&candidate, current),
                    };
                    if improves {
                        *best = Some(candidate);
                    }
                },
                Err(RebalanceRefusal::Constraint(reason)) => {
                    let _counted = certificate.reject(reason);
                },
                Err(RebalanceRefusal::SmallImprovement) => {
                    *small_improvement = true;
                    let _counted = certificate.reject(RejectionReason::SpreadWorsening);
                },
            }
            i = i + 1;
        }
        Ok(false)
    }

    fn search_amounts(
        &self,
        amounts: &Vec<U256>,
        certificate: &mut SearchCertificate,
        identity: &mut Vec<u8>,
        best: &mut Option<TopKApyCandidate>,
        small_improvement: &mut bool,
    ) -> (r: Result<(), TopKApyError>)
        ensures
            match rebalance_amounts_from(
                self.problem(),
                amounts@,
                0,
                RebalanceProgress {
                    certificate: old(certificate)@,
                    identity: old(identity)@,
                    best: candidate_view(*old(best)),
                    small_improvement: *old(small_improvement),
                },
            ) {
                Err(error) => r is Err && r->Err_0 == error,
                Ok(next) => r is Ok && next == (RebalanceProgress {
                    certificate: final(certificate)@,
                    identity: final(identity)@,
                    best: candidate_view(*final(best)),
                    small_improvement: *final(small_improvement),
                }),
            },
    {
        let ghost goal = rebalance_amounts_from(
            self.problem(),
            amounts@,
            0,
            RebalanceProgress {
                certificate: certificate@,
                identity: identity@,
                best: candidate_view(*best),
                small_improvement: *small_improvement,
            },
        );
        let mut i: usize = 0;
        while i < amounts.len()
            invariant
                i <= amounts.len(),
                goal == rebalance_amounts_from(
                    self.problem(),
                    amounts@,
                    0,
                    RebalanceProgress {
                        certificate: old(certificate)@,
                        identity: old(identity)@,
                        best: candidate_view(*old(best)),
                        small_improvement: *old(small_improvement),
                    },
                ),
                goal == rebalance_amounts_from(
                    self.problem(),
                    amounts@,
                    i as int,
                    RebalanceProgress {
                        certificate: certificate@,
                        identity: identity@,
                        best: candidate_view(*best),
                        small_improvement: *small_improvement,
                    },
                ),
            decreases amounts.len() - i,
        {
            if certificate.nodes_evaluated >= certificate.node_limit {
                certificate.search_complete = false;
                return Ok(());
            }
            let left: u64 = certificate.node_limit - certificate.nodes_evaluated;
            let candidates = movement_action_candidates(
                self.target,
                self.vault,
                amounts[i],
                left,
            )?;
            if !candidates.search_complete {
                certificate.search_complete = false;
                return Ok(());
            }
            if self.search_sequences(
                amounts[i],
                &candidates.actions,
                certificate,
                identity,
                best,
                small_improvement,
            )? {
                return Ok(());
            }
            i = i + 1;
        }
        Ok(())
    }
}

fn encode_amounts(amounts: &Vec<U256>) -> (r: Vec<u8>)
    ensures
        r@ == words_from(amounts@, 0, Seq::empty()),
{
    let mut encoded: Vec<u8> = Vec::new();
    let mut i: usize = 0;
    while i < amounts.len()
        invariant
            i <= amounts.len(),
            words_from(amounts@, 0, Seq::empty()) == words_from(amounts@, i as int, encoded@),
        decreases amounts.len() - i,
    {
        append_bytes(&mut encoded, &amounts[i].to_be_bytes());
        i = i + 1;
    }
    encoded
}

/// Builds and exactly simulates deterministic top-K market-to-market candidates.
pub fn solve_top_k_rebalance(
    snapshot: &ExactVaultSnapshot,
    projection: &ProjectedVaultView,
    vault: &ValidatedVaultConfig,
    settings: &ValidatedTopKApyConfig,
    target: &TopKApyTarget,
    limits: TopKSolveLimits,
) -> (r: Result<TopKApySolveResult, TopKApyError>)
    ensures
        match top_k_rebalance_spec(
            *snapshot,
            *projection,
            *vault,
            *settings,
            target@,
            limits,
        ) {
            Ok(result) => r is Ok && r->Ok_0@ == result,
            Err(error) => r is Err && r->Err_0 == error,
        },
{
    broadcast use group_b256;

    let mut certificate = SearchCertificate::begin(limits.maximum_nodes);
    if target.current_score_wad.le(settings.target_score_wad) {
        return Ok(
            TopKApySolveResult {
                best: None,
                no_action_reason: Some(TopKApyNoActionReason::TargetReached),
                certificate,
            },
        );
    }
    if target.current_score_wad.lt(settings.entry_score_wad) {
        return Ok(
            TopKApySolveResult {
                best: None,
                no_action_reason: Some(TopKApyNoActionReason::BelowEntryScore),
                certificate,
            },
        );
    }
    let excess = excess_total(target)?;
    let amounts = candidate_amounts(
        excess,
        limits.immediate_tranche_bps,
        vault.minimum_action_assets,
    )?;
    let mut identity = encode_amounts(&amounts);
    let before_portfolio_rate = portfolio_rate(
        &target.current_assets_by_market,
        &projection.markets,
    )?;
    let search = RebalanceSearch {
        snapshot,
        projection,
        vault,
        settings,
        target,
        maximum_actions: limits.maximum_actions,
        before_portfolio_rate,
    };
    let mut best: Option<TopKApyCandidate> = None;
    let mut small_improvement = false;
    search.search_amounts(
        &amounts,
        &mut certificate,
        &mut identity,
        &mut best,
        &mut small_improvement,
    )?;
    certificate.candidate_lattice_hash = keccak256(identity.as_slice());
    let no_action_reason = if !certificate.search_complete {
        Some(TopKApyNoActionReason::SearchIncomplete)
    } else if best.is_some() {
        None
    } else if small_improvement {
        Some(TopKApyNoActionReason::ImprovementBelowMinimum)
    } else {
        Some(TopKApyNoActionReason::NoFeasibleCandidate)
    };
    Ok(TopKApySolveResult { best, no_action_reason, certificate })
}

spec fn rebalance_sound(problem: RebalanceProblem, progress: RebalanceProgress) -> bool {
    &&& progress.certificate.nodes_evaluated <= progress.certificate.node_limit
    &&& match progress.best {
        Some(best) => {
            &&& simulation_spec(problem.snapshot, problem.projection, problem.vault, best.actions)
                == Ok::<SimulationView, crate::planner::simulator::SimulationError>(best.state)
            &&& service_constraints_spec(best.state, problem.snapshot, problem.vault) is Ok
            &&& best.state.immediate_loss_assets@
                <= problem.vault.maximum_immediate_rebalance_loss_assets@
            &&& saturating_difference(problem.target.current_score_wad, best.after_score_wad)@
                >= problem.settings.minimum_improvement_score_wad@
            &&& 0 < best.actions.len() <= problem.maximum_actions
        },
        None => true,
    }
}

proof fn lemma_rebalance_sequences(
    problem: RebalanceProblem,
    amount: U256,
    sequences: Seq<Seq<ActionView>>,
    from: int,
    progress: RebalanceProgress,
)
    requires
        0 <= from <= sequences.len(),
        rebalance_sound(problem, progress),
        rebalance_sequences_from(problem, amount, sequences, from, progress) is Ok,
    ensures
        ({
            let (next, stopped) = rebalance_sequences_from(
                problem,
                amount,
                sequences,
                from,
                progress,
            )->Ok_0;
            &&& rebalance_sound(problem, next)
            &&& next.certificate.node_limit == progress.certificate.node_limit
            &&& stopped ==> !next.certificate.search_complete
        }),
    decreases sequences.len() - from,
{
    if from < sequences.len() && progress.certificate.nodes_evaluated
        < progress.certificate.node_limit {
        let next = rebalance_evaluated(problem, amount, sequences[from], progress)->Ok_0;
        lemma_rebalance_sequences(problem, amount, sequences, from + 1, next);
    }
}

proof fn lemma_rebalance_amounts(
    problem: RebalanceProblem,
    amounts: Seq<U256>,
    from: int,
    progress: RebalanceProgress,
)
    requires
        0 <= from <= amounts.len(),
        rebalance_sound(problem, progress),
        rebalance_amounts_from(problem, amounts, from, progress) is Ok,
    ensures
        ({
            let next = rebalance_amounts_from(problem, amounts, from, progress)->Ok_0;
            rebalance_sound(problem, next) && next.certificate.node_limit
                == progress.certificate.node_limit
        }),
    decreases amounts.len() - from,
{
    if from < amounts.len() && progress.certificate.nodes_evaluated
        < progress.certificate.node_limit {
        let left = (progress.certificate.node_limit - progress.certificate.nodes_evaluated) as u64;
        let (sequences, complete) = movement_candidates_spec(
            problem.target,
            problem.vault,
            amounts[from],
            left,
        )->Ok_0;
        if complete {
            lemma_rebalance_sequences(problem, amounts[from], sequences, 0, progress);
            let (next, stopped) = rebalance_sequences_from(
                problem,
                amounts[from],
                sequences,
                0,
                progress,
            )->Ok_0;
            if !stopped {
                lemma_rebalance_amounts(problem, amounts, from + 1, next);
            }
        }
    }
}

/// Frozen inputs of the search of one vault.
pub open spec fn rebalance_problem(
    snapshot: ExactVaultSnapshot,
    projection: ProjectedVaultView,
    vault: ValidatedVaultConfig,
    settings: ValidatedTopKApyConfig,
    target: TargetView,
    limits: TopKSolveLimits,
) -> RebalanceProblem {
    RebalanceProblem {
        snapshot,
        projection,
        vault,
        settings,
        target,
        maximum_actions: limits.maximum_actions,
        before_portfolio_rate: portfolio_rate_spec(
            target.current_assets_by_market,
            projection.markets@,
        )->Ok_0,
    }
}

/// Amounts that the search of one vault tries, in order.
pub open spec fn rebalance_amounts(
    vault: ValidatedVaultConfig,
    target: TargetView,
    limits: TopKSolveLimits,
) -> Seq<U256> {
    candidate_amounts_spec(
        checked_total_from(excesses(target), 0, u256(0))->0,
        limits.immediate_tranche_bps,
        vault.minimum_action_assets,
    )->Ok_0
}

/// A top-K rebalance evaluates at most the configured nodes; its best candidate holds at most the
/// allowed actions, simulates to its state, meets every service floor, stays within the loss bound
/// and improves the score by at least the minimum. An incomplete search is always reported.
pub proof fn top_k_rebalance_is_bounded_and_feasible(
    snapshot: ExactVaultSnapshot,
    projection: ProjectedVaultView,
    vault: ValidatedVaultConfig,
    settings: ValidatedTopKApyConfig,
    target: TargetView,
    limits: TopKSolveLimits,
)
    requires
        top_k_rebalance_spec(snapshot, projection, vault, settings, target, limits) is Ok,
    ensures
        ({
            let result = top_k_rebalance_spec(
                snapshot,
                projection,
                vault,
                settings,
                target,
                limits,
            )->Ok_0;
            &&& result.certificate.nodes_evaluated <= limits.maximum_nodes
            &&& !result.certificate.search_complete ==> result.no_action_reason == Some(
                TopKApyNoActionReason::SearchIncomplete,
            )
            &&& result.no_action_reason is None ==> result.best is Some
            &&& match result.best {
                Some(best) => {
                    &&& simulation_spec(snapshot, projection, vault, best.actions) == Ok::<
                        SimulationView,
                        crate::planner::simulator::SimulationError,
                    >(best.state)
                    &&& service_constraints_spec(best.state, snapshot, vault) is Ok
                    &&& best.state.immediate_loss_assets@
                        <= vault.maximum_immediate_rebalance_loss_assets@
                    &&& saturating_difference(target.current_score_wad, best.after_score_wad)@
                        >= settings.minimum_improvement_score_wad@
                    &&& 0 < best.actions.len() <= limits.maximum_actions
                },
                None => true,
            }
        }),
{
    if target.current_score_wad@ > settings.target_score_wad@ && target.current_score_wad@
        >= settings.entry_score_wad@ {
        let amounts = rebalance_amounts(vault, target, limits);
        lemma_rebalance_amounts(
            rebalance_problem(snapshot, projection, vault, settings, target, limits),
            amounts,
            0,
            RebalanceProgress {
                certificate: CertificateView::begun(limits.maximum_nodes),
                identity: words_from(amounts, 0, Seq::empty()),
                best: None,
                small_improvement: false,
            },
        );
    }
}

/// Whether a sequence simulates within the service and loss bounds, and improves the score by less
/// than the minimum.
#[verifier::opaque]
pub open spec fn improves_too_little(problem: RebalanceProblem, actions: Seq<ActionView>) -> bool {
    match rebalance_assessment(problem, actions) {
        Ok(Err(refusal)) => refusal == RebalanceRefusal::SmallImprovement,
        _ => false,
    }
}

/// Whether a sequence fails a hard constraint.
pub open spec fn fails_a_constraint(problem: RebalanceProblem, actions: Seq<ActionView>) -> bool {
    match rebalance_assessment(problem, actions) {
        Ok(Err(refusal)) => refusal != RebalanceRefusal::SmallImprovement,
        _ => false,
    }
}

/// Whether every sequence of an amount, enumerated completely within a node bound, fails a hard
/// constraint.
pub open spec fn infeasible_within(problem: RebalanceProblem, amount: U256, left: u64) -> bool {
    match movement_candidates_spec(problem.target, problem.vault, amount, left) {
        Ok((sequences, complete)) => complete && forall|i: int|
            0 <= i < sequences.len() ==> fails_a_constraint(problem, #[trigger] sequences[i]),
        Err(_) => false,
    }
}

/// Whether an amount was enumerated completely and each of its sequences fails a hard constraint.
#[verifier::opaque]
pub open spec fn amount_is_infeasible(problem: RebalanceProblem, amount: U256) -> bool {
    exists|left: u64| #[trigger] infeasible_within(problem, amount, left)
}

proof fn lemma_sequence_refusals(
    problem: RebalanceProblem,
    amount: U256,
    sequences: Seq<Seq<ActionView>>,
    from: int,
    progress: RebalanceProgress,
)
    requires
        0 <= from <= sequences.len(),
        rebalance_sequences_from(problem, amount, sequences, from, progress) is Ok,
    ensures
        ({
            let (next, stopped) = rebalance_sequences_from(
                problem,
                amount,
                sequences,
                from,
                progress,
            )->Ok_0;
            &&& progress.small_improvement ==> next.small_improvement
            &&& progress.best is Some ==> next.best is Some
            &&& next.small_improvement ==> progress.small_improvement || exists|
                actions: Seq<ActionView>,
            | #[trigger]
                improves_too_little(problem, actions)
            &&& stopped ==> !next.certificate.search_complete
            &&& !stopped && !next.small_improvement && next.best is None ==> forall|i: int|
                from <= i < sequences.len() ==> fails_a_constraint(problem, #[trigger] sequences[i])
        }),
    decreases sequences.len() - from,
{
    if from < sequences.len() && progress.certificate.nodes_evaluated
        < progress.certificate.node_limit {
        let next = rebalance_evaluated(problem, amount, sequences[from], progress)->Ok_0;
        lemma_sequence_refusals(problem, amount, sequences, from + 1, next);
        if next.small_improvement && !progress.small_improvement {
            assert(improves_too_little(problem, sequences[from])) by {
                reveal(improves_too_little);
            }
        }
    }
}

proof fn lemma_amount_refusals(
    problem: RebalanceProblem,
    amounts: Seq<U256>,
    from: int,
    progress: RebalanceProgress,
)
    requires
        0 <= from <= amounts.len(),
        rebalance_amounts_from(problem, amounts, from, progress) is Ok,
    ensures
        ({
            let next = rebalance_amounts_from(problem, amounts, from, progress)->Ok_0;
            &&& progress.small_improvement ==> next.small_improvement
            &&& progress.best is Some ==> next.best is Some
            &&& next.small_improvement ==> progress.small_improvement || exists|
                actions: Seq<ActionView>,
            | #[trigger]
                improves_too_little(problem, actions)
            &&& next.certificate.search_complete && !next.small_improvement && next.best is None
                ==> forall|i: int|
                from <= i < amounts.len() ==> amount_is_infeasible(problem, #[trigger] amounts[i])
        }),
    decreases amounts.len() - from,
{
    if from < amounts.len() && progress.certificate.nodes_evaluated
        < progress.certificate.node_limit {
        let left = (progress.certificate.node_limit - progress.certificate.nodes_evaluated) as u64;
        let (sequences, complete) = movement_candidates_spec(
            problem.target,
            problem.vault,
            amounts[from],
            left,
        )->Ok_0;
        if complete {
            lemma_sequence_refusals(problem, amounts[from], sequences, 0, progress);
            let (next, stopped) = rebalance_sequences_from(
                problem,
                amounts[from],
                sequences,
                0,
                progress,
            )->Ok_0;
            if !stopped {
                lemma_amount_refusals(problem, amounts, from + 1, next);
                if !next.small_improvement && next.best is None {
                    assert(amount_is_infeasible(problem, amounts[from])) by {
                        reveal(amount_is_infeasible);
                        assert(infeasible_within(problem, amounts[from], left));
                    }
                }
            }
        }
    }
}

/// The reason for no action tells whether a feasible sequence was seen: where the improvement is
/// below the minimum, some sequence simulates within the service and loss bounds and improves the
/// score too little; where no candidate is feasible, every amount was enumerated completely and each
/// of its sequences fails a hard constraint.
pub proof fn no_action_reasons_tell_feasibility(
    snapshot: ExactVaultSnapshot,
    projection: ProjectedVaultView,
    vault: ValidatedVaultConfig,
    settings: ValidatedTopKApyConfig,
    target: TargetView,
    limits: TopKSolveLimits,
)
    requires
        top_k_rebalance_spec(snapshot, projection, vault, settings, target, limits) is Ok,
    ensures
        ({
            let result = top_k_rebalance_spec(
                snapshot,
                projection,
                vault,
                settings,
                target,
                limits,
            )->Ok_0;
            let problem = rebalance_problem(snapshot, projection, vault, settings, target, limits);
            let amounts = rebalance_amounts(vault, target, limits);
            match result.no_action_reason {
                Some(TopKApyNoActionReason::ImprovementBelowMinimum) => {
                    &&& result.best is None
                    &&& result.certificate.search_complete
                    &&& exists|actions: Seq<ActionView>| #[trigger]
                        improves_too_little(problem, actions)
                },
                Some(TopKApyNoActionReason::NoFeasibleCandidate) => {
                    &&& result.best is None
                    &&& result.certificate.search_complete
                    &&& forall|i: int|
                        0 <= i < amounts.len() ==> amount_is_infeasible(
                            problem,
                            #[trigger] amounts[i],
                        )
                },
                _ => true,
            }
        }),
{
    if target.current_score_wad@ > settings.target_score_wad@ && target.current_score_wad@
        >= settings.entry_score_wad@ {
        let amounts = rebalance_amounts(vault, target, limits);
        lemma_amount_refusals(
            rebalance_problem(snapshot, projection, vault, settings, target, limits),
            amounts,
            0,
            RebalanceProgress {
                certificate: CertificateView::begun(limits.maximum_nodes),
                identity: words_from(amounts, 0, Seq::empty()),
                best: None,
                small_improvement: false,
            },
        );
    }
}

} // verus!
