//! Exact sequential action simulation.

use vstd::prelude::*;

use crate::collections::{
    has_key, has_key_is_membership, strictly_increasing, value_of, with_key, with_key_is_insertion,
    with_value, OrderedMap, OrderedSet,
};
use crate::config::{
    ValidatedLiquidityAdapterConfig, ValidatedPositionConfig, ValidatedVaultConfig,
};
use crate::domain::{
    actions_view, bytes_equal, derive_liquidity_position_key, encode_adapter_data,
    liquidity_position_key_of, market_params_encoding, ActionKind, ActionView, AdapterAddress,
    CapRef, CapState, ExactVaultSnapshot, IdleLockSnapshot, MarketId, MarketMode, ParentAccounting,
    PositionKey, ProjectedMarketState, ProjectedVaultView, StoredMarketState, TokenAddress,
    V2Action, VaultV1LiquidityAdapterState, DirectMarketPositionState,
};
use crate::morpho::adaptive_curve::AdaptiveCurveState;
use crate::morpho::blue_math::{mul_div_down, mul_div_down_spec};
use crate::morpho::fees::{accrue_market, accrue_market_spec};
use crate::morpho::market_adapter::{
    allocate, allocate_spec, deallocate, deallocate_spec, expected_adapter_assets,
    expected_adapter_assets_spec, AdapterTransitionResult,
};
use crate::morpho::vault_v1_adapter::{
    v1_allocate_spec, v1_deallocate_spec, VaultV1AdapterTransition,
};
use crate::morpho::vault_v2::{accrue_accounting, accrue_parent_spec};
use crate::morpho::{lifted, MathError};
use crate::planner::liquidity::{
    consumed, credited, registered, remaining_spec, LiquidityError, SharedTokenLiquidity,
};
use crate::primitives::{
    difference, group_u256, saturating_difference, signed_of, signed_sum, smaller, sum, u256,
    unsigned_of, word_modulus, I256, U256,
};
use crate::state::caps::{cap_admits, validate_allocation_cap};

verus! {

/// Exact per-action effect in vault-asset and adapter-share units.
#[derive(Clone, Copy, Debug, PartialEq, Eq, Structural)]
pub struct ActionProjection {
    /// Position acted on.
    pub position: PositionKey,
    /// Requested asset units.
    pub requested_assets: U256,
    /// Minted or burned Morpho shares.
    pub changed_shares: U256,
    /// Expected adapter assets after the action.
    pub expected_assets_after: U256,
    /// Signed cap allocation delta.
    pub allocation_change: I256,
    /// Positive action-local loss only.
    pub positive_loss_assets: U256,
}

/// Simulated state of one direct position.
#[derive(Clone, Copy, Debug)]
pub struct PositionSimulation {
    /// Owning adapter.
    pub adapter: AdapterAddress,
    /// Morpho market.
    pub market: MarketId,
    /// Whether the adapter currently lists the market.
    pub current: bool,
    /// Internal supply shares.
    pub internal_shares: U256,
    /// Expected adapter assets.
    pub expected_assets: U256,
    /// Allocation recorded for the exact-market cap.
    pub recorded_market_allocation: U256,
    /// Adapter, collateral, and exact-market cap references.
    pub affected_caps: [CapRef; 3],
    /// Movement mode.
    pub mode: MarketMode,
}

/// Mutable exact state for one sequential candidate simulation.
pub struct SimulationState {
    /// Canonical timestamp represented by every projected value in this state.
    pub projection_timestamp: u64,
    /// Current projected market states.
    pub markets: OrderedMap<MarketId, ProjectedMarketState>,
    /// Current simulated positions.
    pub positions: OrderedMap<PositionKey, PositionSimulation>,
    /// Expected assets of every position before the first action.
    pub initial_position_assets: OrderedMap<PositionKey, U256>,
    /// Current liquidity-only adapter state.
    pub liquidity_adapter: Option<VaultV1LiquidityAdapterState>,
    /// Current recorded allocation for every cap.
    pub cap_ledger: OrderedMap<CapRef, U256>,
    /// Current parent idle asset units, including locked idle.
    pub vault_idle: U256,
    /// Verified active locks routine actions may not consume.
    pub locked_idle: U256,
    /// First parent total assets, established once before the first allocation.
    pub first_total_assets: Option<U256>,
    /// Shared Morpho token-liquidity ledger.
    pub shared_liquidity: SharedTokenLiquidity,
    /// Ordered exact action effects.
    pub actions: Vec<ActionProjection>,
    /// Sum of positive action-local losses.
    pub immediate_loss_assets: U256,
}

/// What a simulation state holds.
pub ghost struct SimulationView {
    /// Canonical timestamp of every projected value.
    pub projection_timestamp: u64,
    /// Projected markets in key order.
    pub markets: Seq<(MarketId, ProjectedMarketState)>,
    /// Simulated positions in key order.
    pub positions: Seq<(PositionKey, PositionSimulation)>,
    /// Initial expected assets in key order.
    pub initial_position_assets: Seq<(PositionKey, U256)>,
    /// Liquidity-only adapter state.
    pub liquidity_adapter: Option<VaultV1LiquidityAdapterState>,
    /// Recorded allocations in key order.
    pub cap_ledger: Seq<(CapRef, U256)>,
    /// Parent idle asset units.
    pub vault_idle: U256,
    /// Locked idle asset units.
    pub locked_idle: U256,
    /// First parent total assets.
    pub first_total_assets: Option<U256>,
    /// Shared token balances in key order.
    pub shared_liquidity: Seq<(TokenAddress, U256)>,
    /// Action effects in order.
    pub actions: Seq<ActionProjection>,
    /// Sum of positive action-local losses.
    pub immediate_loss_assets: U256,
}

impl View for SimulationState {
    type V = SimulationView;

    open spec fn view(&self) -> SimulationView {
        SimulationView {
            projection_timestamp: self.projection_timestamp,
            markets: self.markets@,
            positions: self.positions@,
            initial_position_assets: self.initial_position_assets@,
            liquidity_adapter: self.liquidity_adapter,
            cap_ledger: self.cap_ledger@,
            vault_idle: self.vault_idle,
            locked_idle: self.locked_idle,
            first_total_assets: self.first_total_assets,
            shared_liquidity: self.shared_liquidity@,
            actions: self.actions@,
            immediate_loss_assets: self.immediate_loss_assets,
        }
    }
}

/// Fail-closed simulation error.
#[derive(Clone, Copy, Debug, PartialEq, Eq, Structural)]
pub enum SimulationError {
    /// Action is zero, duplicated, out of phase, or uses noncanonical data.
    InvalidAction,
    /// Position, market, adapter, or cap state is incomplete.
    IncompleteState,
    /// Position mode does not permit the requested direction.
    PositionMode,
    /// Routine allocation would consume locked or absent idle.
    InsufficientIdle,
    /// A deallocation cap was already zero or signed cap arithmetic failed.
    InvalidDeallocationCap,
    /// Allocation cap admission failed.
    AllocationCap,
    /// Exact protocol math failed.
    Math(MathError),
    /// Shared token liquidity failed.
    Liquidity(LiquidityError),
    /// Checked state arithmetic failed.
    Arithmetic,
    /// A configured position, source, shared-token, or liquidity-adapter floor failed.
    ServiceConstraint,
}

/// A protocol outcome as a simulation outcome.
pub open spec fn from_math<T>(result: Result<T, MathError>) -> Result<T, SimulationError> {
    match result {
        Ok(value) => Ok(value),
        Err(error) => Err(SimulationError::Math(error)),
    }
}

fn math<T>(result: Result<T, MathError>) -> (r: Result<T, SimulationError>)
    ensures
        r == from_math(result),
{
    match result {
        Ok(value) => Ok(value),
        Err(error) => Err(SimulationError::Math(error)),
    }
}

/// A ledger outcome as a simulation outcome.
pub open spec fn from_liquidity<T>(result: Result<T, LiquidityError>) -> Result<
    T,
    SimulationError,
> {
    match result {
        Ok(value) => Ok(value),
        Err(error) => Err(SimulationError::Liquidity(error)),
    }
}

fn ledger<T>(result: Result<T, LiquidityError>) -> (r: Result<T, SimulationError>)
    ensures
        r == from_liquidity(result),
{
    match result {
        Ok(value) => Ok(value),
        Err(error) => Err(SimulationError::Liquidity(error)),
    }
}

/// A recorded allocation moved by a signed change; both the allocation and the sum must fit a
/// signed word, and the sum may not be negative.
pub open spec fn delta_applied(value: U256, delta: I256) -> Result<U256, SimulationError> {
    match signed_of(value) {
        None => Err(SimulationError::Arithmetic),
        Some(signed) => match signed_sum(signed, delta) {
            None => Err(SimulationError::Arithmetic),
            Some(moved) => unsigned_of(moved).ok_or(SimulationError::InvalidDeallocationCap),
        },
    }
}

/// Moves a recorded allocation by a signed change.
pub(crate) fn apply_delta(value: U256, delta: I256) -> (r: Result<U256, SimulationError>)
    ensures
        r == delta_applied(value, delta),
{
    let signed = I256::try_from_unsigned(value).ok_or(SimulationError::Arithmetic)?;
    let moved = signed.checked_add(delta).ok_or(SimulationError::Arithmetic)?;
    moved.to_unsigned().ok_or(SimulationError::InvalidDeallocationCap)
}

/// Sum of the remaining locked assets from index `from` on, added to `total`.
pub open spec fn locks_sum_from(locks: Seq<IdleLockSnapshot>, from: int, total: U256) -> Option<
    U256,
>
    decreases locks.len() - from,
{
    if from >= locks.len() {
        Some(total)
    } else {
        match sum(total, locks[from].remaining_assets) {
            None => None,
            Some(next) => locks_sum_from(locks, from + 1, next),
        }
    }
}

/// Adds up the remaining locked assets.
pub(crate) fn locked_assets(locks: &Vec<IdleLockSnapshot>) -> (r: Option<U256>)
    ensures
        r == locks_sum_from(locks@, 0, u256(0)),
{
    let mut total = U256::zero();
    let mut i: usize = 0;
    while i < locks.len()
        invariant
            i <= locks.len(),
            locks_sum_from(locks@, 0, u256(0)) == locks_sum_from(locks@, i as int, total),
        decreases locks.len() - i,
    {
        total = total.checked_add(locks[i].remaining_assets)?;
        i = i + 1;
    }
    Some(total)
}

/// Whether a list of markets holds `market`.
fn lists_market(markets: &Vec<MarketId>, market: MarketId) -> (r: bool)
    ensures
        r == markets@.contains(market),
{
    let mut i: usize = 0;
    while i < markets.len()
        invariant
            i <= markets.len(),
            forall|j: int| 0 <= j < i ==> markets@[j] != market,
        decreases markets.len() - i,
    {
        if markets[i] == market {
            assert(markets@[i as int] == market);
            return true;
        }
        i = i + 1;
    }
    false
}

/// Initial simulated state of one position.
pub open spec fn initial_position(
    snapshot: ExactVaultSnapshot,
    projection: ProjectedVaultView,
    key: PositionKey,
    position: DirectMarketPositionState,
) -> Result<PositionSimulation, SimulationError> {
    match value_of(snapshot.adapters@, position.adapter) {
        None => Err(SimulationError::IncompleteState),
        Some(adapter) => match value_of(projection.vault.position_expected_assets@, key) {
            None => Err(SimulationError::IncompleteState),
            Some(expected) => Ok(
                PositionSimulation {
                    adapter: position.adapter,
                    market: position.market_id,
                    current: adapter.current_market_ids@.contains(position.market_id),
                    internal_shares: position.internal_supply_shares,
                    expected_assets: expected,
                    recorded_market_allocation: position.parent_recorded_market_allocation,
                    affected_caps: position.affected_caps,
                    mode: position.mode,
                },
            ),
        },
    }
}

/// Initial simulated positions from snapshot entry `from` on, added to `done`.
pub open spec fn initial_positions_from(
    snapshot: ExactVaultSnapshot,
    projection: ProjectedVaultView,
    from: int,
    done: Seq<(PositionKey, PositionSimulation)>,
) -> Result<Seq<(PositionKey, PositionSimulation)>, SimulationError>
    decreases snapshot.positions@.len() - from,
{
    if from >= snapshot.positions@.len() {
        Ok(done)
    } else {
        let (key, position) = snapshot.positions@[from];
        match initial_position(snapshot, projection, key, position) {
            Err(error) => Err(error),
            Ok(simulated) => initial_positions_from(
                snapshot,
                projection,
                from + 1,
                with_value(done, key, simulated),
            ),
        }
    }
}

/// Shared token balances registered from market entry `from` on.
pub open spec fn shared_balances_from(
    markets: Seq<(MarketId, StoredMarketState)>,
    from: int,
    done: Seq<(TokenAddress, U256)>,
) -> Result<Seq<(TokenAddress, U256)>, LiquidityError>
    decreases markets.len() - from,
{
    if from >= markets.len() {
        Ok(done)
    } else {
        match registered(
            done,
            TokenAddress(markets[from].1.params.loan_token),
            markets[from].1.morpho_loan_token_balance,
        ) {
            Err(error) => Err(error),
            Ok(next) => shared_balances_from(markets, from + 1, next),
        }
    }
}

/// Recorded allocations of the caps from entry `from` on, added to `done`.
pub open spec fn recorded_allocations_from(
    caps: Seq<(CapRef, CapState)>,
    from: int,
    done: Seq<(CapRef, U256)>,
) -> Seq<(CapRef, U256)>
    decreases caps.len() - from,
{
    if from >= caps.len() {
        done
    } else {
        recorded_allocations_from(
            caps,
            from + 1,
            with_value(done, caps[from].0, caps[from].1.recorded_allocation),
        )
    }
}

/// The simulation state before the first action.
pub open spec fn initial_state(snapshot: ExactVaultSnapshot, projection: ProjectedVaultView) -> Result<
    SimulationView,
    SimulationError,
> {
    match initial_positions_from(snapshot, projection, 0, Seq::empty()) {
        Err(error) => Err(error),
        Ok(positions) => match locks_sum_from(snapshot.idle_locks.locks@, 0, u256(0)) {
            None => Err(SimulationError::Arithmetic),
            Some(locked) => if !snapshot.idle_locks.verified || locked@
                > snapshot.parent.idle_assets@ {
                Err(SimulationError::InsufficientIdle)
            } else {
                match from_liquidity(shared_balances_from(snapshot.markets@, 0, Seq::empty())) {
                    Err(error) => Err(error),
                    Ok(shared) => Ok(
                        SimulationView {
                            projection_timestamp: projection.head.timestamp,
                            markets: projection.markets@,
                            positions,
                            initial_position_assets: projection.vault.position_expected_assets@,
                            liquidity_adapter: snapshot.liquidity_adapter,
                            cap_ledger: recorded_allocations_from(snapshot.caps@, 0, Seq::empty()),
                            vault_idle: snapshot.parent.idle_assets,
                            locked_idle: locked,
                            first_total_assets: None,
                            shared_liquidity: shared,
                            actions: Seq::empty(),
                            immediate_loss_assets: u256(0),
                        },
                    ),
                }
            },
        },
    }
}

fn build_positions(snapshot: &ExactVaultSnapshot, projection: &ProjectedVaultView) -> (r: Result<
    OrderedMap<PositionKey, PositionSimulation>,
    SimulationError,
>)
    ensures
        match initial_positions_from(*snapshot, *projection, 0, Seq::empty()) {
            Ok(positions) => r is Ok && r->Ok_0@ == positions,
            Err(error) => r is Err && r->Err_0 == error,
        },
{
    let mut positions: OrderedMap<PositionKey, PositionSimulation> = OrderedMap::new();
    let mut i: usize = 0;
    while i < snapshot.positions.len()
        invariant
            i <= snapshot.positions@.len(),
            initial_positions_from(*snapshot, *projection, 0, Seq::empty())
                == initial_positions_from(*snapshot, *projection, i as int, positions@),
        decreases snapshot.positions@.len() - i,
    {
        let (key, position) = snapshot.positions.at(i);
        let current = match snapshot.adapters.get_ref(position.adapter) {
            Some(adapter) => lists_market(&adapter.current_market_ids, position.market_id),
            None => return Err(SimulationError::IncompleteState),
        };
        let expected_assets = projection.vault.position_expected_assets.get(key).ok_or(
            SimulationError::IncompleteState,
        )?;
        positions.insert(
            key,
            PositionSimulation {
                adapter: position.adapter,
                market: position.market_id,
                current,
                internal_shares: position.internal_supply_shares,
                expected_assets,
                recorded_market_allocation: position.parent_recorded_market_allocation,
                affected_caps: position.affected_caps,
                mode: position.mode,
            },
        );
        i = i + 1;
    }
    Ok(positions)
}

fn build_shared_liquidity(markets: &OrderedMap<MarketId, StoredMarketState>) -> (r: Result<
    SharedTokenLiquidity,
    LiquidityError,
>)
    ensures
        match shared_balances_from(markets@, 0, Seq::empty()) {
            Ok(shared) => r is Ok && r->Ok_0@ == shared,
            Err(error) => r is Err && r->Err_0 == error,
        },
{
    let mut shared = SharedTokenLiquidity::default();
    let mut i: usize = 0;
    while i < markets.len()
        invariant
            i <= markets@.len(),
            shared_balances_from(markets@, 0, Seq::empty()) == shared_balances_from(
                markets@,
                i as int,
                shared@,
            ),
        decreases markets@.len() - i,
    {
        let market = markets.at(i).1;
        shared.register(TokenAddress(market.params.loan_token), market.morpho_loan_token_balance)?;
        i = i + 1;
    }
    Ok(shared)
}

fn build_cap_ledger(caps: &OrderedMap<CapRef, CapState>) -> (r: OrderedMap<CapRef, U256>)
    ensures
        r@ == recorded_allocations_from(caps@, 0, Seq::empty()),
{
    let mut recorded: OrderedMap<CapRef, U256> = OrderedMap::new();
    let mut i: usize = 0;
    while i < caps.len()
        invariant
            i <= caps@.len(),
            recorded_allocations_from(caps@, 0, Seq::empty()) == recorded_allocations_from(
                caps@,
                i as int,
                recorded@,
            ),
        decreases caps@.len() - i,
    {
        let (reference, cap) = caps.at(i);
        recorded.insert(reference, cap.recorded_allocation);
        i = i + 1;
    }
    recorded
}

/// Expected assets of a position, direct or liquidity-only.
pub open spec fn position_assets(state: SimulationView, position: PositionKey) -> Option<U256> {
    match value_of(state.positions, position) {
        Some(simulated) => Some(simulated.expected_assets),
        None => match state.liquidity_adapter {
            Some(adapter) => if liquidity_position_key_of(adapter.adapter) == position {
                Some(adapter.real_assets)
            } else {
                None
            },
            None => None,
        },
    }
}

/// Idle assets that routine actions may use.
pub open spec fn unreserved_idle_spec(state: SimulationView) -> Result<U256, SimulationError> {
    difference(state.vault_idle, state.locked_idle).ok_or(SimulationError::InsufficientIdle)
}

impl SimulationState {
    /// Builds one isolated candidate state from an exact snapshot and one inclusion projection.
    pub fn from_projection(snapshot: &ExactVaultSnapshot, projection: &ProjectedVaultView) -> (r:
        Result<SimulationState, SimulationError>)
        ensures
            match initial_state(*snapshot, *projection) {
                Ok(state) => r is Ok && r->Ok_0@ == state,
                Err(error) => r is Err && r->Err_0 == error,
            },
    {
        let positions = build_positions(snapshot, projection)?;
        let locked_idle = locked_assets(&snapshot.idle_locks.locks).ok_or(
            SimulationError::Arithmetic,
        )?;
        if !snapshot.idle_locks.verified || snapshot.parent.idle_assets.lt(locked_idle) {
            return Err(SimulationError::InsufficientIdle);
        }
        let shared_liquidity = ledger(build_shared_liquidity(&snapshot.markets))?;
        Ok(
            SimulationState {
                projection_timestamp: projection.head.timestamp,
                markets: projection.markets.clone(),
                positions,
                initial_position_assets: projection.vault.position_expected_assets.clone(),
                liquidity_adapter: snapshot.liquidity_adapter,
                cap_ledger: build_cap_ledger(&snapshot.caps),
                vault_idle: snapshot.parent.idle_assets,
                locked_idle,
                first_total_assets: None,
                shared_liquidity,
                actions: Vec::new(),
                immediate_loss_assets: U256::zero(),
            },
        )
    }

    /// Returns routine-available idle asset units without clamping uncertainty.
    pub fn unreserved_idle(&self) -> (r: Result<U256, SimulationError>)
        ensures
            r == unreserved_idle_spec(self@),
    {
        self.vault_idle.checked_sub(self.locked_idle).ok_or(SimulationError::InsufficientIdle)
    }

    /// Returns exact expected adapter assets for one configured position.
    pub fn position_expected_assets(&self, position: PositionKey) -> (r: Option<U256>)
        ensures
            r == position_assets(self@, position),
    {
        match self.positions.get(position) {
            Some(simulated) => Some(simulated.expected_assets),
            None => match &self.liquidity_adapter {
                Some(adapter) => {
                    if derive_liquidity_position_key(adapter.adapter) == position {
                        Some(adapter.real_assets)
                    } else {
                        None
                    }
                },
                None => None,
            },
        }
    }
}

/// Real assets per adapter of the current positions from entry `from` on, added to `totals`.
pub open spec fn adapter_totals_from(
    positions: Seq<(PositionKey, PositionSimulation)>,
    known: Seq<(PositionKey, DirectMarketPositionState)>,
    from: int,
    totals: Seq<(AdapterAddress, U256)>,
) -> Result<Seq<(AdapterAddress, U256)>, SimulationError>
    decreases positions.len() - from,
{
    if from >= positions.len() {
        Ok(totals)
    } else {
        let (key, position) = positions[from];
        let next = if position.current {
            adapter_credited(totals, position.adapter, position.expected_assets)
        } else {
            Some(totals)
        };
        match next {
            None => Err(SimulationError::Arithmetic),
            Some(next) => if value_of(known, key) is None {
                Err(SimulationError::IncompleteState)
            } else {
                adapter_totals_from(positions, known, from + 1, next)
            },
        }
    }
}

/// Totals with assets added to one adapter.
pub open spec fn adapter_credited(
    totals: Seq<(AdapterAddress, U256)>,
    adapter: AdapterAddress,
    assets: U256,
) -> Option<Seq<(AdapterAddress, U256)>> {
    let current = match value_of(totals, adapter) {
        Some(value) => value,
        None => u256(0),
    };
    match sum(current, assets) {
        None => None,
        Some(total) => Some(with_value(totals, adapter, total)),
    }
}

fn credit_adapter(
    totals: &mut OrderedMap<AdapterAddress, U256>,
    adapter: AdapterAddress,
    assets: U256,
) -> (added: bool)
    ensures
        match adapter_credited(old(totals)@, adapter, assets) {
            Some(after) => added && final(totals)@ == after,
            None => !added && final(totals)@ == old(totals)@,
        },
{
    let current = match totals.get(adapter) {
        Some(value) => value,
        None => U256::zero(),
    };
    match current.checked_add(assets) {
        Some(total) => {
            totals.insert(adapter, total);
            true
        },
        None => false,
    }
}

/// Real assets per adapter, the liquidity-only one included.
pub open spec fn adapter_real_assets_spec(
    state: SimulationView,
    snapshot: ExactVaultSnapshot,
) -> Result<Seq<(AdapterAddress, U256)>, SimulationError> {
    match adapter_totals_from(state.positions, snapshot.positions@, 0, Seq::empty()) {
        Err(error) => Err(error),
        Ok(totals) => match state.liquidity_adapter {
            Some(liquidity) => Ok(with_value(totals, liquidity.adapter, liquidity.real_assets)),
            None => Ok(totals),
        },
    }
}

fn adapter_real_assets(state: &SimulationState, snapshot: &ExactVaultSnapshot) -> (r: Result<
    OrderedMap<AdapterAddress, U256>,
    SimulationError,
>)
    ensures
        match adapter_real_assets_spec(state@, *snapshot) {
            Ok(totals) => r is Ok && r->Ok_0@ == totals,
            Err(error) => r is Err && r->Err_0 == error,
        },
{
    let mut totals: OrderedMap<AdapterAddress, U256> = OrderedMap::new();
    let mut i: usize = 0;
    while i < state.positions.len()
        invariant
            i <= state.positions@.len(),
            adapter_totals_from(state.positions@, snapshot.positions@, 0, Seq::empty())
                == adapter_totals_from(state.positions@, snapshot.positions@, i as int, totals@),
        decreases state.positions@.len() - i,
    {
        let (key, position) = state.positions.at(i);
        if position.current && !credit_adapter(
            &mut totals,
            position.adapter,
            position.expected_assets,
        ) {
            return Err(SimulationError::Arithmetic);
        }
        if !snapshot.positions.contains_key(key) {
            return Err(SimulationError::IncompleteState);
        }
        i = i + 1;
    }
    if let Some(liquidity) = &state.liquidity_adapter {
        totals.insert(liquidity.adapter, liquidity.real_assets);
    }
    Ok(totals)
}

/// Parent total assets of a simulated state at a timestamp.
pub open spec fn parent_total_assets_at(
    state: SimulationView,
    snapshot: ExactVaultSnapshot,
    timestamp: u64,
) -> Result<U256, SimulationError> {
    match adapter_real_assets_spec(state, snapshot) {
        Err(error) => Err(error),
        Ok(totals) => match from_math(
            accrue_parent_spec(
                ParentAccounting {
                    idle_assets: state.vault_idle,
                    ..snapshot.parent.accounting_spec()
                },
                totals,
                timestamp,
            ),
        ) {
            Err(error) => Err(error),
            Ok(accrued) => Ok(accrued.total_assets),
        },
    }
}

fn total_assets_at(state: &SimulationState, snapshot: &ExactVaultSnapshot, timestamp: u64) -> (r:
    Result<U256, SimulationError>)
    ensures
        r == parent_total_assets_at(state@, *snapshot, timestamp),
{
    let totals = adapter_real_assets(state, snapshot)?;
    let mut parent = snapshot.parent.accounting();
    parent.idle_assets = state.vault_idle;
    let accrued = math(accrue_accounting(&parent, &totals, timestamp))?;
    Ok(accrued.total_assets)
}

/// Bisection for the largest value of `low ..= high` that satisfies a downward-closed test.
pub open spec fn bisection(
    low: nat,
    high: nat,
    test: spec_fn(U256) -> Result<bool, SimulationError>,
) -> Result<U256, SimulationError>
    decreases high - low,
{
    if low >= high {
        Ok(u256(low))
    } else if high - low + 1 >= word_modulus() {
        Err(SimulationError::Arithmetic)
    } else {
        let midpoint = (low + (high - low + 1) / 2) as nat;
        match test(u256(midpoint)) {
            Err(error) => Err(error),
            Ok(true) => bisection(midpoint, high, test),
            Ok(false) => bisection(low, (midpoint - 1) as nat, test),
        }
    }
}

/// A question about an amount.
pub trait AmountTest {
    /// The answer for an amount.
    spec fn answer(&self, assets: U256) -> Result<bool, SimulationError>;

    /// Answers for an amount.
    fn ask(&self, assets: U256) -> (r: Result<bool, SimulationError>)
        ensures
            r == self.answer(assets),
    ;
}

fn monotone_maximum<T: AmountTest>(upper: U256, test: &T) -> (r: Result<U256, SimulationError>)
    ensures
        r == bisection(0, upper@, |assets: U256| test.answer(assets)),
{
    broadcast use group_u256;

    let ghost answers = |assets: U256| test.answer(assets);
    let mut low = U256::zero();
    let mut high = upper;
    while low.lt(high)
        invariant
            answers == (|assets: U256| test.answer(assets)),
            low@ <= high@,
            bisection(0, upper@, answers) == bisection(low@, high@, answers),
        decreases high@ - low@,
    {
        broadcast use group_u256;

        let distance = high.checked_sub(low).ok_or(SimulationError::Arithmetic)?;
        let widened = distance.checked_add(U256::one()).ok_or(SimulationError::Arithmetic)?;
        let half = widened.checked_div(U256::from_u64(2)).ok_or(SimulationError::Arithmetic)?;
        let midpoint = low.checked_add(half).ok_or(SimulationError::Arithmetic)?;
        assert(midpoint == u256((low@ + (high@ - low@ + 1) / 2) as nat));
        assert(answers(midpoint) == test.answer(midpoint));
        if test.ask(midpoint)? {
            low = midpoint;
        } else {
            high = midpoint.checked_sub(U256::one()).ok_or(SimulationError::Arithmetic)?;
        }
    }
    Ok(low)
}

/// For a test that never fails and is downward closed on `low ..= high`, bisection returns the
/// largest value that passes it: everything above fails, and it passes itself unless it is the
/// untested floor.
pub proof fn bisection_finds_the_maximum(
    low: nat,
    high: nat,
    test: spec_fn(U256) -> Result<bool, SimulationError>,
)
    requires
        low <= high,
        high - low + 1 < word_modulus(),
        high < word_modulus(),
        forall|x: nat| low < x <= high ==> (#[trigger] test(u256(x))) is Ok,
        forall|x: nat, y: nat|
            low < x <= y <= high && (#[trigger] test(u256(y))) == Ok::<bool, SimulationError>(true)
                ==> (#[trigger] test(u256(x))) == Ok::<bool, SimulationError>(true),
    ensures
        bisection(low, high, test) is Ok,
        low <= bisection(low, high, test)->Ok_0@ <= high,
        bisection(low, high, test)->Ok_0@ > low ==> test(bisection(low, high, test)->Ok_0) == Ok::<
            bool,
            SimulationError,
        >(true),
        forall|x: nat|
            bisection(low, high, test)->Ok_0@ < x <= high ==> (#[trigger] test(u256(x))) == Ok::<
                bool,
                SimulationError,
            >(false),
    decreases high - low,
{
    broadcast use group_u256;

    if low < high {
        let midpoint = (low + (high - low + 1) / 2) as nat;
        assert(low < midpoint <= high);
        assert(test(u256(midpoint)) is Ok);
        if test(u256(midpoint)) == Ok::<bool, SimulationError>(true) {
            bisection_finds_the_maximum(midpoint, high, test);
        } else {
            bisection_finds_the_maximum(low, (midpoint - 1) as nat, test);
            assert forall|x: nat| midpoint <= x <= high implies (#[trigger] test(u256(x))) == Ok::<
                bool,
                SimulationError,
            >(false) by {
                assert(low < x <= high);
                assert(test(u256(x)) is Ok);
                if test(u256(x))->Ok_0 {
                    assert(test(u256(x)) == Ok::<bool, SimulationError>(true));
                    assert(test(u256(midpoint)) == Ok::<bool, SimulationError>(true));
                }
            }
        }
    }
}

/// First configured position from index `from` on with the given key.
pub open spec fn configured_from(
    positions: Seq<ValidatedPositionConfig>,
    key: PositionKey,
    from: int,
) -> Option<ValidatedPositionConfig>
    decreases positions.len() - from,
{
    if from >= positions.len() {
        None
    } else if positions[from].position_key == key {
        Some(positions[from])
    } else {
        configured_from(positions, key, from + 1)
    }
}

/// Finds the configured position with the given key.
pub(crate) fn find_configured(positions: &Vec<ValidatedPositionConfig>, key: PositionKey) -> (r:
    Option<ValidatedPositionConfig>)
    ensures
        r == configured_from(positions@, key, 0),
{
    let mut i: usize = 0;
    while i < positions.len()
        invariant
            i <= positions.len(),
            configured_from(positions@, key, 0) == configured_from(positions@, key, i as int),
        decreases positions.len() - i,
    {
        if positions[i].position_key == key {
            return Some(positions[i]);
        }
        i = i + 1;
    }
    None
}

/// Whether a configured position is the parent's liquidity path.
pub open spec fn is_liquidity_path(
    snapshot: ExactVaultSnapshot,
    position: ValidatedPositionConfig,
) -> bool {
    position.adapter.0 == snapshot.parent.liquidity_adapter && market_params_encoding(
        position.market_params,
    ) == snapshot.parent.liquidity_data@
}

fn on_liquidity_path(snapshot: &ExactVaultSnapshot, position: &ValidatedPositionConfig) -> (r: bool)
    ensures
        r == is_liquidity_path(*snapshot, *position),
{
    position.adapter.0 == snapshot.parent.liquidity_adapter && bytes_equal(
        &encode_adapter_data(&position.market_params),
        &snapshot.parent.liquidity_data,
    )
}

/// First configured position from index `from` on that is the parent's liquidity path.
pub open spec fn liquidity_path_from(
    snapshot: ExactVaultSnapshot,
    positions: Seq<ValidatedPositionConfig>,
    from: int,
) -> Option<ValidatedPositionConfig>
    decreases positions.len() - from,
{
    if from >= positions.len() {
        None
    } else if is_liquidity_path(snapshot, positions[from]) {
        Some(positions[from])
    } else {
        liquidity_path_from(snapshot, positions, from + 1)
    }
}

fn find_liquidity_path(
    snapshot: &ExactVaultSnapshot,
    positions: &Vec<ValidatedPositionConfig>,
) -> (r: Option<ValidatedPositionConfig>)
    ensures
        r == liquidity_path_from(*snapshot, positions@, 0),
{
    let mut i: usize = 0;
    while i < positions.len()
        invariant
            i <= positions.len(),
            liquidity_path_from(*snapshot, positions@, 0) == liquidity_path_from(
                *snapshot,
                positions@,
                i as int,
            ),
        decreases positions.len() - i,
    {
        if on_liquidity_path(snapshot, &positions[i]) {
            return Some(positions[i]);
        }
        i = i + 1;
    }
    None
}

/// Parent total assets after a deposit, when they fit 128 bits.
pub open spec fn deposit_total(parent_total_assets: U256, assets: U256) -> Option<U256> {
    match sum(parent_total_assets, assets) {
        None => None,
        Some(total) => if total@ > u128::MAX {
            None
        } else {
            Some(total)
        },
    }
}

fn total_after_deposit(parent_total_assets: U256, assets: U256) -> (r: Option<U256>)
    ensures
        r == deposit_total(parent_total_assets, assets),
{
    broadcast use group_u256;

    let total = parent_total_assets.checked_add(assets)?;
    if U256::from_u128(u128::MAX).lt(total) {
        None
    } else {
        Some(total)
    }
}

/// Whether a deposit through the liquidity-only adapter is admitted.
pub open spec fn liquidity_deposit_admitted(
    parent_total_assets: U256,
    liquidity: VaultV1LiquidityAdapterState,
    recorded: U256,
    cap: CapState,
    assets: U256,
) -> Result<bool, SimulationError> {
    match deposit_total(parent_total_assets, assets) {
        None => Ok(false),
        Some(total) => match v1_allocate_spec(liquidity, assets) {
            Err(_) => Ok(false),
            Ok(transition) => match delta_applied(recorded, transition.allocation_change) {
                Err(error) => Err(error),
                Ok(allocation) => Ok(cap_admits(cap, total, allocation)),
            },
        },
    }
}

/// Deposit admission through the liquidity-only adapter.
pub struct LiquidityDeposit {
    /// Parent total assets before the deposit.
    pub parent_total_assets: U256,
    /// Adapter state.
    pub liquidity: VaultV1LiquidityAdapterState,
    /// Allocation recorded for the adapter cap.
    pub recorded: U256,
    /// Adapter cap.
    pub cap: CapState,
}

impl AmountTest for LiquidityDeposit {
    open spec fn answer(&self, assets: U256) -> Result<bool, SimulationError> {
        liquidity_deposit_admitted(
            self.parent_total_assets,
            self.liquidity,
            self.recorded,
            self.cap,
            assets,
        )
    }

    fn ask(&self, assets: U256) -> (r: Result<bool, SimulationError>) {
        let total = match total_after_deposit(self.parent_total_assets, assets) {
            Some(total) => total,
            None => return Ok(false),
        };
        let transition = match crate::morpho::vault_v1_adapter::allocate(&self.liquidity, assets) {
            Ok(transition) => transition,
            Err(_) => return Ok(false),
        };
        let allocation = apply_delta(self.recorded, transition.allocation_change)?;
        match validate_allocation_cap(&self.cap, total, allocation) {
            Ok(_) => Ok(true),
            Err(_) => Ok(false),
        }
    }
}

/// Whether the affected caps from index `from` on all admit a signed change at the given total.
pub open spec fn caps_admit_from(
    ledger: Seq<(CapRef, U256)>,
    caps: Seq<(CapRef, CapState)>,
    affected: [CapRef; 3],
    change: I256,
    total_assets: U256,
    from: int,
) -> Result<bool, SimulationError>
    decreases 3 - from,
{
    if from >= 3 {
        Ok(true)
    } else {
        match value_of(ledger, affected@[from]) {
            None => Err(SimulationError::IncompleteState),
            Some(recorded) => match value_of(caps, affected@[from]) {
                None => Err(SimulationError::IncompleteState),
                Some(cap) => match delta_applied(recorded, change) {
                    Err(error) => Err(error),
                    Ok(allocation) => if cap_admits(cap, total_assets, allocation) {
                        caps_admit_from(ledger, caps, affected, change, total_assets, from + 1)
                    } else {
                        Ok(false)
                    },
                },
            },
        }
    }
}

/// Whether a deposit through a direct liquidity position is admitted.
pub open spec fn direct_deposit_admitted(
    ledger: Seq<(CapRef, U256)>,
    caps: Seq<(CapRef, CapState)>,
    parent_total_assets: U256,
    market: ProjectedMarketState,
    position: PositionSimulation,
    fee: U256,
    assets: U256,
) -> Result<bool, SimulationError> {
    match deposit_total(parent_total_assets, assets) {
        None => Ok(false),
        Some(total) => match allocate_spec(
            market,
            position.internal_shares,
            assets,
            position.recorded_market_allocation,
            fee,
            position.affected_caps,
        ) {
            Err(_) => Ok(false),
            Ok(transition) => caps_admit_from(
                ledger,
                caps,
                position.affected_caps,
                transition.allocation_change,
                total,
                0,
            ),
        },
    }
}

/// Deposit admission through a direct liquidity position.
pub struct DirectDeposit<'a> {
    /// Current recorded allocations.
    pub ledger: &'a OrderedMap<CapRef, U256>,
    /// Exact caps.
    pub caps: &'a OrderedMap<CapRef, CapState>,
    /// Parent total assets before the deposit.
    pub parent_total_assets: U256,
    /// Current market.
    pub market: ProjectedMarketState,
    /// Current position.
    pub position: PositionSimulation,
    /// Market fee.
    pub fee: U256,
}

impl<'a> AmountTest for DirectDeposit<'a> {
    open spec fn answer(&self, assets: U256) -> Result<bool, SimulationError> {
        direct_deposit_admitted(
            self.ledger@,
            self.caps@,
            self.parent_total_assets,
            self.market,
            self.position,
            self.fee,
            assets,
        )
    }

    fn ask(&self, assets: U256) -> (r: Result<bool, SimulationError>) {
        let total = match total_after_deposit(self.parent_total_assets, assets) {
            Some(total) => total,
            None => return Ok(false),
        };
        let transition = match allocate(
            &self.market,
            self.position.internal_shares,
            assets,
            self.position.recorded_market_allocation,
            self.fee,
            self.position.affected_caps,
        ) {
            Ok(transition) => transition,
            Err(_) => return Ok(false),
        };
        let change = transition.allocation_change;
        let affected = self.position.affected_caps;
        let mut i: usize = 0;
        while i < 3
            invariant
                i <= 3,
                self.answer(assets) == caps_admit_from(
                    self.ledger@,
                    self.caps@,
                    affected,
                    change,
                    total,
                    i as int,
                ),
            decreases 3 - i,
        {
            let reference = affected[i];
            let recorded = self.ledger.get(reference).ok_or(SimulationError::IncompleteState)?;
            let cap = self.caps.get(reference).ok_or(SimulationError::IncompleteState)?;
            let allocation = apply_delta(recorded, change)?;
            match validate_allocation_cap(&cap, total, allocation) {
                Ok(_) => {},
                Err(_) => return Ok(false),
            }
            i = i + 1;
        }
        Ok(true)
    }
}

/// Largest native deposit the post-action state admits, within the configured search bound.
pub open spec fn maximum_deposit_spec(
    state: SimulationView,
    snapshot: ExactVaultSnapshot,
    config: ValidatedVaultConfig,
    parent_total_assets: U256,
) -> Result<U256, SimulationError> {
    let upper = config.deposit_headroom_search_upper_bound_assets;
    if upper@ == 0 || snapshot.parent.receive_shares_gate@ != 0
        || snapshot.parent.send_assets_gate@ != 0 {
        Ok(u256(0))
    } else if snapshot.parent.liquidity_adapter@ == 0 {
        Ok(smaller(upper, saturating_difference(u256(u128::MAX as nat), parent_total_assets)))
    } else {
        match state.liquidity_adapter {
            Some(liquidity) => {
                let reference = CapRef { vault: config.address, id: liquidity.adapter_id };
                match value_of(state.cap_ledger, reference) {
                    None => Err(SimulationError::IncompleteState),
                    Some(recorded) => match value_of(snapshot.caps@, reference) {
                        None => Err(SimulationError::IncompleteState),
                        Some(cap) => bisection(
                            0,
                            smaller(upper, liquidity.max_deposit)@,
                            |assets: U256|
                                liquidity_deposit_admitted(
                                    parent_total_assets,
                                    liquidity,
                                    recorded,
                                    cap,
                                    assets,
                                ),
                        ),
                    },
                }
            },
            None => match liquidity_path_from(snapshot, config.positions@, 0) {
                None => Err(SimulationError::IncompleteState),
                Some(configured) => match value_of(state.positions, configured.position_key) {
                    None => Err(SimulationError::IncompleteState),
                    Some(position) => match value_of(snapshot.markets@, position.market) {
                        None => Err(SimulationError::IncompleteState),
                        Some(stored) => match value_of(state.markets, position.market) {
                            None => Err(SimulationError::IncompleteState),
                            Some(market) => bisection(
                                0,
                                upper@,
                                |assets: U256|
                                    direct_deposit_admitted(
                                        state.cap_ledger,
                                        snapshot.caps@,
                                        parent_total_assets,
                                        market,
                                        position,
                                        stored.fee,
                                        assets,
                                    ),
                            ),
                        },
                    },
                },
            },
        }
    }
}

/// Whether a withdrawal from a direct liquidity position is executable.
pub open spec fn exit_executable(
    market: ProjectedMarketState,
    position: PositionSimulation,
    token_balance: U256,
    fee: U256,
    assets: U256,
) -> bool {
    deallocate_spec(
        market,
        position.internal_shares,
        assets,
        position.recorded_market_allocation,
        token_balance,
        fee,
        position.affected_caps,
    ) is Ok
}

/// Withdrawal execution from a direct liquidity position.
pub struct DirectExit {
    /// Current market.
    pub market: ProjectedMarketState,
    /// Current position.
    pub position: PositionSimulation,
    /// Shared token balance.
    pub token_balance: U256,
    /// Market fee.
    pub fee: U256,
}

impl AmountTest for DirectExit {
    open spec fn answer(&self, assets: U256) -> Result<bool, SimulationError> {
        Ok(exit_executable(self.market, self.position, self.token_balance, self.fee, assets))
    }

    fn ask(&self, assets: U256) -> (r: Result<bool, SimulationError>) {
        match deallocate(
            &self.market,
            self.position.internal_shares,
            assets,
            self.position.recorded_market_allocation,
            self.token_balance,
            self.fee,
            self.position.affected_caps,
        ) {
            Ok(_) => Ok(true),
            Err(_) => Ok(false),
        }
    }
}

/// Assets the liquidity path can serve atomically, idle excluded.
pub open spec fn liquidity_exit_spec(
    state: SimulationView,
    snapshot: ExactVaultSnapshot,
    config: ValidatedVaultConfig,
) -> Result<U256, SimulationError> {
    match state.liquidity_adapter {
        Some(liquidity) => Ok(smaller(liquidity.max_withdraw, liquidity.real_assets)),
        None => if snapshot.parent.liquidity_adapter@ == 0 {
            Ok(u256(0))
        } else {
            match liquidity_path_from(snapshot, config.positions@, 0) {
                None => Err(SimulationError::IncompleteState),
                Some(configured) => match value_of(state.positions, configured.position_key) {
                    None => Err(SimulationError::IncompleteState),
                    Some(position) => match value_of(state.markets, position.market) {
                        None => Err(SimulationError::IncompleteState),
                        Some(market) => match value_of(snapshot.markets@, position.market) {
                            None => Err(SimulationError::IncompleteState),
                            Some(stored) => match from_liquidity(
                                remaining_spec(
                                    state.shared_liquidity,
                                    TokenAddress(stored.params.loan_token),
                                ),
                            ) {
                                Err(error) => Err(error),
                                Ok(balance) => bisection(
                                    0,
                                    smaller(
                                        smaller(
                                            position.expected_assets,
                                            market.accounting_liquidity,
                                        ),
                                        balance,
                                    )@,
                                    |assets: U256|
                                        Ok(
                                            exit_executable(
                                                market,
                                                position,
                                                balance,
                                                stored.fee,
                                                assets,
                                            ),
                                        ),
                                ),
                            },
                        },
                    },
                },
            }
        },
    }
}

/// Idle assets plus what the liquidity path can serve atomically.
pub open spec fn exit_coverage_spec(
    state: SimulationView,
    snapshot: ExactVaultSnapshot,
    config: ValidatedVaultConfig,
) -> Result<U256, SimulationError> {
    match liquidity_exit_spec(state, snapshot, config) {
        Err(error) => Err(error),
        Ok(executable) => sum(state.vault_idle, executable).ok_or(SimulationError::Arithmetic),
    }
}

impl SimulationState {
    fn maximum_executable_deposit(
        &self,
        snapshot: &ExactVaultSnapshot,
        config: &ValidatedVaultConfig,
        parent_total_assets: U256,
    ) -> (r: Result<U256, SimulationError>)
        ensures
            r == maximum_deposit_spec(self@, *snapshot, *config, parent_total_assets),
    {
        let upper = config.deposit_headroom_search_upper_bound_assets;
        if upper.is_zero() || !snapshot.parent.receive_shares_gate.is_zero()
            || !snapshot.parent.send_assets_gate.is_zero() {
            return Ok(U256::zero());
        }
        if snapshot.parent.liquidity_adapter.is_zero() {
            return Ok(
                upper.min(U256::from_u128(u128::MAX).saturating_sub(parent_total_assets)),
            );
        }
        if let Some(liquidity) = self.liquidity_adapter {
            let reference = CapRef { vault: config.address, id: liquidity.adapter_id };
            let recorded = self.cap_ledger.get(reference).ok_or(
                SimulationError::IncompleteState,
            )?;
            let cap = snapshot.caps.get(reference).ok_or(SimulationError::IncompleteState)?;
            let test = LiquidityDeposit { parent_total_assets, liquidity, recorded, cap };
            proof {
                assert((|assets: U256| test.answer(assets)) =~= (|assets: U256|
                    liquidity_deposit_admitted(
                        parent_total_assets,
                        liquidity,
                        recorded,
                        cap,
                        assets,
                    )));
            }
            return monotone_maximum(upper.min(liquidity.max_deposit), &test);
        }
        let configured = find_liquidity_path(snapshot, &config.positions).ok_or(
            SimulationError::IncompleteState,
        )?;
        let position = self.positions.get(configured.position_key).ok_or(
            SimulationError::IncompleteState,
        )?;
        let stored = snapshot.markets.get(position.market).ok_or(
            SimulationError::IncompleteState,
        )?;
        let market = self.markets.get(position.market).ok_or(SimulationError::IncompleteState)?;
        let test = DirectDeposit {
            ledger: &self.cap_ledger,
            caps: &snapshot.caps,
            parent_total_assets,
            market,
            position,
            fee: stored.fee,
        };
        proof {
            assert((|assets: U256| test.answer(assets)) =~= (|assets: U256|
                direct_deposit_admitted(
                    self@.cap_ledger,
                    snapshot.caps@,
                    parent_total_assets,
                    market,
                    position,
                    stored.fee,
                    assets,
                )));
        }
        monotone_maximum(upper, &test)
    }

    fn liquidity_exit(&self, snapshot: &ExactVaultSnapshot, config: &ValidatedVaultConfig) -> (r:
        Result<U256, SimulationError>)
        ensures
            r == liquidity_exit_spec(self@, *snapshot, *config),
    {
        if let Some(liquidity) = self.liquidity_adapter {
            return Ok(liquidity.max_withdraw.min(liquidity.real_assets));
        }
        if snapshot.parent.liquidity_adapter.is_zero() {
            return Ok(U256::zero());
        }
        let configured = find_liquidity_path(snapshot, &config.positions).ok_or(
            SimulationError::IncompleteState,
        )?;
        let position = self.positions.get(configured.position_key).ok_or(
            SimulationError::IncompleteState,
        )?;
        let market = self.markets.get(position.market).ok_or(SimulationError::IncompleteState)?;
        let stored = snapshot.markets.get(position.market).ok_or(
            SimulationError::IncompleteState,
        )?;
        let balance = ledger(
            self.shared_liquidity.remaining(TokenAddress(stored.params.loan_token)),
        )?;
        let test = DirectExit { market, position, token_balance: balance, fee: stored.fee };
        proof {
            assert((|assets: U256| test.answer(assets)) =~= (|assets: U256|
                Ok::<bool, SimulationError>(
                    exit_executable(market, position, balance, stored.fee, assets),
                )));
        }
        monotone_maximum(
            position.expected_assets.min(market.accounting_liquidity).min(balance),
            &test,
        )
    }

    fn atomic_exit_coverage(
        &self,
        snapshot: &ExactVaultSnapshot,
        config: &ValidatedVaultConfig,
    ) -> (r: Result<U256, SimulationError>)
        ensures
            r == exit_coverage_spec(self@, *snapshot, *config),
    {
        let executable = self.liquidity_exit(snapshot, config)?;
        self.vault_idle.checked_add(executable).ok_or(SimulationError::Arithmetic)
    }
}

/// Configured active positions from index `from` on that still hold shares.
pub open spec fn retained_active_from(
    positions: Seq<ValidatedPositionConfig>,
    simulated: Seq<(PositionKey, PositionSimulation)>,
    from: int,
) -> nat
    decreases positions.len() - from,
{
    if from >= positions.len() {
        0
    } else {
        let retained = positions[from].mode == MarketMode::Active && match value_of(
            simulated,
            positions[from].position_key,
        ) {
            Some(position) => position.internal_shares@ != 0,
            None => false,
        };
        (if retained {
            1nat
        } else {
            0nat
        }) + retained_active_from(positions, simulated, from + 1)
    }
}

/// Whether a position that gave up all its shares had no right to.
pub open spec fn exit_forbidden(
    state: SimulationView,
    snapshot: ExactVaultSnapshot,
    config: ValidatedVaultConfig,
    retained_active: nat,
    configured: ValidatedPositionConfig,
    position: PositionSimulation,
) -> bool {
    let policy_exit = configured.mode == MarketMode::SourceOnly || configured.mode
        == MarketMode::Disabled;
    let dust_exit = !is_liquidity_path(snapshot, configured) && match value_of(
        state.initial_position_assets,
        configured.position_key,
    ) {
        Some(assets) => assets@ <= configured.complete_exit_dust_threshold_assets@,
        None => false,
    };
    let economic_exit = configured.mode == MarketMode::Active
        && configured.allow_active_complete_exit && retained_active
        >= config.minimum_active_positions_after_economic_exit;
    position.expected_assets@ != 0 || position.recorded_market_allocation@ != 0 || !(policy_exit
        || dust_exit || economic_exit)
}

/// Whether a position that may serve as a source breaks one of its floors.
pub open spec fn source_floor_broken(
    config: ValidatedVaultConfig,
    configured: ValidatedPositionConfig,
    position: PositionSimulation,
    market: ProjectedMarketState,
    shared: U256,
) -> bool {
    position.internal_shares@ != 0 && (configured.mode == MarketMode::Active || configured.mode
        == MarketMode::SourceOnly) && (market.accounting_liquidity@
        < configured.minimum_source_liquidity_assets@ || market.utilization@
        > configured.maximum_source_utilization_wad@ || shared@
        < config.minimum_source_token_liquidity_assets@)
}

/// Checks of one configured position; carries the group and liquidity-adapter totals.
pub open spec fn service_step(
    state: SimulationView,
    snapshot: ExactVaultSnapshot,
    config: ValidatedVaultConfig,
    retained_active: nat,
    configured: ValidatedPositionConfig,
    group_assets: U256,
    liquidity_assets: U256,
) -> Result<(U256, U256), SimulationError> {
    match value_of(state.positions, configured.position_key) {
        None => Err(SimulationError::IncompleteState),
        Some(position) => match sum(group_assets, position.expected_assets) {
            None => Err(SimulationError::Arithmetic),
            Some(group) => match value_of(snapshot.positions@, configured.position_key) {
                None => Err(SimulationError::IncompleteState),
                Some(previous) => if previous.internal_supply_shares@ != 0
                    && position.internal_shares@ == 0 && exit_forbidden(
                    state,
                    snapshot,
                    config,
                    retained_active,
                    configured,
                    position,
                ) {
                    Err(SimulationError::ServiceConstraint)
                } else if (position.expected_assets@ != 0 && position.expected_assets@
                    < configured.minimum_position_assets@) || position.expected_assets@
                    > configured.maximum_position_assets@ {
                    Err(SimulationError::ServiceConstraint)
                } else {
                    match value_of(state.markets, configured.market_id) {
                        None => Err(SimulationError::IncompleteState),
                        Some(market) => match value_of(snapshot.markets@, configured.market_id) {
                            None => Err(SimulationError::IncompleteState),
                            Some(stored) => match from_liquidity(
                                remaining_spec(
                                    state.shared_liquidity,
                                    TokenAddress(stored.params.loan_token),
                                ),
                            ) {
                                Err(error) => Err(error),
                                Ok(shared) => if source_floor_broken(
                                    config,
                                    configured,
                                    position,
                                    market,
                                    shared,
                                ) {
                                    Err(SimulationError::ServiceConstraint)
                                } else if configured.adapter.0
                                    == snapshot.parent.liquidity_adapter {
                                    match sum(liquidity_assets, position.expected_assets) {
                                        None => Err(SimulationError::Arithmetic),
                                        Some(liquidity) => Ok((group, liquidity)),
                                    }
                                } else {
                                    Ok((group, liquidity_assets))
                                },
                            },
                        },
                    }
                },
            },
        },
    }
}

/// Checks of the configured positions from index `from` on.
pub open spec fn service_positions_from(
    state: SimulationView,
    snapshot: ExactVaultSnapshot,
    config: ValidatedVaultConfig,
    retained_active: nat,
    from: int,
    group_assets: U256,
    liquidity_assets: U256,
) -> Result<(U256, U256), SimulationError>
    decreases config.positions@.len() - from,
{
    if from >= config.positions@.len() {
        Ok((group_assets, liquidity_assets))
    } else {
        match service_step(
            state,
            snapshot,
            config,
            retained_active,
            config.positions@[from],
            group_assets,
            liquidity_assets,
        ) {
            Err(error) => Err(error),
            Ok((group, liquidity)) => service_positions_from(
                state,
                snapshot,
                config,
                retained_active,
                from + 1,
                group,
                liquidity,
            ),
        }
    }
}

/// Assets of the liquidity-only adapter before direct positions are added.
pub open spec fn liquidity_only_assets(state: SimulationView) -> U256 {
    match state.liquidity_adapter {
        Some(adapter) => adapter.real_assets,
        None => u256(0),
    }
}

/// Every post-action position and service floor.
pub open spec fn service_constraints_spec(
    state: SimulationView,
    snapshot: ExactVaultSnapshot,
    config: ValidatedVaultConfig,
) -> Result<(), SimulationError> {
    match service_positions_from(
        state,
        snapshot,
        config,
        retained_active_from(config.positions@, state.positions, 0),
        0,
        u256(0),
        liquidity_only_assets(state),
    ) {
        Err(error) => Err(error),
        Ok((group, liquidity)) => if group@ < config.rate_group.minimum_assets@ || group@
            > config.rate_group.maximum_assets@ || liquidity@
            < config.minimum_liquidity_adapter_assets@ {
            Err(SimulationError::ServiceConstraint)
        } else {
            match parent_total_assets_at(state, snapshot, state.projection_timestamp) {
                Err(error) => Err(error),
                Ok(total) => match maximum_deposit_spec(state, snapshot, config, total) {
                    Err(error) => Err(error),
                    Ok(deposit) => if deposit@ < config.minimum_deposit_headroom_assets@ {
                        Err(SimulationError::ServiceConstraint)
                    } else {
                        match exit_coverage_spec(state, snapshot, config) {
                            Err(error) => Err(error),
                            Ok(coverage) => if coverage@
                                < config.minimum_atomic_exit_coverage_assets@ {
                                Err(SimulationError::ServiceConstraint)
                            } else {
                                Ok(())
                            },
                        }
                    },
                },
            }
        },
    }
}

impl SimulationState {
    fn retained_active_positions(&self, config: &ValidatedVaultConfig) -> (r: usize)
        ensures
            r == retained_active_from(config.positions@, self.positions@, 0),
    {
        let mut retained: usize = 0;
        let mut i: usize = 0;
        while i < config.positions.len()
            invariant
                i <= config.positions.len(),
                retained <= i,
                retained + retained_active_from(config.positions@, self.positions@, i as int)
                    == retained_active_from(config.positions@, self.positions@, 0),
            decreases config.positions.len() - i,
        {
            let configured = config.positions[i];
            if configured.mode == MarketMode::Active {
                if let Some(position) = self.positions.get(configured.position_key) {
                    if !position.internal_shares.is_zero() {
                        retained = retained + 1;
                    }
                }
            }
            i = i + 1;
        }
        retained
    }

    fn exit_is_forbidden(
        &self,
        snapshot: &ExactVaultSnapshot,
        config: &ValidatedVaultConfig,
        retained_active: usize,
        configured: &ValidatedPositionConfig,
        position: &PositionSimulation,
    ) -> (r: bool)
        ensures
            r == exit_forbidden(
                self@,
                *snapshot,
                *config,
                retained_active as nat,
                *configured,
                *position,
            ),
    {
        let policy_exit = configured.mode == MarketMode::SourceOnly || configured.mode
            == MarketMode::Disabled;
        let dust_exit = !on_liquidity_path(snapshot, configured)
            && match self.initial_position_assets.get(configured.position_key) {
            Some(assets) => assets.le(configured.complete_exit_dust_threshold_assets),
            None => false,
        };
        let economic_exit = configured.mode == MarketMode::Active
            && configured.allow_active_complete_exit && retained_active
            >= config.minimum_active_positions_after_economic_exit;
        !position.expected_assets.is_zero() || !position.recorded_market_allocation.is_zero() || !(
        policy_exit || dust_exit || economic_exit)
    }

    fn service_position(
        &self,
        snapshot: &ExactVaultSnapshot,
        config: &ValidatedVaultConfig,
        retained_active: usize,
        configured: &ValidatedPositionConfig,
        group_assets: U256,
        liquidity_assets: U256,
    ) -> (r: Result<(U256, U256), SimulationError>)
        ensures
            r == service_step(
                self@,
                *snapshot,
                *config,
                retained_active as nat,
                *configured,
                group_assets,
                liquidity_assets,
            ),
    {
        let position = self.positions.get(configured.position_key).ok_or(
            SimulationError::IncompleteState,
        )?;
        let group = group_assets.checked_add(position.expected_assets).ok_or(
            SimulationError::Arithmetic,
        )?;
        let previous = snapshot.positions.get(configured.position_key).ok_or(
            SimulationError::IncompleteState,
        )?;
        if !previous.internal_supply_shares.is_zero() && position.internal_shares.is_zero()
            && self.exit_is_forbidden(snapshot, config, retained_active, configured, &position) {
            return Err(SimulationError::ServiceConstraint);
        }
        if (!position.expected_assets.is_zero() && position.expected_assets.lt(
            configured.minimum_position_assets,
        )) || configured.maximum_position_assets.lt(position.expected_assets) {
            return Err(SimulationError::ServiceConstraint);
        }
        let market = self.markets.get(configured.market_id).ok_or(
            SimulationError::IncompleteState,
        )?;
        let stored = snapshot.markets.get(configured.market_id).ok_or(
            SimulationError::IncompleteState,
        )?;
        let shared = ledger(
            self.shared_liquidity.remaining(TokenAddress(stored.params.loan_token)),
        )?;
        let source_eligible = !position.internal_shares.is_zero() && (configured.mode
            == MarketMode::Active || configured.mode == MarketMode::SourceOnly);
        if source_eligible && (market.accounting_liquidity.lt(
            configured.minimum_source_liquidity_assets,
        ) || configured.maximum_source_utilization_wad.lt(market.utilization) || shared.lt(
            config.minimum_source_token_liquidity_assets,
        )) {
            return Err(SimulationError::ServiceConstraint);
        }
        if configured.adapter.0 == snapshot.parent.liquidity_adapter {
            let liquidity = liquidity_assets.checked_add(position.expected_assets).ok_or(
                SimulationError::Arithmetic,
            )?;
            Ok((group, liquidity))
        } else {
            Ok((group, liquidity_assets))
        }
    }

    /// Recomputes every post-action position and service floor from simulated state.
    pub fn validate_service_constraints(
        &self,
        snapshot: &ExactVaultSnapshot,
        config: &ValidatedVaultConfig,
    ) -> (r: Result<(), SimulationError>)
        ensures
            r == service_constraints_spec(self@, *snapshot, *config),
    {
        let initial_liquidity = match self.liquidity_adapter {
            Some(adapter) => adapter.real_assets,
            None => U256::zero(),
        };
        let retained_active = self.retained_active_positions(config);
        let ghost checks = service_positions_from(
            self@,
            *snapshot,
            *config,
            retained_active as nat,
            0,
            u256(0),
            initial_liquidity,
        );
        let mut group_assets = U256::zero();
        let mut liquidity_assets = initial_liquidity;
        let mut i: usize = 0;
        while i < config.positions.len()
            invariant
                i <= config.positions.len(),
                checks is Err ==> service_constraints_spec(self@, *snapshot, *config) == Err::<
                    (),
                    SimulationError,
                >(checks->Err_0),
                checks == service_positions_from(
                    self@,
                    *snapshot,
                    *config,
                    retained_active as nat,
                    i as int,
                    group_assets,
                    liquidity_assets,
                ),
            decreases config.positions.len() - i,
        {
            let (group, liquidity) = self.service_position(
                snapshot,
                config,
                retained_active,
                &config.positions[i],
                group_assets,
                liquidity_assets,
            )?;
            group_assets = group;
            liquidity_assets = liquidity;
            i = i + 1;
        }
        if group_assets.lt(config.rate_group.minimum_assets) || config.rate_group.maximum_assets.lt(
            group_assets,
        ) {
            return Err(SimulationError::ServiceConstraint);
        }
        if liquidity_assets.lt(config.minimum_liquidity_adapter_assets) {
            return Err(SimulationError::ServiceConstraint);
        }
        let parent_total_assets = total_assets_at(self, snapshot, self.projection_timestamp)?;
        let deposit = self.maximum_executable_deposit(snapshot, config, parent_total_assets)?;
        if deposit.lt(config.minimum_deposit_headroom_assets) {
            return Err(SimulationError::ServiceConstraint);
        }
        let coverage = self.atomic_exit_coverage(snapshot, config)?;
        if coverage.lt(config.minimum_atomic_exit_coverage_assets) {
            return Err(SimulationError::ServiceConstraint);
        }
        Ok(())
    }
}

/// Markets accrued from the projection head to the horizon, from entry `from` on.
pub open spec fn terminal_markets_from(
    state: SimulationView,
    snapshot: ExactVaultSnapshot,
    head_timestamp: u64,
    horizon: u64,
    from: int,
    done: Seq<(MarketId, ProjectedMarketState)>,
) -> Result<Seq<(MarketId, ProjectedMarketState)>, SimulationError>
    decreases state.markets.len() - from,
{
    if from >= state.markets.len() {
        Ok(done)
    } else {
        let (id, market) = state.markets[from];
        match value_of(snapshot.markets@, id) {
            None => Err(SimulationError::IncompleteState),
            Some(source) => match from_liquidity(
                remaining_spec(state.shared_liquidity, TokenAddress(source.params.loan_token)),
            ) {
                Err(error) => Err(error),
                Ok(balance) => match from_math(
                    accrue_market_spec(
                        head_market(id, source, market, head_timestamp, balance),
                        horizon,
                        market.ending_rate_at_target,
                    ),
                ) {
                    Err(error) => Err(error),
                    Ok(accrued) => terminal_markets_from(
                        state,
                        snapshot,
                        head_timestamp,
                        horizon,
                        from + 1,
                        with_value(done, id, accrued.market),
                    ),
                },
            },
        }
    }
}

/// A projected market read as stored state at the projection head.
pub open spec fn head_market(
    id: MarketId,
    source: StoredMarketState,
    market: ProjectedMarketState,
    head_timestamp: u64,
    balance: U256,
) -> StoredMarketState {
    StoredMarketState {
        market_id: id,
        params: source.params,
        total_supply_assets: market.total_supply_assets,
        total_supply_shares: market.total_supply_shares,
        total_borrow_assets: market.total_borrow_assets,
        total_borrow_shares: market.total_borrow_shares,
        last_update: head_timestamp,
        fee: source.fee,
        irm: source.irm,
        stored_rate_at_target: market.ending_rate_at_target,
        morpho_loan_token_balance: balance,
    }
}

/// Adapter assets of the current positions at the horizon, from entry `from` on.
pub open spec fn terminal_adapters_from(
    positions: Seq<(PositionKey, PositionSimulation)>,
    markets: Seq<(MarketId, ProjectedMarketState)>,
    from: int,
    totals: Seq<(AdapterAddress, U256)>,
) -> Result<Seq<(AdapterAddress, U256)>, SimulationError>
    decreases positions.len() - from,
{
    if from >= positions.len() {
        Ok(totals)
    } else if !positions[from].1.current {
        terminal_adapters_from(positions, markets, from + 1, totals)
    } else {
        let position = positions[from].1;
        match value_of(markets, position.market) {
            None => Err(SimulationError::IncompleteState),
            Some(market) => match from_math(
                expected_adapter_assets_spec(position.internal_shares, market),
            ) {
                Err(error) => Err(error),
                Ok(assets) => match adapter_credited(totals, position.adapter, assets) {
                    None => Err(SimulationError::Arithmetic),
                    Some(next) => terminal_adapters_from(positions, markets, from + 1, next),
                },
            },
        }
    }
}

/// Asset value of existing parent shares at given parent totals: `shares * (assets + 1) /
/// (supply + virtual shares)`.
pub open spec fn shareholder_value(
    shares: U256,
    total_assets: U256,
    total_supply: U256,
    virtual_shares: U256,
) -> Result<U256, SimulationError> {
    match sum(total_assets, u256(1)) {
        None => Err(SimulationError::Arithmetic),
        Some(assets) => match sum(total_supply, virtual_shares) {
            None => Err(SimulationError::Arithmetic),
            Some(supply) => from_math(lifted(mul_div_down_spec(shares, assets, supply))),
        },
    }
}

fn value_existing_shares(
    shares: U256,
    total_assets: U256,
    total_supply: U256,
    virtual_shares: U256,
) -> (r: Result<U256, SimulationError>)
    ensures
        r == shareholder_value(shares, total_assets, total_supply, virtual_shares),
{
    let assets = total_assets.checked_add(U256::one()).ok_or(SimulationError::Arithmetic)?;
    let supply = total_supply.checked_add(virtual_shares).ok_or(SimulationError::Arithmetic)?;
    math(crate::morpho::lift(mul_div_down(shares, assets, supply)))
}

/// Value of the pre-execution parent shares at the horizon after the simulated actions.
pub open spec fn terminal_assets_spec(
    state: SimulationView,
    snapshot: ExactVaultSnapshot,
    projection: ProjectedVaultView,
    horizon: u64,
) -> Result<U256, SimulationError> {
    if horizon < projection.head.timestamp {
        Err(SimulationError::Arithmetic)
    } else {
        match terminal_markets_from(
            state,
            snapshot,
            projection.head.timestamp,
            horizon,
            0,
            Seq::empty(),
        ) {
            Err(error) => Err(error),
            Ok(markets) => match terminal_adapters_from(state.positions, markets, 0, Seq::empty()) {
                Err(error) => Err(error),
                Ok(totals) => {
                    let adapters = match state.liquidity_adapter {
                        Some(liquidity) => with_value(
                            totals,
                            liquidity.adapter,
                            liquidity.real_assets,
                        ),
                        None => totals,
                    };
                    let parent = ParentAccounting {
                        idle_assets: state.vault_idle,
                        stored_total_assets: match state.first_total_assets {
                            Some(value) => value,
                            None => projection.vault.parent_total_assets,
                        },
                        total_supply: projection.vault.projected_total_supply,
                        last_update: projection.head.timestamp,
                        ..snapshot.parent.accounting_spec()
                    };
                    match from_math(accrue_parent_spec(parent, adapters, horizon)) {
                        Err(error) => Err(error),
                        Ok(terminal) => shareholder_value(
                            snapshot.parent.total_supply,
                            terminal.total_assets,
                            terminal.projected_total_supply,
                            snapshot.parent.virtual_shares,
                        ),
                    }
                },
            },
        }
    }
}

impl SimulationState {
    fn terminal_markets(
        &self,
        snapshot: &ExactVaultSnapshot,
        head_timestamp: u64,
        horizon: u64,
    ) -> (r: Result<OrderedMap<MarketId, ProjectedMarketState>, SimulationError>)
        ensures
            match terminal_markets_from(
                self@,
                *snapshot,
                head_timestamp,
                horizon,
                0,
                Seq::empty(),
            ) {
                Ok(markets) => r is Ok && r->Ok_0@ == markets,
                Err(error) => r is Err && r->Err_0 == error,
            },
    {
        let mut done: OrderedMap<MarketId, ProjectedMarketState> = OrderedMap::new();
        let mut i: usize = 0;
        while i < self.markets.len()
            invariant
                i <= self.markets@.len(),
                terminal_markets_from(self@, *snapshot, head_timestamp, horizon, 0, Seq::empty())
                    == terminal_markets_from(
                    self@,
                    *snapshot,
                    head_timestamp,
                    horizon,
                    i as int,
                    done@,
                ),
            decreases self.markets@.len() - i,
        {
            let (id, market) = self.markets.at(i);
            let source = snapshot.markets.get(id).ok_or(SimulationError::IncompleteState)?;
            let balance = ledger(
                self.shared_liquidity.remaining(TokenAddress(source.params.loan_token)),
            )?;
            let stored = StoredMarketState {
                market_id: id,
                params: source.params,
                total_supply_assets: market.total_supply_assets,
                total_supply_shares: market.total_supply_shares,
                total_borrow_assets: market.total_borrow_assets,
                total_borrow_shares: market.total_borrow_shares,
                last_update: head_timestamp,
                fee: source.fee,
                irm: source.irm,
                stored_rate_at_target: market.ending_rate_at_target,
                morpho_loan_token_balance: balance,
            };
            let accrued = math(
                accrue_market(
                    &stored,
                    horizon,
                    &AdaptiveCurveState { stored_rate_at_target: stored.stored_rate_at_target },
                ),
            )?;
            done.insert(id, accrued.market);
            i = i + 1;
        }
        Ok(done)
    }

    fn terminal_adapters(&self, markets: &OrderedMap<MarketId, ProjectedMarketState>) -> (r: Result<
        OrderedMap<AdapterAddress, U256>,
        SimulationError,
    >)
        ensures
            match terminal_adapters_from(self@.positions, markets@, 0, Seq::empty()) {
                Ok(totals) => r is Ok && r->Ok_0@ == totals,
                Err(error) => r is Err && r->Err_0 == error,
            },
    {
        let mut totals: OrderedMap<AdapterAddress, U256> = OrderedMap::new();
        let mut i: usize = 0;
        while i < self.positions.len()
            invariant
                i <= self.positions@.len(),
                terminal_adapters_from(self@.positions, markets@, 0, Seq::empty())
                    == terminal_adapters_from(self@.positions, markets@, i as int, totals@),
            decreases self.positions@.len() - i,
        {
            let position = self.positions.at(i).1;
            if position.current {
                let market = markets.get(position.market).ok_or(SimulationError::IncompleteState)?;
                let assets = math(expected_adapter_assets(position.internal_shares, &market))?;
                if !credit_adapter(&mut totals, position.adapter, assets) {
                    return Err(SimulationError::Arithmetic);
                }
            }
            i = i + 1;
        }
        Ok(totals)
    }

    /// Projects the asset value of the pre-execution parent shares to a benefit horizon.
    ///
    /// The horizon is a Unix timestamp. Morpho, IRM, parent max-rate, fee-share, virtual-share and
    /// internal-adapter-share arithmetic follows the protocol sources.
    pub fn terminal_existing_shareholder_assets(
        &self,
        snapshot: &ExactVaultSnapshot,
        projection: &ProjectedVaultView,
        horizon_timestamp: u64,
    ) -> (r: Result<U256, SimulationError>)
        ensures
            r == terminal_assets_spec(self@, *snapshot, *projection, horizon_timestamp),
    {
        if horizon_timestamp < projection.head.timestamp {
            return Err(SimulationError::Arithmetic);
        }
        let markets = self.terminal_markets(
            snapshot,
            projection.head.timestamp,
            horizon_timestamp,
        )?;
        let mut adapters = self.terminal_adapters(&markets)?;
        if let Some(liquidity) = &self.liquidity_adapter {
            adapters.insert(liquidity.adapter, liquidity.real_assets);
        }
        let mut parent = snapshot.parent.accounting();
        parent.idle_assets = self.vault_idle;
        parent.stored_total_assets = match self.first_total_assets {
            Some(value) => value,
            None => projection.vault.parent_total_assets,
        };
        parent.total_supply = projection.vault.projected_total_supply;
        parent.last_update = projection.head.timestamp;
        let terminal = math(accrue_accounting(&parent, &adapters, horizon_timestamp))?;
        value_existing_shares(
            snapshot.parent.total_supply,
            terminal.total_assets,
            terminal.projected_total_supply,
            parent.virtual_shares,
        )
    }
}

/// No-plan value of the pre-execution shares at the horizon, which the terminal projection must be
/// made for.
pub open spec fn no_plan_terminal_spec(
    snapshot: ExactVaultSnapshot,
    terminal: Option<&ProjectedVaultView>,
    horizon: u64,
) -> Result<U256, SimulationError> {
    match terminal {
        Some(view) => if view.head.timestamp == horizon {
            shareholder_value(
                snapshot.parent.total_supply,
                view.vault.parent_total_assets,
                view.vault.projected_total_supply,
                snapshot.parent.virtual_shares,
            )
        } else {
            Err(SimulationError::IncompleteState)
        },
        None => Err(SimulationError::IncompleteState),
    }
}

/// Values the pre-execution shares at the benefit horizon without any action.
///
/// `terminal` is the snapshot projected to the horizon, where that projection succeeds. One made for
/// another timestamp is refused.
pub fn no_plan_terminal_existing_shareholder_assets(
    snapshot: &ExactVaultSnapshot,
    terminal: Option<&ProjectedVaultView>,
    horizon_timestamp: u64,
) -> (r: Result<U256, SimulationError>)
    ensures
        r == no_plan_terminal_spec(*snapshot, terminal, horizon_timestamp),
{
    let view = terminal.ok_or(SimulationError::IncompleteState)?;
    if view.head.timestamp != horizon_timestamp {
        return Err(SimulationError::IncompleteState);
    }
    value_existing_shares(
        snapshot.parent.total_supply,
        view.vault.parent_total_assets,
        view.vault.projected_total_supply,
        snapshot.parent.virtual_shares,
    )
}

/// The liquidity-only adapter when `key` is its synthetic action key.
pub open spec fn liquidity_target(config: ValidatedVaultConfig, key: PositionKey) -> Option<
    ValidatedLiquidityAdapterConfig,
> {
    match config.liquidity_adapter {
        Some(configured) => if configured.position_key == key {
            Some(configured)
        } else {
            None
        },
        None => None,
    }
}

fn find_liquidity_target(config: &ValidatedVaultConfig, key: PositionKey) -> (r: Option<
    ValidatedLiquidityAdapterConfig,
>)
    ensures
        r == liquidity_target(*config, key),
{
    match config.liquidity_adapter {
        Some(configured) => if configured.position_key == key {
            Some(configured)
        } else {
            None
        },
        None => None,
    }
}

/// Whether a liquidity-adapter action names the configured adapter, carries no data and stays
/// within the per-action bound.
pub open spec fn liquidity_action_conforms(
    configured: ValidatedLiquidityAdapterConfig,
    action: ActionView,
) -> bool {
    configured.address == action.adapter && action.data.len() == 0 && action.requested@
        <= configured.maximum_action_assets@
}

fn liquidity_action_fits(configured: &ValidatedLiquidityAdapterConfig, action: &V2Action) -> (r:
    bool)
    ensures
        r == liquidity_action_conforms(*configured, action@),
{
    configured.address == action.adapter() && action.data().len() == 0 && action.requested().le(
        configured.maximum_action_assets,
    )
}

/// Current state of the liquidity-only adapter, when it is the adapter acted through.
pub open spec fn liquidity_current(state: SimulationView, adapter: AdapterAddress) -> Result<
    VaultV1LiquidityAdapterState,
    SimulationError,
> {
    match state.liquidity_adapter {
        None => Err(SimulationError::IncompleteState),
        Some(current) => if current.adapter != adapter {
            Err(SimulationError::IncompleteState)
        } else {
            Ok(current)
        },
    }
}

/// Balances of the adapter after a transition; deposit and withdrawal limits are unchanged.
pub open spec fn liquidity_balances(
    current: VaultV1LiquidityAdapterState,
    transition: VaultV1AdapterTransition,
    recorded: U256,
) -> VaultV1LiquidityAdapterState {
    VaultV1LiquidityAdapterState {
        vault_total_assets: transition.vault_total_assets,
        vault_total_supply: transition.vault_total_supply,
        share_balance: transition.share_balance,
        real_assets: transition.real_assets,
        recorded_allocation: recorded,
        idle_market_total_supply_assets: transition.idle_market_total_supply_assets,
        idle_market_total_supply_shares: transition.idle_market_total_supply_shares,
        idle_market_supply_shares: transition.idle_market_supply_shares,
        ..current
    }
}

fn move_liquidity_balances(
    current: VaultV1LiquidityAdapterState,
    transition: &VaultV1AdapterTransition,
    recorded: U256,
) -> (r: VaultV1LiquidityAdapterState)
    ensures
        r == liquidity_balances(current, *transition, recorded),
{
    let mut moved = current;
    moved.vault_total_assets = transition.vault_total_assets;
    moved.vault_total_supply = transition.vault_total_supply;
    moved.share_balance = transition.share_balance;
    moved.real_assets = transition.real_assets;
    moved.recorded_allocation = recorded;
    moved.idle_market_total_supply_assets = transition.idle_market_total_supply_assets;
    moved.idle_market_total_supply_shares = transition.idle_market_total_supply_shares;
    moved.idle_market_supply_shares = transition.idle_market_supply_shares;
    moved
}

/// Adds an action-local loss to the total and appends the action effect.
pub open spec fn effect_recorded(state: SimulationView, effect: ActionProjection) -> (
    SimulationView,
    Result<ActionProjection, SimulationError>,
) {
    match sum(state.immediate_loss_assets, effect.positive_loss_assets) {
        None => (state, Err(SimulationError::Arithmetic)),
        Some(loss) => (
            SimulationView {
                immediate_loss_assets: loss,
                actions: state.actions.push(effect),
                ..state
            },
            Ok(effect),
        ),
    }
}

impl SimulationState {
    fn record_effect(&mut self, effect: ActionProjection) -> (r: Result<
        ActionProjection,
        SimulationError,
    >)
        ensures
            (final(self)@, r) == effect_recorded(old(self)@, effect),
    {
        let loss = self.immediate_loss_assets.checked_add(effect.positive_loss_assets).ok_or(
            SimulationError::Arithmetic,
        )?;
        self.immediate_loss_assets = loss;
        self.actions.push(effect);
        Ok(effect)
    }
}

/// Moves assets from the shared token balance to parent idle.
pub open spec fn drawn(state: SimulationView, token: TokenAddress, assets: U256) -> (
    SimulationView,
    Result<(), SimulationError>,
) {
    match from_liquidity(consumed(state.shared_liquidity, token, assets)) {
        Err(error) => (state, Err(error)),
        Ok(left) => {
            let paid = SimulationView {
                shared_liquidity: with_value(state.shared_liquidity, token, left),
                ..state
            };
            match sum(state.vault_idle, assets) {
                None => (paid, Err(SimulationError::Arithmetic)),
                Some(idle) => (SimulationView { vault_idle: idle, ..paid }, Ok(())),
            }
        },
    }
}

/// Moves assets from parent idle to the shared token balance.
pub open spec fn supplied(state: SimulationView, token: TokenAddress, assets: U256) -> (
    SimulationView,
    Result<(), SimulationError>,
) {
    match difference(state.vault_idle, assets) {
        None => (state, Err(SimulationError::InsufficientIdle)),
        Some(idle) => {
            let paid = SimulationView { vault_idle: idle, ..state };
            match from_liquidity(credited(state.shared_liquidity, token, assets)) {
                Err(error) => (paid, Err(error)),
                Ok(left) => (
                    SimulationView {
                        shared_liquidity: with_value(state.shared_liquidity, token, left),
                        ..paid
                    },
                    Ok(()),
                ),
            }
        },
    }
}

impl SimulationState {
    fn draw(&mut self, token: TokenAddress, assets: U256) -> (r: Result<(), SimulationError>)
        ensures
            (final(self)@, r) == drawn(old(self)@, token, assets),
    {
        let consumption = self.shared_liquidity.consume(token, assets);
        let _left = ledger(consumption)?;
        let idle = self.vault_idle.checked_add(assets).ok_or(SimulationError::Arithmetic)?;
        self.vault_idle = idle;
        Ok(())
    }

    fn supply(&mut self, token: TokenAddress, assets: U256) -> (r: Result<(), SimulationError>)
        ensures
            (final(self)@, r) == supplied(old(self)@, token, assets),
    {
        let idle = self.vault_idle.checked_sub(assets).ok_or(SimulationError::InsufficientIdle)?;
        self.vault_idle = idle;
        let credit = self.shared_liquidity.credit(token, assets);
        let _left = ledger(credit)?;
        Ok(())
    }
}

/// Action-local loss of a withdrawal: value before, less value after and assets received.
pub open spec fn exit_loss(before: U256, after: U256, requested: U256) -> Option<U256> {
    match sum(after, requested) {
        None => None,
        Some(kept) => Some(saturating_difference(before, kept)),
    }
}

/// Action-local loss of a supply: value before and assets paid, less value after.
pub open spec fn entry_loss(before: U256, after: U256, requested: U256) -> Option<U256> {
    match sum(before, requested) {
        None => None,
        Some(paid) => Some(saturating_difference(paid, after)),
    }
}

/// A withdrawal through the liquidity-only adapter.
pub open spec fn liquidity_exit_action(
    state: SimulationView,
    config: ValidatedVaultConfig,
    configured: ValidatedLiquidityAdapterConfig,
    action: ActionView,
) -> (SimulationView, Result<ActionProjection, SimulationError>) {
    if !liquidity_action_conforms(configured, action) {
        (state, Err(SimulationError::InvalidAction))
    } else {
        match liquidity_current(state, action.adapter) {
            Err(error) => (state, Err(error)),
            Ok(current) => match from_math(v1_deallocate_spec(current, action.requested)) {
                Err(error) => (state, Err(error)),
                Ok(transition) => {
                    let reference = CapRef { vault: config.address, id: current.adapter_id };
                    match value_of(state.cap_ledger, reference) {
                        None => (state, Err(SimulationError::IncompleteState)),
                        Some(recorded) => match delta_applied(
                            recorded,
                            transition.allocation_change,
                        ) {
                            Err(error) => (state, Err(error)),
                            Ok(updated) => {
                                let released = SimulationView {
                                    cap_ledger: with_value(state.cap_ledger, reference, updated),
                                    ..state
                                };
                                let (paid, outcome) = drawn(
                                    released,
                                    TokenAddress(config.asset.0),
                                    action.requested,
                                );
                                match outcome {
                                    Err(error) => (paid, Err(error)),
                                    Ok(_) => match exit_loss(
                                        current.real_assets,
                                        transition.real_assets,
                                        action.requested,
                                    ) {
                                        None => (paid, Err(SimulationError::Arithmetic)),
                                        Some(loss) => effect_recorded(
                                            SimulationView {
                                                liquidity_adapter: Some(
                                                    VaultV1LiquidityAdapterState {
                                                        max_withdraw: saturating_difference(
                                                            current.max_withdraw,
                                                            action.requested,
                                                        ),
                                                        ..liquidity_balances(
                                                            current,
                                                            transition,
                                                            updated,
                                                        )
                                                    },
                                                ),
                                                ..paid
                                            },
                                            ActionProjection {
                                                position: action.position,
                                                requested_assets: action.requested,
                                                changed_shares: transition.changed_morpho_shares,
                                                expected_assets_after: transition.real_assets,
                                                allocation_change: transition.allocation_change,
                                                positive_loss_assets: loss,
                                            },
                                        ),
                                    },
                                }
                            },
                        },
                    }
                },
            },
        }
    }
}

fn simulate_liquidity_exit(
    state: &mut SimulationState,
    config: &ValidatedVaultConfig,
    configured: &ValidatedLiquidityAdapterConfig,
    action: &V2Action,
) -> (r: Result<ActionProjection, SimulationError>)
    ensures
        (final(state)@, r) == liquidity_exit_action(old(state)@, *config, *configured, action@),
{
    let requested = action.requested();
    if !liquidity_action_fits(configured, action) {
        return Err(SimulationError::InvalidAction);
    }
    let current = state.liquidity_adapter.ok_or(SimulationError::IncompleteState)?;
    if current.adapter != action.adapter() {
        return Err(SimulationError::IncompleteState);
    }
    let transition = math(crate::morpho::vault_v1_adapter::deallocate(&current, requested))?;
    let reference = CapRef { vault: config.address, id: current.adapter_id };
    let recorded = state.cap_ledger.get(reference).ok_or(SimulationError::IncompleteState)?;
    let updated = apply_delta(recorded, transition.allocation_change)?;
    state.cap_ledger.insert(reference, updated);
    state.draw(TokenAddress(config.asset.0), requested)?;
    let kept = transition.real_assets.checked_add(requested).ok_or(SimulationError::Arithmetic)?;
    let loss = current.real_assets.saturating_sub(kept);
    let mut moved = move_liquidity_balances(current, &transition, updated);
    moved.max_withdraw = current.max_withdraw.saturating_sub(requested);
    state.liquidity_adapter = Some(moved);
    state.record_effect(
        ActionProjection {
            position: action.position(),
            requested_assets: requested,
            changed_shares: transition.changed_morpho_shares,
            expected_assets_after: transition.real_assets,
            allocation_change: transition.allocation_change,
            positive_loss_assets: loss,
        },
    )
}

/// Transition of a direct withdrawal, before any state changes.
pub open spec fn direct_exit_transition(
    state: SimulationView,
    snapshot: ExactVaultSnapshot,
    config: ValidatedVaultConfig,
    action: ActionView,
) -> Result<(PositionSimulation, TokenAddress, AdapterTransitionResult), SimulationError> {
    match configured_from(config.positions@, action.position, 0) {
        None => Err(SimulationError::IncompleteState),
        Some(configured) => if configured.adapter != action.adapter || action.data
            != market_params_encoding(configured.market_params) {
            Err(SimulationError::InvalidAction)
        } else {
            match value_of(state.positions, action.position) {
                None => Err(SimulationError::IncompleteState),
                Some(position) => if !(position.mode == MarketMode::Active || position.mode
                    == MarketMode::SourceOnly || position.mode == MarketMode::Disabled) {
                    Err(SimulationError::PositionMode)
                } else if value_of(snapshot.adapters@, action.adapter) is None {
                    Err(SimulationError::IncompleteState)
                } else {
                    match value_of(state.markets, position.market) {
                        None => Err(SimulationError::IncompleteState),
                        Some(market) => match value_of(snapshot.markets@, position.market) {
                            None => Err(SimulationError::IncompleteState),
                            Some(stored) => {
                                let token = TokenAddress(stored.params.loan_token);
                                match from_liquidity(
                                    remaining_spec(state.shared_liquidity, token),
                                ) {
                                    Err(error) => Err(error),
                                    Ok(balance) => match from_math(
                                        deallocate_spec(
                                            market,
                                            position.internal_shares,
                                            action.requested,
                                            position.recorded_market_allocation,
                                            balance,
                                            stored.fee,
                                            position.affected_caps,
                                        ),
                                    ) {
                                        Err(error) => Err(error),
                                        Ok(transition) => Ok((position, token, transition)),
                                    },
                                }
                            },
                        },
                    }
                },
            }
        },
    }
}

fn prepare_direct_exit(
    state: &SimulationState,
    snapshot: &ExactVaultSnapshot,
    config: &ValidatedVaultConfig,
    action: &V2Action,
) -> (r: Result<(PositionSimulation, TokenAddress, AdapterTransitionResult), SimulationError>)
    ensures
        r == direct_exit_transition(state@, *snapshot, *config, action@),
{
    let configured = find_configured(&config.positions, action.position()).ok_or(
        SimulationError::IncompleteState,
    )?;
    if configured.adapter != action.adapter() || !bytes_equal(
        action.data(),
        &encode_adapter_data(&configured.market_params),
    ) {
        return Err(SimulationError::InvalidAction);
    }
    let position = state.positions.get(action.position()).ok_or(SimulationError::IncompleteState)?;
    match position.mode {
        MarketMode::Active | MarketMode::SourceOnly | MarketMode::Disabled => {},
        _ => return Err(SimulationError::PositionMode),
    }
    if !snapshot.adapters.contains_key(action.adapter()) {
        return Err(SimulationError::IncompleteState);
    }
    let market = state.markets.get(position.market).ok_or(SimulationError::IncompleteState)?;
    let stored = snapshot.markets.get(position.market).ok_or(SimulationError::IncompleteState)?;
    let token = TokenAddress(stored.params.loan_token);
    let balance = ledger(state.shared_liquidity.remaining(token))?;
    let transition = math(
        deallocate(
            &market,
            position.internal_shares,
            action.requested(),
            position.recorded_market_allocation,
            balance,
            stored.fee,
            position.affected_caps,
        ),
    )?;
    Ok((position, token, transition))
}

/// Cap ledger after a withdrawal moved the affected caps from index `from` on; a cap with a zero
/// recorded allocation refuses the change, and earlier caps keep theirs.
pub open spec fn caps_released_from(
    recorded: Seq<(CapRef, U256)>,
    affected: [CapRef; 3],
    change: I256,
    from: int,
) -> (Seq<(CapRef, U256)>, Result<(), SimulationError>)
    decreases 3 - from,
{
    if from >= 3 {
        (recorded, Ok(()))
    } else {
        match value_of(recorded, affected@[from]) {
            None => (recorded, Err(SimulationError::IncompleteState)),
            Some(before) => if before@ == 0 {
                (recorded, Err(SimulationError::InvalidDeallocationCap))
            } else {
                match delta_applied(before, change) {
                    Err(error) => (recorded, Err(error)),
                    Ok(after) => caps_released_from(
                        with_value(recorded, affected@[from], after),
                        affected,
                        change,
                        from + 1,
                    ),
                }
            },
        }
    }
}

fn release_caps(recorded: &mut OrderedMap<CapRef, U256>, affected: [CapRef; 3], change: I256) -> (r:
    Result<(), SimulationError>)
    ensures
        (final(recorded)@, r) == caps_released_from(old(recorded)@, affected, change, 0),
{
    let mut i: usize = 0;
    while i < 3
        invariant
            i <= 3,
            caps_released_from(old(recorded)@, affected, change, 0) == caps_released_from(
                recorded@,
                affected,
                change,
                i as int,
            ),
        decreases 3 - i,
    {
        let reference = affected[i];
        let before = recorded.get(reference).ok_or(SimulationError::IncompleteState)?;
        if before.is_zero() {
            return Err(SimulationError::InvalidDeallocationCap);
        }
        let after = apply_delta(before, change)?;
        recorded.insert(reference, after);
        i = i + 1;
    }
    Ok(())
}

/// Stores the market and position after a direct transition and records its effect.
pub open spec fn direct_settled(
    state: SimulationView,
    action: ActionView,
    position: PositionSimulation,
    transition: AdapterTransitionResult,
    loss: Option<U256>,
) -> (SimulationView, Result<ActionProjection, SimulationError>) {
    let moved = SimulationView {
        markets: with_value(state.markets, position.market, transition.market),
        ..state
    };
    match loss {
        None => (moved, Err(SimulationError::Arithmetic)),
        Some(assets) => effect_recorded(
            SimulationView {
                positions: with_value(
                    moved.positions,
                    action.position,
                    PositionSimulation {
                        internal_shares: transition.internal_supply_shares,
                        current: transition.internal_supply_shares@ != 0,
                        expected_assets: transition.expected_assets,
                        recorded_market_allocation: transition.expected_assets,
                        ..position
                    },
                ),
                ..moved
            },
            ActionProjection {
                position: action.position,
                requested_assets: action.requested,
                changed_shares: transition.changed_shares,
                expected_assets_after: transition.expected_assets,
                allocation_change: transition.allocation_change,
                positive_loss_assets: assets,
            },
        ),
    }
}

impl SimulationState {
    fn settle_direct(
        &mut self,
        action: &V2Action,
        position: &PositionSimulation,
        transition: &AdapterTransitionResult,
        loss: Option<U256>,
    ) -> (r: Result<ActionProjection, SimulationError>)
        ensures
            (final(self)@, r) == direct_settled(
                old(self)@,
                action@,
                *position,
                *transition,
                loss,
            ),
    {
        self.markets.insert(position.market, transition.market);
        let assets = loss.ok_or(SimulationError::Arithmetic)?;
        let mut moved = *position;
        moved.internal_shares = transition.internal_supply_shares;
        moved.current = !transition.internal_supply_shares.is_zero();
        moved.expected_assets = transition.expected_assets;
        moved.recorded_market_allocation = transition.expected_assets;
        self.positions.insert(action.position(), moved);
        self.record_effect(
            ActionProjection {
                position: action.position(),
                requested_assets: action.requested(),
                changed_shares: transition.changed_shares,
                expected_assets_after: transition.expected_assets,
                allocation_change: transition.allocation_change,
                positive_loss_assets: assets,
            },
        )
    }
}

/// A withdrawal from a direct position.
pub open spec fn direct_exit_action(
    state: SimulationView,
    snapshot: ExactVaultSnapshot,
    config: ValidatedVaultConfig,
    action: ActionView,
) -> (SimulationView, Result<ActionProjection, SimulationError>) {
    match direct_exit_transition(state, snapshot, config, action) {
        Err(error) => (state, Err(error)),
        Ok((position, token, transition)) => {
            let (recorded, caps) = caps_released_from(
                state.cap_ledger,
                position.affected_caps,
                transition.allocation_change,
                0,
            );
            let released = SimulationView { cap_ledger: recorded, ..state };
            match caps {
                Err(error) => (released, Err(error)),
                Ok(_) => {
                    let (paid, outcome) = drawn(released, token, action.requested);
                    match outcome {
                        Err(error) => (paid, Err(error)),
                        Ok(_) => direct_settled(
                            paid,
                            action,
                            position,
                            transition,
                            exit_loss(
                                position.expected_assets,
                                transition.expected_assets,
                                action.requested,
                            ),
                        ),
                    }
                },
            }
        },
    }
}

/// One deallocation: the state it leaves and its outcome.
pub open spec fn deallocation_spec(
    state: SimulationView,
    snapshot: ExactVaultSnapshot,
    config: ValidatedVaultConfig,
    action: ActionView,
) -> (SimulationView, Result<ActionProjection, SimulationError>) {
    if action.kind != ActionKind::Deallocate || action.requested@ == 0 {
        (state, Err(SimulationError::InvalidAction))
    } else {
        match liquidity_target(config, action.position) {
            Some(configured) => liquidity_exit_action(state, config, configured, action),
            None => direct_exit_action(state, snapshot, config, action),
        }
    }
}

/// Applies one exact deallocation, including shared token consumption and cap catch-up.
///
/// A refused action leaves the changes made before the refusing step.
pub fn simulate_deallocation(
    state: &mut SimulationState,
    snapshot: &ExactVaultSnapshot,
    config: &ValidatedVaultConfig,
    action: &V2Action,
) -> (r: Result<ActionProjection, SimulationError>)
    ensures
        (final(state)@, r) == deallocation_spec(old(state)@, *snapshot, *config, action@),
{
    if action.kind() != ActionKind::Deallocate || action.requested().is_zero() {
        return Err(SimulationError::InvalidAction);
    }
    if let Some(configured) = find_liquidity_target(config, action.position()) {
        return simulate_liquidity_exit(state, config, &configured, action);
    }
    let (position, token, transition) = prepare_direct_exit(state, snapshot, config, action)?;
    release_caps(
        &mut state.cap_ledger,
        position.affected_caps,
        transition.allocation_change,
    )?;
    state.draw(token, action.requested())?;
    let loss = match transition.expected_assets.checked_add(action.requested()) {
        Some(kept) => Some(position.expected_assets.saturating_sub(kept)),
        None => None,
    };
    state.settle_direct(action, &position, &transition, loss)
}

/// Establishes the first parent total assets unless they are already fixed.
pub open spec fn first_total_fixed(
    state: SimulationView,
    snapshot: ExactVaultSnapshot,
    timestamp: u64,
) -> (SimulationView, Result<U256, SimulationError>) {
    match state.first_total_assets {
        Some(total) => (state, Ok(total)),
        None => match parent_total_assets_at(state, snapshot, timestamp) {
            Err(error) => (state, Err(error)),
            Ok(total) => (SimulationView { first_total_assets: Some(total), ..state }, Ok(total)),
        },
    }
}

impl SimulationState {
    fn fix_first_total(&mut self, snapshot: &ExactVaultSnapshot, timestamp: u64) -> (r: Result<
        U256,
        SimulationError,
    >)
        ensures
            (final(self)@, r) == first_total_fixed(old(self)@, *snapshot, timestamp),
    {
        if let Some(total) = self.first_total_assets {
            return Ok(total);
        }
        let total = total_assets_at(self, snapshot, timestamp)?;
        self.first_total_assets = Some(total);
        Ok(total)
    }
}

/// A supply through the liquidity-only adapter once the first parent total is fixed.
pub open spec fn liquidity_entry_at(
    state: SimulationView,
    snapshot: ExactVaultSnapshot,
    config: ValidatedVaultConfig,
    action: ActionView,
    first_total_assets: U256,
) -> (SimulationView, Result<ActionProjection, SimulationError>) {
    match liquidity_current(state, action.adapter) {
        Err(error) => (state, Err(error)),
        Ok(current) => match from_math(v1_allocate_spec(current, action.requested)) {
            Err(error) => (state, Err(error)),
            Ok(transition) => {
                let reference = CapRef { vault: config.address, id: current.adapter_id };
                match cap_charged(
                    state.cap_ledger,
                    snapshot.caps@,
                    reference,
                    transition.allocation_change,
                    first_total_assets,
                ) {
                    Err(error) => (state, Err(error)),
                    Ok(updated) => {
                        let charged = SimulationView {
                            cap_ledger: with_value(state.cap_ledger, reference, updated),
                            ..state
                        };
                        let (paid, outcome) = supplied(
                            charged,
                            TokenAddress(config.asset.0),
                            action.requested,
                        );
                        match outcome {
                            Err(error) => (paid, Err(error)),
                            Ok(_) => match entry_loss(
                                current.real_assets,
                                transition.real_assets,
                                action.requested,
                            ) {
                                None => (paid, Err(SimulationError::Arithmetic)),
                                Some(loss) => {
                                    let filled = VaultV1LiquidityAdapterState {
                                        max_deposit: saturating_difference(
                                            current.max_deposit,
                                            action.requested,
                                        ),
                                        ..liquidity_balances(current, transition, updated)
                                    };
                                    match sum(current.max_withdraw, action.requested) {
                                        None => (
                                            SimulationView {
                                                liquidity_adapter: Some(filled),
                                                ..paid
                                            },
                                            Err(SimulationError::Arithmetic),
                                        ),
                                        Some(max_withdraw) => effect_recorded(
                                            SimulationView {
                                                liquidity_adapter: Some(
                                                    VaultV1LiquidityAdapterState {
                                                        max_withdraw,
                                                        ..filled
                                                    },
                                                ),
                                                ..paid
                                            },
                                            ActionProjection {
                                                position: action.position,
                                                requested_assets: action.requested,
                                                changed_shares: transition.changed_morpho_shares,
                                                expected_assets_after: transition.real_assets,
                                                allocation_change: transition.allocation_change,
                                                positive_loss_assets: loss,
                                            },
                                        ),
                                    }
                                },
                            },
                        }
                    },
                }
            },
        },
    }
}

/// Recorded allocation of a cap after a supply, when the cap admits it.
pub open spec fn cap_charged(
    recorded: Seq<(CapRef, U256)>,
    caps: Seq<(CapRef, CapState)>,
    reference: CapRef,
    change: I256,
    total_assets: U256,
) -> Result<U256, SimulationError> {
    match value_of(recorded, reference) {
        None => Err(SimulationError::IncompleteState),
        Some(before) => match delta_applied(before, change) {
            Err(error) => Err(error),
            Ok(after) => match value_of(caps, reference) {
                None => Err(SimulationError::IncompleteState),
                Some(cap) => if cap_admits(cap, total_assets, after) {
                    Ok(after)
                } else {
                    Err(SimulationError::AllocationCap)
                },
            },
        },
    }
}

fn charge_cap(
    recorded: &OrderedMap<CapRef, U256>,
    caps: &OrderedMap<CapRef, CapState>,
    reference: CapRef,
    change: I256,
    total_assets: U256,
) -> (r: Result<U256, SimulationError>)
    ensures
        r == cap_charged(recorded@, caps@, reference, change, total_assets),
{
    let before = recorded.get(reference).ok_or(SimulationError::IncompleteState)?;
    let after = apply_delta(before, change)?;
    let cap = caps.get(reference).ok_or(SimulationError::IncompleteState)?;
    match validate_allocation_cap(&cap, total_assets, after) {
        Ok(_) => Ok(after),
        Err(_) => Err(SimulationError::AllocationCap),
    }
}

/// A supply through the liquidity-only adapter.
pub open spec fn liquidity_entry_action(
    state: SimulationView,
    snapshot: ExactVaultSnapshot,
    config: ValidatedVaultConfig,
    timestamp: u64,
    configured: ValidatedLiquidityAdapterConfig,
    action: ActionView,
) -> (SimulationView, Result<ActionProjection, SimulationError>) {
    if !liquidity_action_conforms(configured, action) {
        (state, Err(SimulationError::InvalidAction))
    } else {
        let (fixed, total) = first_total_fixed(state, snapshot, timestamp);
        match total {
            Err(error) => (fixed, Err(error)),
            Ok(first_total_assets) => liquidity_entry_at(
                fixed,
                snapshot,
                config,
                action,
                first_total_assets,
            ),
        }
    }
}

fn simulate_liquidity_entry(
    state: &mut SimulationState,
    snapshot: &ExactVaultSnapshot,
    config: &ValidatedVaultConfig,
    timestamp: u64,
    configured: &ValidatedLiquidityAdapterConfig,
    action: &V2Action,
) -> (r: Result<ActionProjection, SimulationError>)
    ensures
        (final(state)@, r) == liquidity_entry_action(
            old(state)@,
            *snapshot,
            *config,
            timestamp,
            *configured,
            action@,
        ),
{
    let requested = action.requested();
    if !liquidity_action_fits(configured, action) {
        return Err(SimulationError::InvalidAction);
    }
    let first_total_assets = state.fix_first_total(snapshot, timestamp)?;
    let current = state.liquidity_adapter.ok_or(SimulationError::IncompleteState)?;
    if current.adapter != action.adapter() {
        return Err(SimulationError::IncompleteState);
    }
    let transition = math(crate::morpho::vault_v1_adapter::allocate(&current, requested))?;
    let reference = CapRef { vault: config.address, id: current.adapter_id };
    let updated = charge_cap(
        &state.cap_ledger,
        &snapshot.caps,
        reference,
        transition.allocation_change,
        first_total_assets,
    )?;
    state.cap_ledger.insert(reference, updated);
    state.supply(TokenAddress(config.asset.0), requested)?;
    let paid = current.real_assets.checked_add(requested).ok_or(SimulationError::Arithmetic)?;
    let loss = paid.saturating_sub(transition.real_assets);
    let mut moved = move_liquidity_balances(current, &transition, updated);
    moved.max_deposit = current.max_deposit.saturating_sub(requested);
    state.liquidity_adapter = Some(moved);
    let max_withdraw = current.max_withdraw.checked_add(requested).ok_or(
        SimulationError::Arithmetic,
    )?;
    moved.max_withdraw = max_withdraw;
    state.liquidity_adapter = Some(moved);
    state.record_effect(
        ActionProjection {
            position: action.position(),
            requested_assets: requested,
            changed_shares: transition.changed_morpho_shares,
            expected_assets_after: transition.real_assets,
            allocation_change: transition.allocation_change,
            positive_loss_assets: loss,
        },
    )
}

/// Position a direct supply acts on, once its shape and mode are checked.
pub open spec fn entry_position(
    state: SimulationView,
    snapshot: ExactVaultSnapshot,
    config: ValidatedVaultConfig,
    action: ActionView,
) -> Result<PositionSimulation, SimulationError> {
    match configured_from(config.positions@, action.position, 0) {
        None => Err(SimulationError::IncompleteState),
        Some(configured) => if configured.adapter != action.adapter || action.data
            != market_params_encoding(configured.market_params) {
            Err(SimulationError::InvalidAction)
        } else {
            match value_of(state.positions, action.position) {
                None => Err(SimulationError::IncompleteState),
                Some(position) => if position.mode != MarketMode::Active {
                    Err(SimulationError::PositionMode)
                } else if value_of(snapshot.adapters@, action.adapter) is None {
                    Err(SimulationError::IncompleteState)
                } else {
                    Ok(position)
                },
            }
        },
    }
}

/// Transition of a direct supply.
pub open spec fn direct_entry_transition(
    state: SimulationView,
    snapshot: ExactVaultSnapshot,
    position: PositionSimulation,
    requested: U256,
) -> Result<(TokenAddress, AdapterTransitionResult), SimulationError> {
    match value_of(state.markets, position.market) {
        None => Err(SimulationError::IncompleteState),
        Some(market) => match value_of(snapshot.markets@, position.market) {
            None => Err(SimulationError::IncompleteState),
            Some(stored) => match from_math(
                allocate_spec(
                    market,
                    position.internal_shares,
                    requested,
                    position.recorded_market_allocation,
                    stored.fee,
                    position.affected_caps,
                ),
            ) {
                Err(error) => Err(error),
                Ok(transition) => Ok((TokenAddress(stored.params.loan_token), transition)),
            },
        },
    }
}

/// Cap ledger after a supply moved the affected caps from index `from` on; a cap that does not
/// admit the change refuses it, and earlier caps keep theirs.
pub open spec fn caps_charged_from(
    recorded: Seq<(CapRef, U256)>,
    caps: Seq<(CapRef, CapState)>,
    affected: [CapRef; 3],
    change: I256,
    total_assets: U256,
    from: int,
) -> (Seq<(CapRef, U256)>, Result<(), SimulationError>)
    decreases 3 - from,
{
    if from >= 3 {
        (recorded, Ok(()))
    } else {
        match cap_charged(recorded, caps, affected@[from], change, total_assets) {
            Err(error) => (recorded, Err(error)),
            Ok(after) => caps_charged_from(
                with_value(recorded, affected@[from], after),
                caps,
                affected,
                change,
                total_assets,
                from + 1,
            ),
        }
    }
}

fn charge_caps(
    recorded: &mut OrderedMap<CapRef, U256>,
    caps: &OrderedMap<CapRef, CapState>,
    affected: [CapRef; 3],
    change: I256,
    total_assets: U256,
) -> (r: Result<(), SimulationError>)
    ensures
        (final(recorded)@, r) == caps_charged_from(
            old(recorded)@,
            caps@,
            affected,
            change,
            total_assets,
            0,
        ),
{
    let mut i: usize = 0;
    while i < 3
        invariant
            i <= 3,
            caps_charged_from(old(recorded)@, caps@, affected, change, total_assets, 0)
                == caps_charged_from(
                recorded@,
                caps@,
                affected,
                change,
                total_assets,
                i as int,
            ),
        decreases 3 - i,
    {
        let after = charge_cap(recorded, caps, affected[i], change, total_assets)?;
        recorded.insert(affected[i], after);
        i = i + 1;
    }
    Ok(())
}

/// A supply into a direct position.
pub open spec fn direct_entry_action(
    state: SimulationView,
    snapshot: ExactVaultSnapshot,
    config: ValidatedVaultConfig,
    timestamp: u64,
    action: ActionView,
) -> (SimulationView, Result<ActionProjection, SimulationError>) {
    match entry_position(state, snapshot, config, action) {
        Err(error) => (state, Err(error)),
        Ok(position) => {
            let (fixed, total) = first_total_fixed(state, snapshot, timestamp);
            match total {
                Err(error) => (fixed, Err(error)),
                Ok(first_total_assets) => match direct_entry_transition(
                    fixed,
                    snapshot,
                    position,
                    action.requested,
                ) {
                    Err(error) => (fixed, Err(error)),
                    Ok((token, transition)) => {
                        let (recorded, caps) = caps_charged_from(
                            fixed.cap_ledger,
                            snapshot.caps@,
                            position.affected_caps,
                            transition.allocation_change,
                            first_total_assets,
                            0,
                        );
                        let charged = SimulationView { cap_ledger: recorded, ..fixed };
                        match caps {
                            Err(error) => (charged, Err(error)),
                            Ok(_) => {
                                let (paid, outcome) = supplied(charged, token, action.requested);
                                match outcome {
                                    Err(error) => (paid, Err(error)),
                                    Ok(_) => direct_settled(
                                        paid,
                                        action,
                                        position,
                                        transition,
                                        entry_loss(
                                            position.expected_assets,
                                            transition.expected_assets,
                                            action.requested,
                                        ),
                                    ),
                                }
                            },
                        }
                    },
                },
            }
        },
    }
}

fn simulate_direct_entry(
    state: &mut SimulationState,
    snapshot: &ExactVaultSnapshot,
    config: &ValidatedVaultConfig,
    timestamp: u64,
    action: &V2Action,
) -> (r: Result<ActionProjection, SimulationError>)
    ensures
        (final(state)@, r) == direct_entry_action(
            old(state)@,
            *snapshot,
            *config,
            timestamp,
            action@,
        ),
{
    let configured = find_configured(&config.positions, action.position()).ok_or(
        SimulationError::IncompleteState,
    )?;
    if configured.adapter != action.adapter() || !bytes_equal(
        action.data(),
        &encode_adapter_data(&configured.market_params),
    ) {
        return Err(SimulationError::InvalidAction);
    }
    let position = state.positions.get(action.position()).ok_or(SimulationError::IncompleteState)?;
    if position.mode != MarketMode::Active {
        return Err(SimulationError::PositionMode);
    }
    if !snapshot.adapters.contains_key(action.adapter()) {
        return Err(SimulationError::IncompleteState);
    }
    let first_total_assets = state.fix_first_total(snapshot, timestamp)?;
    let market = state.markets.get(position.market).ok_or(SimulationError::IncompleteState)?;
    let stored = snapshot.markets.get(position.market).ok_or(SimulationError::IncompleteState)?;
    let transition = math(
        allocate(
            &market,
            position.internal_shares,
            action.requested(),
            position.recorded_market_allocation,
            stored.fee,
            position.affected_caps,
        ),
    )?;
    charge_caps(
        &mut state.cap_ledger,
        &snapshot.caps,
        position.affected_caps,
        transition.allocation_change,
        first_total_assets,
    )?;
    state.supply(TokenAddress(stored.params.loan_token), action.requested())?;
    let loss = match position.expected_assets.checked_add(action.requested()) {
        Some(paid) => Some(paid.saturating_sub(transition.expected_assets)),
        None => None,
    };
    state.settle_direct(action, &position, &transition, loss)
}

/// One allocation: the state it leaves and its outcome.
pub open spec fn allocation_spec(
    state: SimulationView,
    snapshot: ExactVaultSnapshot,
    config: ValidatedVaultConfig,
    timestamp: u64,
    action: ActionView,
) -> (SimulationView, Result<ActionProjection, SimulationError>) {
    if action.kind != ActionKind::Allocate || action.requested@ == 0 {
        (state, Err(SimulationError::InvalidAction))
    } else {
        match unreserved_idle_spec(state) {
            Err(error) => (state, Err(error)),
            Ok(unreserved) => if action.requested@ > unreserved@ {
                (state, Err(SimulationError::InsufficientIdle))
            } else {
                match liquidity_target(config, action.position) {
                    Some(configured) => liquidity_entry_action(
                        state,
                        snapshot,
                        config,
                        timestamp,
                        configured,
                        action,
                    ),
                    None => direct_entry_action(state, snapshot, config, timestamp, action),
                }
            },
        }
    }
}

/// Applies one exact allocation, establishing the first parent total once and checking all caps.
///
/// A refused action leaves the changes made before the refusing step.
pub fn simulate_allocation(
    state: &mut SimulationState,
    snapshot: &ExactVaultSnapshot,
    config: &ValidatedVaultConfig,
    projection: &ProjectedVaultView,
    action: &V2Action,
) -> (r: Result<ActionProjection, SimulationError>)
    ensures
        (final(state)@, r) == allocation_spec(
            old(state)@,
            *snapshot,
            *config,
            projection.head.timestamp,
            action@,
        ),
{
    if action.kind() != ActionKind::Allocate || action.requested().is_zero() {
        return Err(SimulationError::InvalidAction);
    }
    let unreserved = state.unreserved_idle()?;
    if unreserved.lt(action.requested()) {
        return Err(SimulationError::InsufficientIdle);
    }
    if let Some(configured) = find_liquidity_target(config, action.position()) {
        return simulate_liquidity_entry(
            state,
            snapshot,
            config,
            projection.head.timestamp,
            &configured,
            action,
        );
    }
    simulate_direct_entry(state, snapshot, config, projection.head.timestamp, action)
}

/// One action of either direction: the state it leaves and its outcome.
pub open spec fn action_spec(
    state: SimulationView,
    snapshot: ExactVaultSnapshot,
    config: ValidatedVaultConfig,
    timestamp: u64,
    action: ActionView,
) -> (SimulationView, Result<ActionProjection, SimulationError>) {
    match action.kind {
        ActionKind::Deallocate => deallocation_spec(state, snapshot, config, action),
        ActionKind::Allocate => allocation_spec(state, snapshot, config, timestamp, action),
    }
}

/// Whether the action at `from` breaks the grammar: a withdrawal after a supply, or a second
/// action on one position.
pub open spec fn out_of_grammar(
    action: ActionView,
    allocating: bool,
    touched: Seq<PositionKey>,
) -> bool {
    (allocating && action.kind == ActionKind::Deallocate) || has_key(touched, action.position)
}

/// State after the actions from index `from` on.
pub open spec fn actions_from(
    state: SimulationView,
    snapshot: ExactVaultSnapshot,
    config: ValidatedVaultConfig,
    timestamp: u64,
    actions: Seq<ActionView>,
    from: int,
    allocating: bool,
    touched: Seq<PositionKey>,
) -> Result<SimulationView, SimulationError>
    decreases actions.len() - from,
{
    if from >= actions.len() {
        Ok(state)
    } else if out_of_grammar(actions[from], allocating, touched) {
        Err(SimulationError::InvalidAction)
    } else {
        let (next, outcome) = action_spec(state, snapshot, config, timestamp, actions[from]);
        match outcome {
            Err(error) => Err(error),
            Ok(_) => actions_from(
                next,
                snapshot,
                config,
                timestamp,
                actions,
                from + 1,
                allocating || actions[from].kind == ActionKind::Allocate,
                with_key(touched, actions[from].position),
            ),
        }
    }
}

/// State after a whole action sequence.
pub open spec fn simulation_spec(
    snapshot: ExactVaultSnapshot,
    projection: ProjectedVaultView,
    config: ValidatedVaultConfig,
    actions: Seq<ActionView>,
) -> Result<SimulationView, SimulationError> {
    match initial_state(snapshot, projection) {
        Err(error) => Err(error),
        Ok(state) => actions_from(
            state,
            snapshot,
            config,
            projection.head.timestamp,
            actions,
            0,
            false,
            Seq::empty(),
        ),
    }
}

/// Simulates the strict deallocation-first action grammar with duplicate rejection.
pub fn simulate_actions(
    snapshot: &ExactVaultSnapshot,
    projection: &ProjectedVaultView,
    config: &ValidatedVaultConfig,
    actions: &Vec<V2Action>,
) -> (r: Result<SimulationState, SimulationError>)
    ensures
        match simulation_spec(*snapshot, *projection, *config, actions_view(actions@)) {
            Ok(state) => r is Ok && r->Ok_0@ == state,
            Err(error) => r is Err && r->Err_0 == error,
        },
{
    let mut state = SimulationState::from_projection(snapshot, projection)?;
    let mut allocating = false;
    let mut touched: OrderedSet<PositionKey> = OrderedSet::new();
    let mut i: usize = 0;
    while i < actions.len()
        invariant
            i <= actions.len(),
            simulation_spec(*snapshot, *projection, *config, actions_view(actions@))
                == actions_from(
                state@,
                *snapshot,
                *config,
                projection.head.timestamp,
                actions_view(actions@),
                i as int,
                allocating,
                touched@,
            ),
        decreases actions.len() - i,
    {
        let action = &actions[i];
        match action.kind() {
            ActionKind::Deallocate => {
                if allocating {
                    return Err(SimulationError::InvalidAction);
                }
            },
            ActionKind::Allocate => {
                allocating = true;
            },
        }
        if !touched.insert(action.position()) {
            return Err(SimulationError::InvalidAction);
        }
        match action.kind() {
            ActionKind::Deallocate => {
                let _effect = simulate_deallocation(&mut state, snapshot, config, action)?;
            },
            ActionKind::Allocate => {
                let _effect = simulate_allocation(&mut state, snapshot, config, projection, action)?;
            },
        }
        i = i + 1;
    }
    Ok(state)
}

/// Parent idle gained or spent by one action.
pub open spec fn idle_change(action: ActionView) -> int {
    match action.kind {
        ActionKind::Deallocate => action.requested@ as int,
        ActionKind::Allocate => -(action.requested@ as int),
    }
}

/// Parent idle gained by the actions from index `from` on.
pub open spec fn idle_change_from(actions: Seq<ActionView>, from: int) -> int
    decreases actions.len() - from,
{
    if from >= actions.len() {
        0
    } else {
        idle_change(actions[from]) + idle_change_from(actions, from + 1)
    }
}

/// Sum of the positive losses of recorded effects.
pub open spec fn loss_total(effects: Seq<ActionProjection>) -> int
    decreases effects.len(),
{
    if effects.len() == 0 {
        0
    } else {
        loss_total(effects.drop_last()) + effects.last().positive_loss_assets@
    }
}

/// An accepted action is nonzero, moves exactly its assets between idle and the position, leaves
/// locks alone, spends no locked idle, and appends one effect whose loss joins the total.
pub proof fn accepted_action_moves_its_assets(
    state: SimulationView,
    snapshot: ExactVaultSnapshot,
    config: ValidatedVaultConfig,
    timestamp: u64,
    action: ActionView,
)
    requires
        action_spec(state, snapshot, config, timestamp, action).1 is Ok,
    ensures
        ({
            let (next, outcome) = action_spec(state, snapshot, config, timestamp, action);
            let effect = outcome->Ok_0;
            &&& action.requested@ != 0
            &&& next.vault_idle@ == state.vault_idle@ + idle_change(action)
            &&& next.locked_idle == state.locked_idle
            &&& action.kind == ActionKind::Allocate ==> next.vault_idle@ >= next.locked_idle@
            &&& next.actions == state.actions.push(effect)
            &&& effect.position == action.position
            &&& effect.requested_assets == action.requested
            &&& next.immediate_loss_assets@ == state.immediate_loss_assets@
                + effect.positive_loss_assets@
            &&& next.projection_timestamp == state.projection_timestamp
            &&& next.initial_position_assets == state.initial_position_assets
        }),
{
    broadcast use group_u256;

}

proof fn lemma_actions_from(
    state: SimulationView,
    snapshot: ExactVaultSnapshot,
    config: ValidatedVaultConfig,
    timestamp: u64,
    actions: Seq<ActionView>,
    from: int,
    allocating: bool,
    touched: Seq<PositionKey>,
)
    requires
        0 <= from <= actions.len(),
        strictly_increasing(touched),
        actions_from(state, snapshot, config, timestamp, actions, from, allocating, touched) is Ok,
        state.vault_idle@ >= state.locked_idle@,
        state.immediate_loss_assets@ == loss_total(state.actions),
    ensures
        ({
            let last = actions_from(
                state,
                snapshot,
                config,
                timestamp,
                actions,
                from,
                allocating,
                touched,
            )->Ok_0;
            &&& last.vault_idle@ == state.vault_idle@ + idle_change_from(actions, from)
            &&& last.locked_idle == state.locked_idle
            &&& last.vault_idle@ >= last.locked_idle@
            &&& last.immediate_loss_assets@ == loss_total(last.actions)
            &&& last.actions.len() == state.actions.len() + actions.len() - from
        }),
        forall|i: int|
            from <= i < actions.len() ==> (#[trigger] actions[i]).requested@ != 0
                && !touched.contains(actions[i].position) && (allocating ==> actions[i].kind
                == ActionKind::Allocate),
        forall|i: int, j: int|
            from <= i < j < actions.len() ==> (#[trigger] actions[i]).position
                != (#[trigger] actions[j]).position && (actions[i].kind == ActionKind::Allocate
                ==> actions[j].kind == ActionKind::Allocate),
    decreases actions.len() - from,
{
    if from < actions.len() {
        let action = actions[from];
        accepted_action_moves_its_assets(state, snapshot, config, timestamp, action);
        let (next, outcome) = action_spec(state, snapshot, config, timestamp, action);
        let seen = with_key(touched, action.position);
        has_key_is_membership(touched, action.position);
        with_key_is_insertion(touched, action.position);
        assert(next.actions.drop_last() =~= state.actions);
        lemma_actions_from(
            next,
            snapshot,
            config,
            timestamp,
            actions,
            from + 1,
            allocating || action.kind == ActionKind::Allocate,
            seen,
        );
        assert forall|key: PositionKey| seen.contains(key) == (touched.contains(key) || key
            == action.position) by {
            assert(seen.to_set().contains(key) == touched.to_set().insert(action.position).contains(
                key,
            ));
        }
    }
}

/// An accepted action sequence withdraws before it supplies, touches no position twice and holds
/// no zero action.
pub proof fn accepted_sequences_follow_the_grammar(
    snapshot: ExactVaultSnapshot,
    projection: ProjectedVaultView,
    config: ValidatedVaultConfig,
    actions: Seq<ActionView>,
)
    requires
        simulation_spec(snapshot, projection, config, actions) is Ok,
    ensures
        forall|i: int| 0 <= i < actions.len() ==> (#[trigger] actions[i]).requested@ != 0,
        forall|i: int, j: int|
            0 <= i < j < actions.len() ==> (#[trigger] actions[i]).position
                != (#[trigger] actions[j]).position && (actions[i].kind == ActionKind::Allocate
                ==> actions[j].kind == ActionKind::Allocate),
{
    broadcast use group_u256;

    lemma_actions_from(
        initial_state(snapshot, projection)->Ok_0,
        snapshot,
        config,
        projection.head.timestamp,
        actions,
        0,
        false,
        Seq::empty(),
    );
}

/// A simulated sequence conserves parent idle: what it leaves is the initial idle plus
/// withdrawals less supplies, and the verified locks stay covered. One effect stands for each
/// action, and the immediate loss is the sum of their losses.
pub proof fn simulation_conserves_idle_and_covers_locks(
    snapshot: ExactVaultSnapshot,
    projection: ProjectedVaultView,
    config: ValidatedVaultConfig,
    actions: Seq<ActionView>,
)
    requires
        simulation_spec(snapshot, projection, config, actions) is Ok,
    ensures
        ({
            let last = simulation_spec(snapshot, projection, config, actions)->Ok_0;
            &&& last.vault_idle@ == snapshot.parent.idle_assets@ + idle_change_from(actions, 0)
            &&& Some(last.locked_idle) == locks_sum_from(snapshot.idle_locks.locks@, 0, u256(0))
            &&& last.vault_idle@ >= last.locked_idle@
            &&& last.actions.len() == actions.len()
            &&& last.immediate_loss_assets@ == loss_total(last.actions)
        }),
{
    broadcast use group_u256;

    lemma_actions_from(
        initial_state(snapshot, projection)->Ok_0,
        snapshot,
        config,
        projection.head.timestamp,
        actions,
        0,
        false,
        Seq::empty(),
    );
}

} // verus!
