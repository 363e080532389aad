//! Strict verified-idle capital-deployment planning.

use vstd::prelude::*;

use crate::collections::{value_of, OrderedMap};
use crate::config::{
    SolverConfigCanonical, StrategyObjective, ValidatedPositionConfig, ValidatedVaultConfig,
};
use crate::domain::{
    actions_view, ActionKind, ActionView, CapRef, ExactVaultSnapshot, MarketId, MarketMode,
    PlanReason, PositionKey, ProjectedMarketState, ProjectedVaultView, V2Action,
};
use crate::morpho::blue_math::{mul_div_down, mul_div_down_spec, wad, WAD};
use crate::planner::candidates::{
    append_bytes, build_candidate_lattice, lattice_amounts, lattice_hash,
};
use crate::planner::certificate::{CertificateView, RejectionReason, SearchCertificate};
use crate::planner::distributions::{
    insert_row, row_total_from, rows_view, with_row, zero_row, zeros,
};
use crate::planner::moves::{
    baseline, baseline_spec, build_lattices, economic_delta, economic_delta_spec,
    endpoint_actions_from, endpoint_maximums, endpoint_total, endpoint_total_from,
    lattice_hashes_from, lattices_of, list_maximums, push_endpoint_actions, Endpoint,
};
use crate::planner::objective::{
    mode_measured, ranks_before, ranks_before_spec, rate_spread, spread_of,
    strategy_market_mode_included, strategy_value, strategy_value_spec, ObjectiveMetrics,
};
use crate::planner::simulator::{
    delta_applied, locked_assets, locks_sum_from, service_constraints_spec, simulate_actions,
    simulation_spec, unreserved_idle_spec, SimulationState, SimulationView,
};
use crate::primitives::{
    b256, big_endian, difference, group_b256, group_u256, keccak256, keccak256_digest, larger,
    saturating_difference, smaller, sum, u256, word_modulus, B256, I256, U256,
};

verus! {

/// Allocation a cap still admits at the projection; absent when its state is incomplete.
pub open spec fn cap_headroom_spec(
    snapshot: ExactVaultSnapshot,
    projection: ProjectedVaultView,
    reference: CapRef,
) -> Option<U256> {
    match value_of(snapshot.caps@, reference) {
        None => None,
        Some(cap) => if cap.absolute_cap@ == 0 || cap.relative_cap@ > WAD {
            Some(u256(0))
        } else {
            let caught_up = match value_of(projection.vault.cap_catch_up@, reference) {
                Some(delta) => delta_applied(cap.recorded_allocation, delta),
                None => delta_applied(cap.recorded_allocation, crate::primitives::i256(0)),
            };
            match caught_up {
                Err(_) => None,
                Ok(allocation) => if cap.relative_cap@ == WAD {
                    Some(saturating_difference(cap.absolute_cap, allocation))
                } else {
                    match mul_div_down_spec(
                        projection.vault.parent_total_assets,
                        cap.relative_cap,
                        u256(WAD as nat),
                    ) {
                        Err(_) => None,
                        Ok(relative) => Some(
                            saturating_difference(smaller(cap.absolute_cap, relative), allocation),
                        ),
                    }
                },
            }
        },
    }
}

/// Computes the allocation a cap still admits at the projection.
pub fn projected_cap_headroom(
    snapshot: &ExactVaultSnapshot,
    projection: &ProjectedVaultView,
    reference: CapRef,
) -> (r: Option<U256>)
    ensures
        r == cap_headroom_spec(*snapshot, *projection, reference),
{
    broadcast use group_u256;

    let cap = snapshot.caps.get(reference)?;
    if cap.absolute_cap.is_zero() || wad().lt(cap.relative_cap) {
        return Some(U256::zero());
    }
    let delta = match projection.vault.cap_catch_up.get(reference) {
        Some(delta) => delta,
        None => I256::zero(),
    };
    let allocation = match crate::planner::simulator::apply_delta(cap.recorded_allocation, delta) {
        Ok(value) => value,
        Err(_) => return None,
    };
    if cap.relative_cap.lt(wad()) {
        match mul_div_down(projection.vault.parent_total_assets, cap.relative_cap, wad()) {
            Ok(relative) => Some(cap.absolute_cap.min(relative).saturating_sub(allocation)),
            Err(_) => None,
        }
    } else {
        Some(cap.absolute_cap.saturating_sub(allocation))
    }
}

/// Smallest headroom of the affected caps from index `from` on and `headroom`.
pub open spec fn caps_headroom_from(
    snapshot: ExactVaultSnapshot,
    projection: ProjectedVaultView,
    affected: [CapRef; 3],
    from: int,
    headroom: U256,
) -> Option<U256>
    decreases 3 - from,
{
    if from >= 3 {
        Some(headroom)
    } else {
        match cap_headroom_spec(snapshot, projection, affected@[from]) {
            None => None,
            Some(next) => caps_headroom_from(
                snapshot,
                projection,
                affected,
                from + 1,
                smaller(headroom, next),
            ),
        }
    }
}

/// Allocation the caps of a position still admit at the projection.
pub open spec fn cap_limited_allocation_spec(
    snapshot: ExactVaultSnapshot,
    projection: ProjectedVaultView,
    position: PositionKey,
) -> Option<U256> {
    match value_of(snapshot.positions@, position) {
        None => None,
        Some(stored) => caps_headroom_from(
            snapshot,
            projection,
            stored.affected_caps,
            0,
            u256((word_modulus() - 1) as nat),
        ),
    }
}

/// Computes the allocation the caps of a position still admit at the projection.
pub fn cap_limited_allocation(
    snapshot: &ExactVaultSnapshot,
    projection: &ProjectedVaultView,
    position: PositionKey,
) -> (r: Option<U256>)
    ensures
        r == cap_limited_allocation_spec(*snapshot, *projection, position),
{
    let stored = snapshot.positions.get(position)?;
    let affected = stored.affected_caps;
    let mut headroom = U256::max_value();
    let mut i: usize = 0;
    while i < 3
        invariant
            i <= 3,
            caps_headroom_from(
                *snapshot,
                *projection,
                affected,
                0,
                u256((word_modulus() - 1) as nat),
            ) == caps_headroom_from(*snapshot, *projection, affected, i as int, headroom),
            cap_limited_allocation_spec(*snapshot, *projection, position) == caps_headroom_from(
                *snapshot,
                *projection,
                affected,
                0,
                u256((word_modulus() - 1) as nat),
            ),
        decreases 3 - i,
    {
        let next = projected_cap_headroom(snapshot, projection, affected[i])?;
        headroom = headroom.min(next);
        i = i + 1;
    }
    Some(headroom)
}

/// Headrooms of the affected caps from index `from` on, appended to `done`.
pub open spec fn cap_boundaries_from(
    snapshot: ExactVaultSnapshot,
    projection: ProjectedVaultView,
    affected: [CapRef; 3],
    from: int,
    done: Seq<U256>,
) -> Option<Seq<U256>>
    decreases 3 - from,
{
    if from >= 3 {
        Some(done)
    } else {
        match cap_headroom_spec(snapshot, projection, affected@[from]) {
            None => None,
            Some(headroom) => cap_boundaries_from(
                snapshot,
                projection,
                affected,
                from + 1,
                done.push(headroom),
            ),
        }
    }
}

/// Headroom of every cap a position is bound by.
pub open spec fn allocation_cap_boundaries_spec(
    snapshot: ExactVaultSnapshot,
    projection: ProjectedVaultView,
    position: PositionKey,
) -> Option<Seq<U256>> {
    match value_of(snapshot.positions@, position) {
        None => None,
        Some(stored) => cap_boundaries_from(
            snapshot,
            projection,
            stored.affected_caps,
            0,
            Seq::empty(),
        ),
    }
}

/// Lists the headroom of every cap a position is bound by.
pub fn allocation_cap_boundaries(
    snapshot: &ExactVaultSnapshot,
    projection: &ProjectedVaultView,
    position: PositionKey,
) -> (r: Option<Vec<U256>>)
    ensures
        match allocation_cap_boundaries_spec(*snapshot, *projection, position) {
            Some(boundaries) => r is Some && r->0@ == boundaries,
            None => r is None,
        },
{
    let stored = snapshot.positions.get(position)?;
    let affected = stored.affected_caps;
    let mut boundaries: Vec<U256> = Vec::new();
    let mut i: usize = 0;
    while i < 3
        invariant
            i <= 3,
            allocation_cap_boundaries_spec(*snapshot, *projection, position)
                == cap_boundaries_from(
                *snapshot,
                *projection,
                affected,
                i as int,
                boundaries@,
            ),
        decreases 3 - i,
    {
        let headroom = projected_cap_headroom(snapshot, projection, affected[i])?;
        boundaries.push(headroom);
        i = i + 1;
    }
    Some(boundaries)
}

/// Durable continuation state when an execution bound prevents full deployment.
#[derive(Clone, Copy, Debug, PartialEq, Eq, Structural)]
pub struct PendingDeployment {
    /// Verified idle asset units still awaiting deployment.
    pub remaining_assets: U256,
    /// Exact snapshot from which the partial deployment was authorized.
    pub origin_snapshot_hash: B256,
}

/// Best capital deployment and bounded-search evidence.
pub struct CapitalSolveResult {
    /// Best feasible single-transaction plan.
    pub actions: Vec<V2Action>,
    /// Exact post-action state when a plan exists.
    pub state: Option<SimulationState>,
    /// Continuation when rounding/execution bounds leave material idle.
    pub pending: Option<PendingDeployment>,
    /// Search evidence.
    pub certificate: SearchCertificate,
}

/// What a capital deployment holds.
pub ghost struct CapitalResultView {
    /// Actions.
    pub actions: Seq<ActionView>,
    /// State after the actions.
    pub state: Option<SimulationView>,
    /// Continuation.
    pub pending: Option<PendingDeployment>,
    /// Search evidence.
    pub certificate: CertificateView,
}

impl View for CapitalSolveResult {
    type V = CapitalResultView;

    open spec fn view(&self) -> CapitalResultView {
        CapitalResultView {
            actions: actions_view(self.actions@),
            state: match self.state {
                Some(state) => Some(state@),
                None => None,
            },
            pending: self.pending,
            certificate: self.certificate@,
        }
    }
}

/// A result without a plan.
pub open spec fn empty_capital_result(certificate: CertificateView) -> CapitalResultView {
    CapitalResultView { actions: Seq::empty(), state: None, pending: None, certificate }
}

/// Builds a result without a plan.
pub(crate) fn empty_result(certificate: SearchCertificate) -> (r: CapitalSolveResult)
    ensures
        r@ == empty_capital_result(certificate@),
{
    let actions: Vec<V2Action> = Vec::new();
    assert(actions_view(actions@) =~= Seq::<ActionView>::empty());
    CapitalSolveResult { actions, state: None, pending: None, certificate }
}

/// Rows with the second position absorbing what each amount of the first leaves, for the amounts
/// from index `from` on.
pub open spec fn pair_rows_from(
    maximums: Seq<U256>,
    amounts: Seq<U256>,
    total: U256,
    minimum_action: U256,
    first: int,
    second: int,
    from: int,
    rows: Seq<Seq<U256>>,
) -> Seq<Seq<U256>>
    decreases amounts.len() - from,
{
    if from >= amounts.len() {
        rows
    } else {
        let amount = amounts[from];
        let rest = saturating_difference(total, amount);
        let valid = amount@ != 0 && minimum_action@ <= amount@ <= maximums[first]@ && amount@
            < total@ && minimum_action@ <= rest@ <= maximums[second]@;
        pair_rows_from(
            maximums,
            amounts,
            total,
            minimum_action,
            first,
            second,
            from + 1,
            if valid {
                with_row(
                    rows,
                    zero_row(maximums.len()).update(first, amount).update(second, rest),
                )
            } else {
                rows
            },
        )
    }
}

/// Rows with every position from `second` on as the partner of `first`.
pub open spec fn partner_rows_from(
    maximums: Seq<U256>,
    lattices: Seq<Seq<U256>>,
    total: U256,
    minimum_action: U256,
    first: int,
    second: int,
    rows: Seq<Seq<U256>>,
) -> Seq<Seq<U256>>
    decreases maximums.len() - second,
{
    if second >= maximums.len() {
        rows
    } else {
        partner_rows_from(
            maximums,
            lattices,
            total,
            minimum_action,
            first,
            second + 1,
            if first == second || first >= lattices.len() {
                rows
            } else {
                pair_rows_from(
                    maximums,
                    lattices[first],
                    total,
                    minimum_action,
                    first,
                    second,
                    0,
                    rows,
                )
            },
        )
    }
}

/// Rows with every position from `first` on alone and in pairs.
pub open spec fn capital_rows_from(
    maximums: Seq<U256>,
    lattices: Seq<Seq<U256>>,
    total: U256,
    minimum_action: U256,
    first: int,
    rows: Seq<Seq<U256>>,
) -> Seq<Seq<U256>>
    decreases maximums.len() - first,
{
    if first >= maximums.len() {
        rows
    } else {
        let alone = if total@ <= maximums[first]@ {
            with_row(rows, zero_row(maximums.len()).update(first, total))
        } else {
            rows
        };
        capital_rows_from(
            maximums,
            lattices,
            total,
            minimum_action,
            first + 1,
            partner_rows_from(maximums, lattices, total, minimum_action, first, 0, alone),
        )
    }
}

/// One- and two-destination distributions of one deployment target, in lexicographic order.
pub open spec fn capital_distributions_spec(
    maximums: Seq<U256>,
    lattices: Seq<Seq<U256>>,
    total: U256,
    minimum_action: U256,
) -> Seq<Seq<U256>> {
    capital_rows_from(maximums, lattices, total, minimum_action, 0, Seq::empty())
}

fn pair_rows(
    maximums: &Vec<U256>,
    amounts: &Vec<U256>,
    total: U256,
    minimum_action: U256,
    first: usize,
    second: usize,
    rows: &mut Vec<Vec<U256>>,
)
    requires
        first < maximums.len(),
        second < maximums.len(),
    ensures
        rows_view(final(rows)@) == pair_rows_from(
            maximums@,
            amounts@,
            total,
            minimum_action,
            first as int,
            second as int,
            0,
            rows_view(old(rows)@),
        ),
{
    let ghost before = rows_view(rows@);
    let mut i: usize = 0;
    while i < amounts.len()
        invariant
            i <= amounts.len(),
            first < maximums.len(),
            second < maximums.len(),
            before == rows_view(old(rows)@),
            pair_rows_from(
                maximums@,
                amounts@,
                total,
                minimum_action,
                first as int,
                second as int,
                0,
                before,
            ) == pair_rows_from(
                maximums@,
                amounts@,
                total,
                minimum_action,
                first as int,
                second as int,
                i as int,
                rows_view(rows@),
            ),
        decreases amounts.len() - i,
    {
        let amount = amounts[i];
        let rest = total.saturating_sub(amount);
        if !amount.is_zero() && minimum_action.le(amount) && amount.le(maximums[first])
            && amount.lt(total) && minimum_action.le(rest) && rest.le(maximums[second]) {
            let mut row = zeros(maximums.len());
            row.set(first, amount);
            row.set(second, rest);
            insert_row(rows, row);
        }
        i = i + 1;
    }
}

/// Produces deterministic one- and two-destination distributions for one deployment target.
///
/// Capital deployment is intentionally polynomial in the number of markets. Any remaining
/// capital stays in the configured liquidity adapter and is handled on the next cycle; the
/// dedicated rebalance strategy then performs full multi-market equalization.
pub fn capital_distributions(
    maximums: &Vec<U256>,
    lattices: &Vec<Vec<U256>>,
    total: U256,
    minimum_action: U256,
) -> (r: Vec<Vec<U256>>)
    ensures
        rows_view(r@) == capital_distributions_spec(
            maximums@,
            rows_view(lattices@),
            total,
            minimum_action,
        ),
{
    let ghost views = rows_view(lattices@);
    let mut rows: Vec<Vec<U256>> = Vec::new();
    assert(rows_view(rows@) =~= Seq::<Seq<U256>>::empty());
    let mut first: usize = 0;
    while first < maximums.len()
        invariant
            first <= maximums.len(),
            views == rows_view(lattices@),
            capital_distributions_spec(maximums@, views, total, minimum_action)
                == capital_rows_from(
                maximums@,
                views,
                total,
                minimum_action,
                first as int,
                rows_view(rows@),
            ),
        decreases maximums.len() - first,
    {
        if total.le(maximums[first]) {
            let mut row = zeros(maximums.len());
            row.set(first, total);
            insert_row(&mut rows, row);
        }
        let ghost alone = rows_view(rows@);
        let ghost step = partner_rows_from(
            maximums@,
            views,
            total,
            minimum_action,
            first as int,
            0,
            alone,
        );
        let mut second: usize = 0;
        while second < maximums.len()
            invariant
                first < maximums.len(),
                second <= maximums.len(),
                views == rows_view(lattices@),
                step == partner_rows_from(
                    maximums@,
                    views,
                    total,
                    minimum_action,
                    first as int,
                    second as int,
                    rows_view(rows@),
                ),
            decreases maximums.len() - second,
        {
            if first != second && first < lattices.len() {
                pair_rows(
                    maximums,
                    &lattices[first],
                    total,
                    minimum_action,
                    first,
                    second,
                    &mut rows,
                );
            }
            second = second + 1;
        }
        first = first + 1;
    }
    rows
}

/// Idle the routine may deploy: nothing while locks are unverified; absent when locks exceed idle.
pub open spec fn deployable_idle(snapshot: ExactVaultSnapshot) -> Option<U256> {
    if !snapshot.idle_locks.verified {
        Some(u256(0))
    } else {
        match locks_sum_from(snapshot.idle_locks.locks@, 0, u256(0)) {
            None => None,
            Some(locked) => difference(snapshot.parent.idle_assets, locked),
        }
    }
}

/// Computes the idle the routine may deploy.
pub(crate) fn find_deployable_idle(snapshot: &ExactVaultSnapshot) -> (r: Option<U256>)
    ensures
        r == deployable_idle(*snapshot),
{
    if !snapshot.idle_locks.verified {
        return Some(U256::zero());
    }
    let locked = locked_assets(&snapshot.idle_locks.locks)?;
    snapshot.parent.idle_assets.checked_sub(locked)
}

/// Assets the liquidity-only adapter may release above the retained service floors; absent when
/// adapter state and configuration disagree about its presence.
pub open spec fn releasable_liquidity(
    snapshot: ExactVaultSnapshot,
    vault: ValidatedVaultConfig,
) -> Option<U256> {
    match (snapshot.liquidity_adapter, vault.liquidity_adapter) {
        (Some(state), Some(configured)) => Some(
            smaller(
                smaller(
                    saturating_difference(
                        state.real_assets,
                        larger(
                            vault.minimum_liquidity_adapter_assets,
                            vault.minimum_atomic_exit_coverage_assets,
                        ),
                    ),
                    state.max_withdraw,
                ),
                configured.maximum_action_assets,
            ),
        ),
        (None, None) => Some(u256(0)),
        _ => None,
    }
}

/// Computes the assets the liquidity-only adapter may release.
pub(crate) fn find_releasable_liquidity(
    snapshot: &ExactVaultSnapshot,
    vault: &ValidatedVaultConfig,
) -> (r: Option<U256>)
    ensures
        r == releasable_liquidity(*snapshot, *vault),
{
    match (snapshot.liquidity_adapter, vault.liquidity_adapter) {
        (Some(state), Some(configured)) => {
            let retained = vault.minimum_liquidity_adapter_assets.max(
                vault.minimum_atomic_exit_coverage_assets,
            );
            Some(
                state.real_assets.saturating_sub(retained).min(state.max_withdraw).min(
                    configured.maximum_action_assets,
                ),
            )
        },
        (None, None) => Some(U256::zero()),
        _ => None,
    }
}

/// Active destinations from index `from` on with nonzero headroom, appended to `done`; absent
/// when projected assets or cap state is missing.
pub open spec fn capital_endpoints_from(
    snapshot: ExactVaultSnapshot,
    projection: ProjectedVaultView,
    positions: Seq<ValidatedPositionConfig>,
    maximum: U256,
    from: int,
    done: Seq<Endpoint>,
) -> Option<Seq<Endpoint>>
    decreases positions.len() - from,
{
    if from >= positions.len() {
        Some(done)
    } else if positions[from].mode != MarketMode::Active {
        capital_endpoints_from(snapshot, projection, positions, maximum, from + 1, done)
    } else {
        let position = positions[from];
        match (
            value_of(projection.vault.position_expected_assets@, position.position_key),
            cap_limited_allocation_spec(snapshot, projection, position.position_key),
        ) {
            (Some(current), Some(capped)) => {
                let headroom = smaller(
                    smaller(
                        smaller(
                            maximum,
                            saturating_difference(position.maximum_position_assets, current),
                        ),
                        position.maximum_action_assets,
                    ),
                    capped,
                );
                capital_endpoints_from(
                    snapshot,
                    projection,
                    positions,
                    maximum,
                    from + 1,
                    if headroom@ == 0 {
                        done
                    } else {
                        done.push((position, headroom))
                    },
                )
            },
            _ => None,
        }
    }
}

fn capital_endpoints(
    snapshot: &ExactVaultSnapshot,
    projection: &ProjectedVaultView,
    positions: &Vec<ValidatedPositionConfig>,
    maximum: U256,
) -> (r: Option<Vec<Endpoint>>)
    ensures
        match capital_endpoints_from(
            *snapshot,
            *projection,
            positions@,
            maximum,
            0,
            Seq::empty(),
        ) {
            Some(endpoints) => r is Some && r->0@ == endpoints,
            None => r is None,
        },
{
    let mut endpoints: Vec<Endpoint> = Vec::new();
    let mut i: usize = 0;
    while i < positions.len()
        invariant
            i <= positions.len(),
            capital_endpoints_from(
                *snapshot,
                *projection,
                positions@,
                maximum,
                0,
                Seq::empty(),
            ) == capital_endpoints_from(
                *snapshot,
                *projection,
                positions@,
                maximum,
                i as int,
                endpoints@,
            ),
        decreases positions.len() - i,
    {
        let position = positions[i];
        if position.mode == MarketMode::Active {
            let current = projection.vault.position_expected_assets.get(position.position_key)?;
            let capped = cap_limited_allocation(snapshot, projection, position.position_key)?;
            let headroom = maximum.min(position.maximum_position_assets.saturating_sub(current)).min(
                position.maximum_action_assets,
            ).min(capped);
            if !headroom.is_zero() {
                endpoints.push((position, headroom));
            }
        }
        i = i + 1;
    }
    Some(endpoints)
}

/// Frozen inputs of one capital search.
pub ghost struct CapitalProblem {
    /// Exact snapshot.
    pub snapshot: ExactVaultSnapshot,
    /// Inclusion projection.
    pub projection: ProjectedVaultView,
    /// Vault policy.
    pub vault: ValidatedVaultConfig,
    /// Spread objective.
    pub objective: StrategyObjective,
    /// Benefit horizon timestamp.
    pub horizon: u64,
    /// No-plan value of the existing shares at the horizon.
    pub no_plan: U256,
    /// Deployable parent idle.
    pub idle: U256,
    /// Releasable liquidity-adapter assets.
    pub liquidity: U256,
    /// Destinations with nonzero headroom.
    pub destinations: Seq<Endpoint>,
    /// Amount lattice of every destination.
    pub lattices: Seq<Seq<U256>>,
}

/// A deployment found.
pub ghost struct DeploymentView {
    /// Actions.
    pub actions: Seq<ActionView>,
    /// State after the actions.
    pub state: SimulationView,
    /// Objective values.
    pub objective: ObjectiveMetrics,
}

/// Progress of one capital search.
pub ghost struct CapitalProgress {
    /// Search evidence.
    pub certificate: CertificateView,
    /// Best deployment so far.
    pub best: Option<DeploymentView>,
}

/// Actions that deploy a row: a liquidity withdrawal for what idle does not cover, then supplies;
/// absent when the withdrawal cannot be made.
pub open spec fn deployment_actions(
    problem: CapitalProblem,
    target: U256,
    row: Seq<U256>,
) -> Option<Seq<ActionView>> {
    let withdrawal = saturating_difference(target, problem.idle);
    if withdrawal@ == 0 {
        Some(
            endpoint_actions_from(
                problem.destinations,
                row,
                ActionKind::Allocate,
                0,
                Seq::empty(),
            ),
        )
    } else {
        match problem.vault.liquidity_adapter {
            None => None,
            Some(adapter) => if withdrawal@ > problem.liquidity@ {
                None
            } else {
                Some(
                    endpoint_actions_from(
                        problem.destinations,
                        row,
                        ActionKind::Allocate,
                        0,
                        seq![
                            ActionView {
                                kind: ActionKind::Deallocate,
                                position: adapter.position_key,
                                adapter: adapter.address,
                                data: Seq::empty(),
                                requested: withdrawal,
                            },
                        ],
                    ),
                )
            },
        }
    }
}

/// Strategy values of the measured positions from index `from` on, appended to `done`.
pub open spec fn measured_values_from(
    positions: Seq<ValidatedPositionConfig>,
    markets: Seq<(MarketId, ProjectedMarketState)>,
    objective: StrategyObjective,
    from: int,
    done: Seq<U256>,
) -> Option<Seq<U256>>
    decreases positions.len() - from,
{
    if from >= positions.len() {
        Some(done)
    } else if !mode_measured(positions[from].mode) {
        measured_values_from(positions, markets, objective, from + 1, done)
    } else {
        match value_of(markets, positions[from].market_id) {
            None => None,
            Some(market) => measured_values_from(
                positions,
                markets,
                objective,
                from + 1,
                done.push(strategy_value_spec(market, objective)),
            ),
        }
    }
}

/// Spread over the measured positions, absent when there is none or a state is missing.
pub open spec fn measured_spread_spec(
    positions: Seq<ValidatedPositionConfig>,
    markets: Seq<(MarketId, ProjectedMarketState)>,
    objective: StrategyObjective,
) -> Option<U256> {
    match measured_values_from(positions, markets, objective, 0, Seq::empty()) {
        None => None,
        Some(values) => if values.len() == 0 {
            None
        } else {
            Some(spread_of(values))
        },
    }
}

fn measured_spread(
    positions: &Vec<ValidatedPositionConfig>,
    markets: &OrderedMap<MarketId, ProjectedMarketState>,
    objective: StrategyObjective,
) -> (r: Option<U256>)
    ensures
        r == measured_spread_spec(positions@, markets@, objective),
{
    let mut values: Vec<U256> = Vec::new();
    let mut i: usize = 0;
    while i < positions.len()
        invariant
            i <= positions.len(),
            measured_values_from(positions@, markets@, objective, 0, Seq::empty())
                == measured_values_from(positions@, markets@, objective, i as int, values@),
        decreases positions.len() - i,
    {
        if strategy_market_mode_included(positions[i].mode) {
            let market = markets.get(positions[i].market_id)?;
            values.push(strategy_value(&market, objective));
        }
        i = i + 1;
    }
    if values.len() == 0 {
        None
    } else {
        Some(rate_spread(&values))
    }
}

/// A deployment of the given actions, or the reason it is rejected.
pub open spec fn deployment_assessment(
    problem: CapitalProblem,
    target: U256,
    actions: Seq<ActionView>,
) -> Result<DeploymentView, RejectionReason> {
    match simulation_spec(problem.snapshot, problem.projection, problem.vault, actions) {
        Err(_) => Err(RejectionReason::Simulation),
        Ok(state) => if service_constraints_spec(state, problem.snapshot, problem.vault) is Err {
            Err(RejectionReason::Service)
        } else {
            match economic_delta_spec(
                state,
                problem.snapshot,
                problem.projection,
                problem.vault,
                problem.horizon,
                problem.no_plan,
            ) {
                Err(reason) => Err(reason),
                Ok(delta) => match unreserved_idle_spec(state) {
                    Err(_) => Err(RejectionReason::Service),
                    Ok(idle) => match measured_spread_spec(
                        problem.vault.positions@,
                        state.markets,
                        problem.objective,
                    ) {
                        None => Err(RejectionReason::Simulation),
                        Some(spread) => Ok(
                            DeploymentView {
                                actions,
                                state,
                                objective: ObjectiveMetrics {
                                    final_unreserved_idle: idle,
                                    deployed_assets: target,
                                    applicable_spread: spread,
                                    secondary_spread: u256(0),
                                    terminal_value_delta: delta,
                                    movement_assets: target,
                                    action_count: actions.len() as usize,
                                },
                            },
                        ),
                    },
                },
            }
        },
    }
}

/// Whether a deployment replaces the best one so far.
pub open spec fn deployment_improves(
    best: Option<DeploymentView>,
    candidate: ObjectiveMetrics,
) -> bool {
    match best {
        None => true,
        Some(current) => ranks_before_spec(
            PlanReason::CapitalDeployment,
            candidate,
            current.objective,
            u256(0),
            false,
        ),
    }
}

/// Progress after one row that is executable in shape, and whether the best deployment changed.
pub open spec fn deployment_evaluated(
    problem: CapitalProblem,
    target: U256,
    actions: Seq<ActionView>,
    progress: CapitalProgress,
) -> (CapitalProgress, bool) {
    let counted = progress.certificate.counted();
    match deployment_assessment(problem, target, actions) {
        Err(reason) => (
            CapitalProgress { certificate: counted.rejected(reason), ..progress },
            false,
        ),
        Ok(candidate) => if deployment_improves(progress.best, candidate.objective) {
            (CapitalProgress { certificate: counted, best: Some(candidate) }, true)
        } else {
            (CapitalProgress { certificate: counted, ..progress }, false)
        },
    }
}

/// Whether an action list is neither empty nor longer than one action per position and one
/// liquidity withdrawal.
pub open spec fn deployment_shape(vault: ValidatedVaultConfig, actions: Seq<ActionView>) -> bool {
    0 < actions.len() <= vault.positions@.len() + 1
}

/// Progress over the rows of one target from index `from` on, whether the best deployment changed,
/// and whether the node limit stopped the search.
pub open spec fn deployment_rows_from(
    problem: CapitalProblem,
    target: U256,
    rows: Seq<Seq<U256>>,
    from: int,
    found: bool,
    progress: CapitalProgress,
) -> (CapitalProgress, bool, bool)
    decreases rows.len() - from,
{
    if from >= rows.len() {
        (progress, found, false)
    } else if progress.certificate.nodes_evaluated >= progress.certificate.node_limit {
        (
            CapitalProgress { certificate: progress.certificate.incomplete(), ..progress },
            found,
            true,
        )
    } else {
        match deployment_actions(problem, target, rows[from]) {
            None => deployment_rows_from(problem, target, rows, from + 1, found, progress),
            Some(actions) => if !deployment_shape(problem.vault, actions) {
                deployment_rows_from(problem, target, rows, from + 1, found, progress)
            } else {
                let (next, improved) = deployment_evaluated(problem, target, actions, progress);
                deployment_rows_from(problem, target, rows, from + 1, found || improved, next)
            },
        }
    }
}

/// Progress over the first `left` deployment targets, largest first, until one yields a plan.
pub open spec fn deployment_targets_down(
    problem: CapitalProblem,
    targets: Seq<U256>,
    left: int,
    progress: CapitalProgress,
) -> CapitalProgress
    decreases left,
{
    if left <= 0 || left > targets.len() {
        progress
    } else if targets[left - 1]@ < problem.vault.minimum_action_assets@ {
        deployment_targets_down(problem, targets, left - 1, progress)
    } else {
        let rows = capital_distributions_spec(
            endpoint_maximums(problem.destinations),
            problem.lattices,
            targets[left - 1],
            problem.vault.minimum_action_assets,
        );
        let (next, found, stopped) = deployment_rows_from(
            problem,
            targets[left - 1],
            rows,
            0,
            false,
            progress,
        );
        if stopped || found {
            next
        } else {
            deployment_targets_down(problem, targets, left - 1, next)
        }
    }
}

/// Frozen problem, deployment targets, lattice identity and available assets of one search; absent
/// when an input is incomplete.
pub open spec fn capital_setup(
    snapshot: ExactVaultSnapshot,
    projection: ProjectedVaultView,
    terminal: Option<&ProjectedVaultView>,
    vault: ValidatedVaultConfig,
    solver: SolverConfigCanonical,
    benefit_horizon_seconds: u64,
    objective: StrategyObjective,
) -> Option<(CapitalProblem, Seq<U256>, Seq<u8>, U256)> {
    let base = baseline_spec(
        snapshot,
        projection.head.timestamp,
        benefit_horizon_seconds,
        terminal,
    );
    match (deployable_idle(snapshot), releasable_liquidity(snapshot, vault), base) {
        (Some(idle), Some(liquidity), Some((horizon, no_plan))) => match sum(idle, liquidity) {
            None => None,
            Some(available) => match capital_endpoints_from(
                snapshot,
                projection,
                vault.positions@,
                available,
                0,
                Seq::empty(),
            ) {
                None => None,
                Some(destinations) => match endpoint_total_from(destinations, 0, u256(0)) {
                    None => None,
                    Some(total) => {
                        let limit = solver.maximum_amount_candidates_per_position;
                        let minimum = vault.minimum_action_assets;
                        let deployable = smaller(total, available);
                        let deposit_excess = saturating_difference(
                            projection.vault.max_executable_deposit_assets,
                            vault.minimum_deposit_headroom_assets,
                        );
                        let exit_excess = saturating_difference(
                            projection.vault.atomic_exit_coverage_assets,
                            vault.minimum_atomic_exit_coverage_assets,
                        );
                        let targets = lattice_amounts(
                            minimum,
                            deployable,
                            seq![
                                available,
                                available,
                                idle,
                                liquidity,
                                deposit_excess,
                                exit_excess,
                            ],
                            limit,
                        );
                        let lattices = lattices_of(
                            endpoint_maximums(destinations),
                            minimum,
                            seq![
                                deployable,
                                available,
                                idle,
                                liquidity,
                                deposit_excess,
                                exit_excess,
                            ],
                            limit,
                        );
                        Some(
                            (
                                CapitalProblem {
                                    snapshot,
                                    projection,
                                    vault,
                                    objective,
                                    horizon,
                                    no_plan,
                                    idle,
                                    liquidity,
                                    destinations,
                                    lattices,
                                },
                                targets,
                                lattice_hashes_from(
                                    lattices,
                                    0,
                                    big_endian(deployable@, 32) + big_endian(
                                        lattice_hash(targets)@,
                                        32,
                                    ),
                                ),
                                available,
                            ),
                        )
                    },
                },
            },
        },
        _ => None,
    }
}

/// Continuation for the assets a deployment leaves, when they exceed rounding dust.
pub open spec fn pending_spec(
    snapshot: ExactVaultSnapshot,
    vault: ValidatedVaultConfig,
    available: U256,
    deployed: U256,
) -> Option<PendingDeployment> {
    let remaining = saturating_difference(available, deployed);
    if remaining@ > vault.maximum_rounding_dust_assets@ {
        Some(
            PendingDeployment {
                remaining_assets: remaining,
                origin_snapshot_hash: snapshot.snapshot_hash,
            },
        )
    } else {
        None
    }
}

/// Continuation for the assets a deployment leaves.
pub(crate) fn pending_after(
    snapshot: &ExactVaultSnapshot,
    vault: &ValidatedVaultConfig,
    available: U256,
    deployed: U256,
) -> (r: Option<PendingDeployment>)
    ensures
        r == pending_spec(*snapshot, *vault, available, deployed),
{
    let remaining = available.saturating_sub(deployed);
    if vault.maximum_rounding_dust_assets.lt(remaining) {
        Some(
            PendingDeployment {
                remaining_assets: remaining,
                origin_snapshot_hash: snapshot.snapshot_hash,
            },
        )
    } else {
        None
    }
}

/// Maximal valid deployment into configured Active destinations.
pub open spec fn capital_solve_spec(
    snapshot: ExactVaultSnapshot,
    projection: ProjectedVaultView,
    terminal: Option<&ProjectedVaultView>,
    vault: ValidatedVaultConfig,
    solver: SolverConfigCanonical,
    benefit_horizon_seconds: u64,
    objective: StrategyObjective,
) -> CapitalResultView {
    let fresh = CertificateView::begun(solver.maximum_nodes);
    match capital_setup(
        snapshot,
        projection,
        terminal,
        vault,
        solver,
        benefit_horizon_seconds,
        objective,
    ) {
        None => empty_capital_result(fresh.incomplete()),
        Some((problem, targets, identity, available)) => {
            let searched = deployment_targets_down(
                problem,
                targets,
                targets.len() as int,
                CapitalProgress { certificate: fresh, best: None },
            );
            let certificate = searched.certificate.over_lattice(
                b256(keccak256_digest(identity)),
            );
            match searched.best {
                Some(best) => CapitalResultView {
                    actions: best.actions,
                    state: Some(best.state),
                    pending: pending_spec(
                        snapshot,
                        vault,
                        available,
                        best.objective.deployed_assets,
                    ),
                    certificate,
                },
                None => CapitalResultView {
                    actions: Seq::empty(),
                    state: None,
                    pending: pending_spec(snapshot, vault, available, u256(0)),
                    certificate,
                },
            }
        },
    }
}

struct Deployment {
    actions: Vec<V2Action>,
    state: SimulationState,
    objective: ObjectiveMetrics,
}

impl View for Deployment {
    type V = DeploymentView;

    closed spec fn view(&self) -> DeploymentView {
        DeploymentView {
            actions: actions_view(self.actions@),
            state: self.state@,
            objective: self.objective,
        }
    }
}

spec fn best_view(best: Option<Deployment>) -> Option<DeploymentView> {
    match best {
        Some(deployment) => Some(deployment@),
        None => None,
    }
}

struct CapitalSearch<'a> {
    snapshot: &'a ExactVaultSnapshot,
    projection: &'a ProjectedVaultView,
    vault: &'a ValidatedVaultConfig,
    objective: StrategyObjective,
    horizon: u64,
    no_plan: U256,
    idle: U256,
    liquidity: U256,
    destinations: Vec<Endpoint>,
    maximums: Vec<U256>,
    lattices: Vec<Vec<U256>>,
}

impl<'a> CapitalSearch<'a> {
    spec fn problem(&self) -> CapitalProblem {
        CapitalProblem {
            snapshot: *self.snapshot,
            projection: *self.projection,
            vault: *self.vault,
            objective: self.objective,
            horizon: self.horizon,
            no_plan: self.no_plan,
            idle: self.idle,
            liquidity: self.liquidity,
            destinations: self.destinations@,
            lattices: rows_view(self.lattices@),
        }
    }

    fn actions_for(&self, target: U256, row: &Vec<U256>) -> (r: Option<Vec<V2Action>>)
        ensures
            match deployment_actions(self.problem(), target, row@) {
                Some(actions) => r is Some && actions_view(r->0@) == actions,
                None => r is None,
            },
    {
        let mut actions: Vec<V2Action> = Vec::new();
        assert(actions_view(actions@) =~= Seq::<ActionView>::empty());
        let withdrawal = target.saturating_sub(self.idle);
        if !withdrawal.is_zero() {
            let adapter = self.vault.liquidity_adapter?;
            if self.liquidity.lt(withdrawal) {
                return None;
            }
            let data: Vec<u8> = Vec::new();
            assert(data@ =~= Seq::<u8>::empty());
            actions.push(
                V2Action::build(
                    ActionKind::Deallocate,
                    adapter.position_key,
                    adapter.address,
                    data,
                    withdrawal,
                ),
            );
            assert(actions_view(actions@) =~= seq![
                ActionView {
                    kind: ActionKind::Deallocate,
                    position: adapter.position_key,
                    adapter: adapter.address,
                    data: Seq::empty(),
                    requested: withdrawal,
                },
            ]);
        }
        push_endpoint_actions(&self.destinations, row, ActionKind::Allocate, &mut actions);
        Some(actions)
    }

    fn assess(&self, target: U256, actions: Vec<V2Action>) -> (r: Result<
        Deployment,
        RejectionReason,
    >)
        ensures
            match deployment_assessment(self.problem(), target, actions_view(actions@)) {
                Ok(deployment) => r is Ok && r->Ok_0@ == deployment,
                Err(reason) => r is Err && r->Err_0 == reason,
            },
    {
        assert(actions_view(actions@).len() == actions.len());
        let state = match simulate_actions(self.snapshot, self.projection, self.vault, &actions) {
            Ok(state) => state,
            Err(_) => return Err(RejectionReason::Simulation),
        };
        match state.validate_service_constraints(self.snapshot, self.vault) {
            Ok(_) => {},
            Err(_) => return Err(RejectionReason::Service),
        }
        let terminal_value_delta = economic_delta(
            &state,
            self.snapshot,
            self.projection,
            self.vault,
            self.horizon,
            self.no_plan,
        )?;
        let final_unreserved_idle = match state.unreserved_idle() {
            Ok(value) => value,
            Err(_) => return Err(RejectionReason::Service),
        };
        let applicable_spread = measured_spread(
            &self.vault.positions,
            &state.markets,
            self.objective,
        ).ok_or(RejectionReason::Simulation)?;
        let objective = ObjectiveMetrics {
            final_unreserved_idle,
            deployed_assets: target,
            applicable_spread,
            secondary_spread: U256::zero(),
            terminal_value_delta,
            movement_assets: target,
            action_count: actions.len(),
        };
        Ok(Deployment { actions, state, objective })
    }

    fn search_rows(
        &self,
        target: U256,
        rows: &Vec<Vec<U256>>,
        certificate: &mut SearchCertificate,
        best: &mut Option<Deployment>,
    ) -> (r: (bool, bool))
        ensures
            (
                CapitalProgress { certificate: final(certificate)@, best: best_view(*final(best)) },
                r.0,
                r.1,
            ) == deployment_rows_from(
                self.problem(),
                target,
                rows_view(rows@),
                0,
                false,
                CapitalProgress { certificate: old(certificate)@, best: best_view(*old(best)) },
            ),
    {
        let ghost problem = self.problem();
        let ghost views = rows_view(rows@);
        let ghost goal = deployment_rows_from(
            problem,
            target,
            views,
            0,
            false,
            CapitalProgress { certificate: certificate@, best: best_view(*best) },
        );
        let mut found = false;
        let mut i: usize = 0;
        while i < rows.len()
            invariant
                i <= rows.len(),
                problem == self.problem(),
                views == rows_view(rows@),
                goal == deployment_rows_from(
                    self.problem(),
                    target,
                    rows_view(rows@),
                    0,
                    false,
                    CapitalProgress { certificate: old(certificate)@, best: best_view(*old(best)) },
                ),
                goal == deployment_rows_from(
                    problem,
                    target,
                    views,
                    i as int,
                    found,
                    CapitalProgress { certificate: certificate@, best: best_view(*best) },
                ),
            decreases rows.len() - i,
        {
            if certificate.nodes_evaluated >= certificate.node_limit {
                certificate.search_complete = false;
                return (found, true);
            }
            assert(views[i as int] == rows@[i as int]@);
            if let Some(actions) = self.actions_for(target, &rows[i]) {
                assert(actions_view(actions@).len() == actions.len());
                if actions.len() > 0 && actions.len() - 1 <= self.vault.positions.len() {
                    certificate.nodes_evaluated = certificate.nodes_evaluated + 1;
                    match self.assess(target, actions) {
                        Ok(candidate) => {
                            let improves = match &*best {
                                None => true,
                                Some(current) => ranks_before(
                                    PlanReason::CapitalDeployment,
                                    &candidate.objective,
                                    &current.objective,
                                    U256::zero(),
                                    false,
                                ),
                            };
                            if improves {
                                found = true;
                                *best = Some(candidate);
                            }
                        },
                        Err(reason) => {
                            let _counted = certificate.reject(reason);
                        },
                    }
                }
            }
            i = i + 1;
        }
        (found, false)
    }

    fn search_targets(
        &self,
        targets: &Vec<U256>,
        certificate: &mut SearchCertificate,
        best: &mut Option<Deployment>,
    )
        requires
            self.maximums@ == endpoint_maximums(self.destinations@),
        ensures
            (CapitalProgress { certificate: final(certificate)@, best: best_view(*final(best)) })
                == deployment_targets_down(
                self.problem(),
                targets@,
                targets.len() as int,
                CapitalProgress { certificate: old(certificate)@, best: best_view(*old(best)) },
            ),
    {
        let ghost goal = deployment_targets_down(
            self.problem(),
            targets@,
            targets.len() as int,
            CapitalProgress { certificate: certificate@, best: best_view(*best) },
        );
        let mut left: usize = targets.len();
        while left > 0
            invariant
                left <= targets.len(),
                self.maximums@ == endpoint_maximums(self.destinations@),
                goal == deployment_targets_down(
                    self.problem(),
                    targets@,
                    targets.len() as int,
                    CapitalProgress { certificate: old(certificate)@, best: best_view(*old(best)) },
                ),
                goal == deployment_targets_down(
                    self.problem(),
                    targets@,
                    left as int,
                    CapitalProgress { certificate: certificate@, best: best_view(*best) },
                ),
            decreases left,
        {
            let target = targets[left - 1];
            if self.vault.minimum_action_assets.le(target) {
                let rows = capital_distributions(
                    &self.maximums,
                    &self.lattices,
                    target,
                    self.vault.minimum_action_assets,
                );
                let (found, stopped) = self.search_rows(target, &rows, certificate, best);
                if stopped || found {
                    return;
                }
            }
            left = left - 1;
        }
    }
}

fn prepare<'a>(
    snapshot: &'a ExactVaultSnapshot,
    projection: &'a ProjectedVaultView,
    terminal: Option<&ProjectedVaultView>,
    vault: &'a ValidatedVaultConfig,
    solver: &SolverConfigCanonical,
    benefit_horizon_seconds: u64,
    objective: StrategyObjective,
) -> (r: Option<(CapitalSearch<'a>, Vec<U256>, Vec<u8>, U256)>)
    ensures
        match capital_setup(
            *snapshot,
            *projection,
            terminal,
            *vault,
            *solver,
            benefit_horizon_seconds,
            objective,
        ) {
            Some((problem, targets, identity, available)) => r is Some && (r->0).0.problem()
                == problem && (r->0).0.maximums@ == endpoint_maximums((r->0).0.destinations@) && (
            r->0).1@ == targets && (r->0).2@ == identity && (r->0).3 == available,
            None => r is None,
        },
{
    let idle = find_deployable_idle(snapshot)?;
    let liquidity = find_releasable_liquidity(snapshot, vault)?;
    let (horizon, no_plan) = baseline(
        snapshot,
        projection.head.timestamp,
        benefit_horizon_seconds,
        terminal,
    )?;
    let available = idle.checked_add(liquidity)?;
    let destinations = capital_endpoints(snapshot, projection, &vault.positions, available)?;
    let total = endpoint_total(&destinations)?;
    let deployable = total.min(available);
    let deposit_excess = projection.vault.max_executable_deposit_assets.saturating_sub(
        vault.minimum_deposit_headroom_assets,
    );
    let exit_excess = projection.vault.atomic_exit_coverage_assets.saturating_sub(
        vault.minimum_atomic_exit_coverage_assets,
    );
    let limit: usize = solver.maximum_amount_candidates_per_position;
    let target_boundaries: Vec<U256> = vec![
        available,
        available,
        idle,
        liquidity,
        deposit_excess,
        exit_excess,
    ];
    assert(target_boundaries@ =~= seq![
        available,
        available,
        idle,
        liquidity,
        deposit_excess,
        exit_excess,
    ]);
    let deployment = build_candidate_lattice(
        vault.minimum_action_assets,
        deployable,
        &target_boundaries,
        limit,
    );
    let mut identity: Vec<u8> = deployable.to_be_bytes();
    append_bytes(&mut identity, &deployment.hash.to_bytes());
    let maximums = list_maximums(&destinations);
    let boundaries: Vec<U256> = vec![
        deployable,
        available,
        idle,
        liquidity,
        deposit_excess,
        exit_excess,
    ];
    assert(boundaries@ =~= seq![
        deployable,
        available,
        idle,
        liquidity,
        deposit_excess,
        exit_excess,
    ]);
    let lattices = build_lattices(
        &maximums,
        vault.minimum_action_assets,
        &boundaries,
        limit,
        &mut identity,
    );
    Some(
        (
            CapitalSearch {
                snapshot,
                projection,
                vault,
                objective,
                horizon,
                no_plan,
                idle,
                liquidity,
                destinations,
                maximums,
                lattices,
            },
            deployment.amounts,
            identity,
            available,
        ),
    )
}

/// Searches maximal valid deployment into configured Active destinations.
///
/// `terminal` is the snapshot projected to exactly the benefit horizon without any action; without
/// one the search is incomplete.
pub fn solve_capital_deployment(
    snapshot: &ExactVaultSnapshot,
    projection: &ProjectedVaultView,
    terminal: Option<&ProjectedVaultView>,
    vault: &ValidatedVaultConfig,
    solver: &SolverConfigCanonical,
    benefit_horizon_seconds: u64,
    strategy_objective: StrategyObjective,
) -> (r: CapitalSolveResult)
    ensures
        r@ == capital_solve_spec(
            *snapshot,
            *projection,
            terminal,
            *vault,
            *solver,
            benefit_horizon_seconds,
            strategy_objective,
        ),
{
    broadcast use group_b256;

    let mut certificate = SearchCertificate::begin(solver.maximum_nodes);
    let (search, targets, identity, available) = match prepare(
        snapshot,
        projection,
        terminal,
        vault,
        solver,
        benefit_horizon_seconds,
        strategy_objective,
    ) {
        Some(prepared) => prepared,
        None => {
            certificate.search_complete = false;
            return empty_result(certificate);
        },
    };
    let mut best: Option<Deployment> = None;
    search.search_targets(&targets, &mut certificate, &mut best);
    certificate.candidate_lattice_hash = keccak256(identity.as_slice());
    match best {
        Some(deployment) => {
            let pending = pending_after(
                snapshot,
                vault,
                available,
                deployment.objective.deployed_assets,
            );
            CapitalSolveResult {
                actions: deployment.actions,
                state: Some(deployment.state),
                pending,
                certificate,
            }
        },
        None => {
            let actions: Vec<V2Action> = Vec::new();
            assert(actions_view(actions@) =~= Seq::<ActionView>::empty());
            CapitalSolveResult {
                actions,
                state: None,
                pending: pending_after(snapshot, vault, available, U256::zero()),
                certificate,
            }
        },
    }
}

/// Whether a row deploys exactly the total into at most two positions within their maximums.
pub open spec fn deploys_pairwise(row: Seq<U256>, maximums: Seq<U256>, total: U256) -> bool {
    &&& row.len() == maximums.len()
    &&& row_total_from(row, 0) == total@
    &&& forall|i: int| 0 <= i < row.len() ==> (#[trigger] row[i])@ <= maximums[i]@
    &&& exists|first: int, second: int|
        0 <= first < row.len() && 0 <= second < row.len() && at_most_two(row, first, second)
}

/// Whether every amount outside two positions is zero.
pub open spec fn at_most_two(row: Seq<U256>, first: int, second: int) -> bool {
    forall|i: int| 0 <= i < row.len() && i != first && i != second ==> (#[trigger] row[i])@ == 0
}

spec fn all_pairwise(rows: Seq<Seq<U256>>, maximums: Seq<U256>, total: U256) -> bool {
    forall|i: int| 0 <= i < rows.len() ==> deploys_pairwise(#[trigger] rows[i], maximums, total)
}

proof fn lemma_with_row_pairwise(
    rows: Seq<Seq<U256>>,
    row: Seq<U256>,
    maximums: Seq<U256>,
    total: U256,
)
    requires
        all_pairwise(rows, maximums, total),
        deploys_pairwise(row, maximums, total),
    ensures
        all_pairwise(with_row(rows, row), maximums, total),
{
    let at = crate::planner::distributions::row_bound_from(rows, row, 0);
    crate::planner::distributions::lemma_row_bound(rows, row, 0);
    let next = with_row(rows, row);
    if next != rows {
        assert forall|i: int| 0 <= i < next.len() implies deploys_pairwise(
            #[trigger] next[i],
            maximums,
            total,
        ) by {
            if i > at {
                assert(next[i] == rows[i - 1]);
            }
        }
    }
}

proof fn lemma_pair_rows(
    maximums: Seq<U256>,
    amounts: Seq<U256>,
    total: U256,
    minimum_action: U256,
    first: int,
    second: int,
    from: int,
    rows: Seq<Seq<U256>>,
)
    requires
        0 <= first < maximums.len(),
        0 <= second < maximums.len(),
        first != second,
        0 <= from <= amounts.len(),
        all_pairwise(rows, maximums, total),
    ensures
        all_pairwise(
            pair_rows_from(
                maximums,
                amounts,
                total,
                minimum_action,
                first,
                second,
                from,
                rows,
            ),
            maximums,
            total,
        ),
    decreases amounts.len() - from,
{
    broadcast use group_u256;

    if from < amounts.len() {
        let amount = amounts[from];
        let rest = saturating_difference(total, amount);
        let zero = zero_row(maximums.len());
        let one = zero.update(first, amount);
        let row = one.update(second, rest);
        crate::planner::distributions::lemma_zero_row_total(maximums.len(), 0);
        crate::planner::distributions::lemma_row_total_update(zero, first, amount, 0);
        crate::planner::distributions::lemma_row_total_update(one, second, rest, 0);
        let valid = amount@ != 0 && minimum_action@ <= amount@ <= maximums[first]@ && amount@
            < total@ && minimum_action@ <= rest@ <= maximums[second]@;
        if valid {
            assert(at_most_two(row, first, second));
            assert(deploys_pairwise(row, maximums, total));
            lemma_with_row_pairwise(rows, row, maximums, total);
            lemma_pair_rows(
                maximums,
                amounts,
                total,
                minimum_action,
                first,
                second,
                from + 1,
                with_row(rows, row),
            );
        } else {
            lemma_pair_rows(
                maximums,
                amounts,
                total,
                minimum_action,
                first,
                second,
                from + 1,
                rows,
            );
        }
    }
}

proof fn lemma_partner_rows(
    maximums: Seq<U256>,
    lattices: Seq<Seq<U256>>,
    total: U256,
    minimum_action: U256,
    first: int,
    second: int,
    rows: Seq<Seq<U256>>,
)
    requires
        0 <= first < maximums.len(),
        0 <= second <= maximums.len(),
        all_pairwise(rows, maximums, total),
    ensures
        all_pairwise(
            partner_rows_from(maximums, lattices, total, minimum_action, first, second, rows),
            maximums,
            total,
        ),
    decreases maximums.len() - second,
{
    if second < maximums.len() {
        if first == second || first >= lattices.len() {
            lemma_partner_rows(
                maximums,
                lattices,
                total,
                minimum_action,
                first,
                second + 1,
                rows,
            );
        } else {
            lemma_pair_rows(
                maximums,
                lattices[first],
                total,
                minimum_action,
                first,
                second,
                0,
                rows,
            );
            lemma_partner_rows(
                maximums,
                lattices,
                total,
                minimum_action,
                first,
                second + 1,
                pair_rows_from(
                    maximums,
                    lattices[first],
                    total,
                    minimum_action,
                    first,
                    second,
                    0,
                    rows,
                ),
            );
        }
    }
}

proof fn lemma_capital_rows(
    maximums: Seq<U256>,
    lattices: Seq<Seq<U256>>,
    total: U256,
    minimum_action: U256,
    first: int,
    rows: Seq<Seq<U256>>,
)
    requires
        0 <= first <= maximums.len(),
        all_pairwise(rows, maximums, total),
    ensures
        all_pairwise(
            capital_rows_from(maximums, lattices, total, minimum_action, first, rows),
            maximums,
            total,
        ),
    decreases maximums.len() - first,
{
    broadcast use group_u256;

    if first < maximums.len() {
        let zero = zero_row(maximums.len());
        let row = zero.update(first, total);
        let alone = if total@ <= maximums[first]@ {
            with_row(rows, row)
        } else {
            rows
        };
        if total@ <= maximums[first]@ {
            crate::planner::distributions::lemma_zero_row_total(maximums.len(), 0);
            crate::planner::distributions::lemma_row_total_update(zero, first, total, 0);
            assert(at_most_two(row, first, first));
            assert(deploys_pairwise(row, maximums, total));
            lemma_with_row_pairwise(rows, row, maximums, total);
        }
        lemma_partner_rows(maximums, lattices, total, minimum_action, first, 0, alone);
        lemma_capital_rows(
            maximums,
            lattices,
            total,
            minimum_action,
            first + 1,
            partner_rows_from(maximums, lattices, total, minimum_action, first, 0, alone),
        );
    }
}

/// Every capital distribution deploys exactly the target into at most two destinations within
/// their maximums.
pub proof fn capital_distributions_are_conservative_and_pairwise(
    maximums: Seq<U256>,
    lattices: Seq<Seq<U256>>,
    total: U256,
    minimum_action: U256,
)
    ensures
        forall|i: int|
            0 <= i < capital_distributions_spec(maximums, lattices, total, minimum_action).len()
                ==> deploys_pairwise(
                #[trigger] capital_distributions_spec(maximums, lattices, total, minimum_action)[i],
                maximums,
                total,
            ),
{
    lemma_capital_rows(maximums, lattices, total, minimum_action, 0, Seq::empty());
}

/// Whether a deployment passed every hard gate of its problem.
pub open spec fn deployment_feasible(problem: CapitalProblem, deployment: DeploymentView) -> bool {
    &&& simulation_spec(problem.snapshot, problem.projection, problem.vault, deployment.actions)
        == Ok::<SimulationView, crate::planner::simulator::SimulationError>(deployment.state)
    &&& service_constraints_spec(deployment.state, problem.snapshot, problem.vault) is Ok
    &&& deployment.state.immediate_loss_assets@
        <= problem.vault.maximum_immediate_rebalance_loss_assets@
}

spec fn capital_progress_sound(problem: CapitalProblem, progress: CapitalProgress) -> bool {
    &&& progress.certificate.nodes_evaluated <= progress.certificate.node_limit
    &&& progress.best is Some ==> deployment_feasible(problem, progress.best->0)
}

proof fn lemma_deployment_rows(
    problem: CapitalProblem,
    target: U256,
    rows: Seq<Seq<U256>>,
    from: int,
    found: bool,
    progress: CapitalProgress,
)
    requires
        0 <= from <= rows.len(),
        capital_progress_sound(problem, progress),
    ensures
        ({
            let (next, _, stopped) = deployment_rows_from(
                problem,
                target,
                rows,
                from,
                found,
                progress,
            );
            &&& capital_progress_sound(problem, next)
            &&& next.certificate.node_limit == progress.certificate.node_limit
            &&& stopped ==> !next.certificate.search_complete
        }),
    decreases rows.len() - from,
{
    if from < rows.len() && progress.certificate.nodes_evaluated
        < progress.certificate.node_limit {
        match deployment_actions(problem, target, rows[from]) {
            None => {
                lemma_deployment_rows(problem, target, rows, from + 1, found, progress);
            },
            Some(actions) => {
                if !deployment_shape(problem.vault, actions) {
                    lemma_deployment_rows(problem, target, rows, from + 1, found, progress);
                } else {
                    let (next, improved) = deployment_evaluated(
                        problem,
                        target,
                        actions,
                        progress,
                    );
                    lemma_deployment_rows(
                        problem,
                        target,
                        rows,
                        from + 1,
                        found || improved,
                        next,
                    );
                }
            },
        }
    }
}

proof fn lemma_deployment_targets(
    problem: CapitalProblem,
    targets: Seq<U256>,
    left: int,
    progress: CapitalProgress,
)
    requires
        0 <= left <= targets.len(),
        capital_progress_sound(problem, progress),
    ensures
        ({
            let next = deployment_targets_down(problem, targets, left, progress);
            capital_progress_sound(problem, next) && next.certificate.node_limit
                == progress.certificate.node_limit
        }),
    decreases left,
{
    if left > 0 {
        if targets[left - 1]@ < problem.vault.minimum_action_assets@ {
            lemma_deployment_targets(problem, targets, left - 1, progress);
        } else {
            let rows = capital_distributions_spec(
                endpoint_maximums(problem.destinations),
                problem.lattices,
                targets[left - 1],
                problem.vault.minimum_action_assets,
            );
            lemma_deployment_rows(problem, targets[left - 1], rows, 0, false, progress);
            let (next, found, stopped) = deployment_rows_from(
                problem,
                targets[left - 1],
                rows,
                0,
                false,
                progress,
            );
            if !stopped && !found {
                lemma_deployment_targets(problem, targets, left - 1, next);
            }
        }
    }
}

/// A capital search evaluates at most the configured nodes, and a plan it returns simulates to the
/// returned state, meets every service floor and stays within the immediate-loss bound. Incomplete
/// inputs yield no plan and an incomplete certificate.
pub proof fn capital_search_is_bounded_and_feasible(
    snapshot: ExactVaultSnapshot,
    projection: ProjectedVaultView,
    terminal: Option<&ProjectedVaultView>,
    vault: ValidatedVaultConfig,
    solver: SolverConfigCanonical,
    benefit_horizon_seconds: u64,
    objective: StrategyObjective,
)
    ensures
        ({
            let result = capital_solve_spec(
                snapshot,
                projection,
                terminal,
                vault,
                solver,
                benefit_horizon_seconds,
                objective,
            );
            let setup = capital_setup(
                snapshot,
                projection,
                terminal,
                vault,
                solver,
                benefit_horizon_seconds,
                objective,
            );
            &&& result.certificate.nodes_evaluated <= solver.maximum_nodes
            &&& setup is None ==> !result.certificate.search_complete && result.actions.len() == 0
            &&& result.state is Some ==> simulation_spec(
                snapshot,
                projection,
                vault,
                result.actions,
            ) == Ok::<SimulationView, crate::planner::simulator::SimulationError>(result.state->0)
            &&& result.state is Some ==> service_constraints_spec(
                result.state->0,
                snapshot,
                vault,
            ) is Ok
            &&& result.state is Some ==> result.state->0.immediate_loss_assets@
                <= vault.maximum_immediate_rebalance_loss_assets@
            &&& result.state is None ==> result.actions.len() == 0
        }),
{
    if let Some((problem, targets, _, _)) = capital_setup(
        snapshot,
        projection,
        terminal,
        vault,
        solver,
        benefit_horizon_seconds,
        objective,
    ) {
        lemma_deployment_targets(
            problem,
            targets,
            targets.len() as int,
            CapitalProgress {
                certificate: CertificateView::begun(solver.maximum_nodes),
                best: None,
            },
        );
    }
}

} // verus!
