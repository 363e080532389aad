//! What a capital deployment promises, stated on the plan it returns.

use vstd::prelude::*;

use crate::collections::value_of;
use crate::config::{
    SolverConfigCanonical, StrategyObjective, ValidatedPositionConfig, ValidatedVaultConfig,
};
use crate::domain::{
    ActionKind, ActionView, CapRef, ExactVaultSnapshot, MarketId, MarketMode, PlanReason,
    PositionKey, ProjectedMarketState, ProjectedVaultView,
};
use crate::morpho::blue_math::mul_div_down_spec;
use crate::morpho::laws::{division_rounds_down, is_floor, one_wad};
use crate::planner::candidates::lattice_keeps_exact_boundaries;
use crate::planner::capital::{
    cap_headroom_spec, cap_limited_allocation_spec,
    capital_distributions_are_conservative_and_pairwise, capital_distributions_spec,
    capital_endpoints_from, capital_setup, capital_solve_spec, caps_headroom_from, deployable_idle,
    deployment_actions, deployment_assessment, deployment_evaluated, deployment_rows_from,
    deployment_targets_down, measured_spread_spec, measured_values_from, releasable_liquidity,
    CapitalProblem, CapitalProgress, DeploymentView,
};
use crate::planner::certificate::CertificateView;
use crate::planner::distributions::row_total_from;
use crate::planner::moves::{
    acts_at, amounts_sum, economic_gates_bound_loss_and_sacrifice, endpoint_actions_from,
    endpoint_actions_request_the_amounts, endpoint_maximums, endpoint_total_from, requested_sum,
    Endpoint,
};
use crate::planner::objective::{
    compared_value, deployments_leave_least_idle, mode_measured, ranking_is_a_strict_order,
    ranks_before_spec, spread_is_the_largest_distance, spread_of, strategy_value_spec,
    ObjectiveMetrics,
};
use crate::planner::simulation_laws::{lemma_locked_sum, locked_sum};
use crate::planner::simulator::{
    service_constraints_spec, simulation_spec, terminal_assets_spec, SimulationError,
    SimulationView,
};
use crate::primitives::{
    group_i256, group_u256, saturating_difference, smaller, u256, word_modulus, U256,
};

verus! {

/// Whether a market counts in a spread: the position is neither disabled nor awaiting
/// synchronization.
pub open spec fn is_measured(position: ValidatedPositionConfig) -> bool {
    position.mode != MarketMode::Disabled && position.mode != MarketMode::SyncRequired
}

/// Whether `spread` is the largest distance, in what the strategy compares, of any two positions
/// that count.
pub open spec fn is_measured_spread(
    positions: Seq<ValidatedPositionConfig>,
    markets: Seq<(MarketId, ProjectedMarketState)>,
    by_rate: bool,
    spread: int,
) -> bool {
    &&& forall|i: int|
        0 <= i < positions.len() && is_measured(#[trigger] positions[i]) ==> value_of(
            markets,
            positions[i].market_id,
        ) is Some
    &&& forall|i: int, j: int|
        0 <= i < positions.len() && 0 <= j < positions.len() && is_measured(
            #[trigger] positions[i],
        ) && is_measured(#[trigger] positions[j]) ==> compared_value(
            value_of(markets, positions[i].market_id)->Some_0,
            by_rate,
        ) - compared_value(value_of(markets, positions[j].market_id)->Some_0, by_rate) <= spread
    &&& exists|i: int, j: int|
        0 <= i < positions.len() && 0 <= j < positions.len() && is_measured(
            #[trigger] positions[i],
        ) && is_measured(#[trigger] positions[j]) && compared_value(
            value_of(markets, positions[i].market_id)->Some_0,
            by_rate,
        ) - compared_value(value_of(markets, positions[j].market_id)->Some_0, by_rate) == spread
}

proof fn lemma_values_extend(
    positions: Seq<ValidatedPositionConfig>,
    markets: Seq<(MarketId, ProjectedMarketState)>,
    objective: StrategyObjective,
    from: int,
    done: Seq<U256>,
)
    requires
        measured_values_from(positions, markets, objective, from, done) is Some,
    ensures
        done.len() <= measured_values_from(positions, markets, objective, from, done)->Some_0.len(),
        forall|k: int|
            0 <= k < done.len() ==> #[trigger] measured_values_from(
                positions,
                markets,
                objective,
                from,
                done,
            )->Some_0[k] == done[k],
    decreases positions.len() - from,
{
    if from < positions.len() {
        if mode_measured(positions[from].mode) {
            let market = value_of(markets, positions[from].market_id)->Some_0;
            let next = done.push(strategy_value_spec(market, objective));
            lemma_values_extend(positions, markets, objective, from + 1, next);
            assert forall|k: int| 0 <= k < done.len() implies #[trigger] measured_values_from(
                positions,
                markets,
                objective,
                from,
                done,
            )->Some_0[k] == done[k] by {
                assert(next[k] == done[k]);
            }
        } else {
            lemma_values_extend(positions, markets, objective, from + 1, done);
        }
    }
}

proof fn lemma_position_value(
    positions: Seq<ValidatedPositionConfig>,
    markets: Seq<(MarketId, ProjectedMarketState)>,
    objective: StrategyObjective,
    from: int,
    done: Seq<U256>,
    i: int,
) -> (k: int)
    requires
        0 <= from <= i < positions.len(),
        is_measured(positions[i]),
        measured_values_from(positions, markets, objective, from, done) is Some,
    ensures
        value_of(markets, positions[i].market_id) is Some,
        0 <= k < measured_values_from(positions, markets, objective, from, done)->Some_0.len(),
        measured_values_from(positions, markets, objective, from, done)->Some_0[k]@
            == compared_value(
            value_of(markets, positions[i].market_id)->Some_0,
            objective == StrategyObjective::SpotBorrowRateSpread,
        ),
    decreases positions.len() - from,
{
    if from == i {
        let market = value_of(markets, positions[from].market_id)->Some_0;
        let next = done.push(strategy_value_spec(market, objective));
        lemma_values_extend(positions, markets, objective, from + 1, next);
        assert(next[done.len() as int] == strategy_value_spec(market, objective));
        done.len() as int
    } else if mode_measured(positions[from].mode) {
        let market = value_of(markets, positions[from].market_id)->Some_0;
        let next = done.push(strategy_value_spec(market, objective));
        lemma_position_value(positions, markets, objective, from + 1, next, i)
    } else {
        lemma_position_value(positions, markets, objective, from + 1, done, i)
    }
}

proof fn lemma_value_position(
    positions: Seq<ValidatedPositionConfig>,
    markets: Seq<(MarketId, ProjectedMarketState)>,
    objective: StrategyObjective,
    from: int,
    done: Seq<U256>,
    k: int,
) -> (i: int)
    requires
        0 <= from <= positions.len(),
        measured_values_from(positions, markets, objective, from, done) is Some,
        done.len() <= k < measured_values_from(
            positions,
            markets,
            objective,
            from,
            done,
        )->Some_0.len(),
    ensures
        0 <= i < positions.len(),
        is_measured(positions[i]),
        measured_values_from(positions, markets, objective, from, done)->Some_0[k]@
            == compared_value(
            value_of(markets, positions[i].market_id)->Some_0,
            objective == StrategyObjective::SpotBorrowRateSpread,
        ),
    decreases positions.len() - from,
{
    if mode_measured(positions[from].mode) {
        let market = value_of(markets, positions[from].market_id)->Some_0;
        let next = done.push(strategy_value_spec(market, objective));
        if k == done.len() {
            lemma_values_extend(positions, markets, objective, from + 1, next);
            assert(next[k] == strategy_value_spec(market, objective));
            from
        } else {
            lemma_value_position(positions, markets, objective, from + 1, next, k)
        }
    } else {
        lemma_value_position(positions, markets, objective, from + 1, done, k)
    }
}

/// The spread of a portfolio is the largest distance of any two of its positions that are neither
/// disabled nor awaiting synchronization, and needs the state of each of them.
pub proof fn measured_spread_is_the_largest_distance(
    positions: Seq<ValidatedPositionConfig>,
    markets: Seq<(MarketId, ProjectedMarketState)>,
    objective: StrategyObjective,
)
    requires
        measured_spread_spec(positions, markets, objective) is Some,
    ensures
        is_measured_spread(
            positions,
            markets,
            objective == StrategyObjective::SpotBorrowRateSpread,
            measured_spread_spec(positions, markets, objective)->Some_0@ as int,
        ),
{
    let by_rate = objective == StrategyObjective::SpotBorrowRateSpread;
    let none = Seq::<U256>::empty();
    let values = measured_values_from(positions, markets, objective, 0, none)->Some_0;
    let spread = measured_spread_spec(positions, markets, objective)->Some_0@ as int;
    spread_is_the_largest_distance(values);
    assert forall|i: int|
        0 <= i < positions.len() && is_measured(#[trigger] positions[i]) implies value_of(
        markets,
        positions[i].market_id,
    ) is Some by {
        let k = lemma_position_value(positions, markets, objective, 0, none, i);
    }
    assert forall|i: int, j: int|
        0 <= i < positions.len() && 0 <= j < positions.len() && is_measured(
            #[trigger] positions[i],
        ) && is_measured(#[trigger] positions[j]) implies compared_value(
        value_of(markets, positions[i].market_id)->Some_0,
        by_rate,
    ) - compared_value(value_of(markets, positions[j].market_id)->Some_0, by_rate) <= spread by {
        let k = lemma_position_value(positions, markets, objective, 0, none, i);
        let l = lemma_position_value(positions, markets, objective, 0, none, j);
        assert(values[k]@ - values[l]@ <= spread_of(values)@);
    }
    let (k, l) = choose|k: int, l: int|
        0 <= k < values.len() && 0 <= l < values.len() && (#[trigger] values[k])@ - (
        #[trigger] values[l])@ == spread_of(values)@;
    let i = lemma_value_position(positions, markets, objective, 0, none, k);
    let j = lemma_value_position(positions, markets, objective, 0, none, l);
    assert(is_measured(positions[i]) && is_measured(positions[j]));
}

/// An assessed deployment is one that simulates, meets every service floor and keeps the economic
/// gates. It is measured by the unlocked idle it leaves, the target it deploys, the spread of the
/// portfolio afterwards, and the terminal value it gains.
pub proof fn deployments_are_measured_by_what_they_leave(
    problem: CapitalProblem,
    target: U256,
    actions: Seq<ActionView>,
)
    requires
        deployment_assessment(problem, target, actions) is Ok,
    ensures
        ({
            let plan = deployment_assessment(problem, target, actions)->Ok_0;
            let worth = terminal_assets_spec(
                plan.state,
                problem.snapshot,
                problem.projection,
                problem.horizon,
            );
            &&& plan.actions == actions
            &&& simulation_spec(problem.snapshot, problem.projection, problem.vault, actions)
                == Ok::<SimulationView, SimulationError>(plan.state)
            &&& service_constraints_spec(plan.state, problem.snapshot, problem.vault) is Ok
            &&& plan.state.immediate_loss_assets@
                <= problem.vault.maximum_immediate_rebalance_loss_assets@
            &&& worth is Ok
            &&& worth->Ok_0@ + problem.vault.maximum_terminal_value_sacrifice_assets@
                >= problem.no_plan@
            &&& plan.objective.terminal_value_delta@ == worth->Ok_0@ - problem.no_plan@
            &&& plan.objective.final_unreserved_idle@ == plan.state.vault_idle@
                - plan.state.locked_idle@
            &&& plan.objective.deployed_assets == target
            &&& plan.objective.movement_assets == target
            &&& actions.len() <= usize::MAX ==> plan.objective.action_count == actions.len()
            &&& plan.objective.secondary_spread@ == 0
            &&& is_measured_spread(
                problem.vault.positions@,
                plan.state.markets,
                problem.objective == StrategyObjective::SpotBorrowRateSpread,
                plan.objective.applicable_spread@ as int,
            )
        }),
{
    broadcast use group_u256, group_i256;

    let plan = deployment_assessment(problem, target, actions)->Ok_0;
    economic_gates_bound_loss_and_sacrifice(
        plan.state,
        problem.snapshot,
        problem.projection,
        problem.vault,
        problem.horizon,
        problem.no_plan,
    );
    measured_spread_is_the_largest_distance(
        problem.vault.positions@,
        plan.state.markets,
        problem.objective,
    );
}

/// The deployment of one row, where it can be made and passes every gate.
#[verifier::opaque]
pub open spec fn row_candidate(
    problem: CapitalProblem,
    target: U256,
    row: Seq<U256>,
) -> Option<DeploymentView> {
    match deployment_actions(problem, target, row) {
        None => None,
        Some(actions) => if 0 < actions.len() <= problem.vault.positions@.len() + 1 {
            match deployment_assessment(problem, target, actions) {
                Ok(plan) => Some(plan),
                Err(_) => None,
            }
        } else {
            None
        },
    }
}

#[verifier::opaque]
spec fn ahead(candidate: ObjectiveMetrics, current: ObjectiveMetrics) -> bool {
    ranks_before_spec(PlanReason::CapitalDeployment, candidate, current, u256(0), false)
}

proof fn lemma_ahead(a: ObjectiveMetrics, b: ObjectiveMetrics, c: ObjectiveMetrics)
    ensures
        !ahead(a, a),
        ahead(a, b) && ahead(b, c) ==> ahead(a, c),
{
    reveal(ahead);
    ranking_is_a_strict_order(PlanReason::CapitalDeployment, a, b, c, u256(0), false);
}

/// The better of the best plan so far and a new one, which only a strictly better one displaces.
spec fn better(
    best: Option<DeploymentView>,
    candidate: Option<DeploymentView>,
) -> Option<DeploymentView> {
    if candidate is Some && (best is None || ahead(
        candidate->Some_0.objective,
        best->Some_0.objective,
    )) {
        candidate
    } else {
        best
    }
}

#[verifier::opaque]
spec fn rows_searched(
    problem: CapitalProblem,
    target: U256,
    rows: Seq<Seq<U256>>,
    from: int,
    found: bool,
    progress: CapitalProgress,
) -> (CapitalProgress, bool, bool) {
    deployment_rows_from(problem, target, rows, from, found, progress)
}

proof fn lemma_row_step(
    problem: CapitalProblem,
    target: U256,
    rows: Seq<Seq<U256>>,
    from: int,
    found: bool,
    progress: CapitalProgress,
) -> (r: (CapitalProgress, bool))
    requires
        0 <= from < rows.len(),
        progress.certificate.nodes_evaluated < progress.certificate.node_limit,
    ensures
        rows_searched(problem, target, rows, from, found, progress) == rows_searched(
            problem,
            target,
            rows,
            from + 1,
            found || r.1,
            r.0,
        ),
        r.0.best == better(progress.best, row_candidate(problem, target, rows[from])),
        r.1 == (r.0.best is Some && (progress.best is None || ahead(
            r.0.best->Some_0.objective,
            progress.best->Some_0.objective,
        ))),
        r.1 ==> r.0.best == row_candidate(problem, target, rows[from]),
        r.0.certificate.search_complete ==> progress.certificate.search_complete,
{
    reveal(ahead);
    reveal(row_candidate);
    reveal(rows_searched);
    if progress.best is Some {
        lemma_ahead(
            progress.best->Some_0.objective,
            progress.best->Some_0.objective,
            progress.best->Some_0.objective,
        );
    }
    match deployment_actions(problem, target, rows[from]) {
        None => (progress, false),
        Some(actions) => if !(0 < actions.len() <= problem.vault.positions@.len() + 1) {
            (progress, false)
        } else {
            deployment_evaluated(problem, target, actions, progress)
        },
    }
}

/// Whether no plan of the rows from `from` up to `count` ranks ahead of `best`.
spec fn best_of_rows(
    problem: CapitalProblem,
    target: U256,
    rows: Seq<Seq<U256>>,
    from: int,
    count: int,
    best: Option<DeploymentView>,
) -> bool {
    forall|r: int|
        from <= r < count && (#[trigger] row_candidate(problem, target, rows[r])) is Some
            ==> best is Some && !ahead(
            row_candidate(problem, target, rows[r])->Some_0.objective,
            best->Some_0.objective,
        )
}

/// Runs through the rows: the number of the first row left out, and the row the best plan stems
/// from, if any.
proof fn lemma_rows_optimal(
    problem: CapitalProblem,
    target: U256,
    rows: Seq<Seq<U256>>,
    from: int,
    found: bool,
    progress: CapitalProgress,
) -> (r: (int, int))
    requires
        0 <= from <= rows.len(),
    ensures
        from <= r.0 <= rows.len(),
        ({
            let (next, hit, stopped) = rows_searched(
                problem,
                target,
                rows,
                from,
                found,
                progress,
            );
            &&& !stopped ==> r.0 == rows.len()
            &&& next.certificate.search_complete ==> !stopped
                && progress.certificate.search_complete
            &&& best_of_rows(problem, target, rows, from, r.0, next.best)
            &&& r.1 >= 0 && progress.best is Some ==> ahead(
                next.best->Some_0.objective,
                progress.best->Some_0.objective,
            )
            &&& r.1 < 0 ==> next.best == progress.best && hit == found
            &&& r.1 >= 0 ==> from <= r.1 < r.0 && hit && next.best is Some && row_candidate(
                problem,
                target,
                rows[r.1],
            ) == next.best
        }),
    decreases rows.len() - from,
{
    if progress.best is Some {
        lemma_ahead(
            progress.best->Some_0.objective,
            progress.best->Some_0.objective,
            progress.best->Some_0.objective,
        );
    }
    if from >= rows.len() || progress.certificate.nodes_evaluated
        >= progress.certificate.node_limit {
        reveal(rows_searched);
        (from, -1)
    } else {
        let here = row_candidate(problem, target, rows[from]);
        let (step, improved) = lemma_row_step(problem, target, rows, from, found, progress);
        let (count, at) = lemma_rows_optimal(
            problem,
            target,
            rows,
            from + 1,
            found || improved,
            step,
        );
        let next = rows_searched(problem, target, rows, from, found, progress).0;
        if here is Some {
            lemma_ahead(
                here->Some_0.objective,
                next.best->Some_0.objective,
                step.best->Some_0.objective,
            );
            if progress.best is Some {
                lemma_ahead(
                    next.best->Some_0.objective,
                    step.best->Some_0.objective,
                    progress.best->Some_0.objective,
                );
            }
        }
        (count, if at < 0 && improved { from } else { at })
    }
}

/// Distributions searched for one deployment target.
pub open spec fn target_rows(problem: CapitalProblem, target: U256) -> Seq<Seq<U256>> {
    capital_distributions_spec(
        endpoint_maximums(problem.destinations),
        problem.lattices,
        target,
        problem.vault.minimum_action_assets,
    )
}

/// Whether no distribution of the target gives a plan that passes every gate.
pub open spec fn nothing_deployable(problem: CapitalProblem, target: U256) -> bool {
    forall|r: int|
        0 <= r < target_rows(problem, target).len() ==> (#[trigger] row_candidate(
            problem,
            target,
            target_rows(problem, target)[r],
        )) is None
}

/// Where a plan was found: the target, the number of its rows searched, and the row.
proof fn lemma_targets_optimal(
    problem: CapitalProblem,
    targets: Seq<U256>,
    left: int,
    progress: CapitalProgress,
) -> (w: (int, int, int))
    requires
        0 <= left <= targets.len(),
        progress.best is None,
    ensures
        ({
            let next = deployment_targets_down(problem, targets, left, progress);
            let rows = target_rows(problem, targets[w.0]);
            &&& next.certificate.search_complete ==> progress.certificate.search_complete
            &&& next.best is Some ==> {
                &&& 0 <= w.0 < left
                &&& targets[w.0]@ >= problem.vault.minimum_action_assets@
                &&& 0 <= w.2 < w.1 <= rows.len()
                &&& row_candidate(problem, targets[w.0], rows[w.2]) == next.best
                &&& best_of_rows(problem, targets[w.0], rows, 0, w.1, next.best)
                &&& next.certificate.search_complete ==> w.1 == rows.len()
                &&& forall|u: int|
                    w.0 < u < left && (#[trigger] targets[u])@
                        >= problem.vault.minimum_action_assets@ ==> nothing_deployable(
                        problem,
                        targets[u],
                    )
            }
            &&& next.best is None && next.certificate.search_complete ==> forall|u: int|
                0 <= u < left && (#[trigger] targets[u])@ >= problem.vault.minimum_action_assets@
                    ==> nothing_deployable(problem, targets[u])
        }),
    decreases left,
{
    if left <= 0 {
        (0, 0, 0)
    } else if targets[left - 1]@ < problem.vault.minimum_action_assets@ {
        lemma_targets_optimal(problem, targets, left - 1, progress)
    } else {
        let target = targets[left - 1];
        let rows = target_rows(problem, target);
        let (count, at) = lemma_rows_optimal(problem, target, rows, 0, false, progress);
        let (next, found, stopped) = rows_searched(problem, target, rows, 0, false, progress);
        assert(deployment_rows_from(problem, target, rows, 0, false, progress) == (
            next,
            found,
            stopped,
        )) by {
            reveal(rows_searched);
        }
        if stopped || found {
            (left - 1, count, at)
        } else {
            assert(next.best is None);
            assert(nothing_deployable(problem, target)) by {
                assert forall|r: int| 0 <= r < rows.len() implies (#[trigger] row_candidate(
                    problem,
                    target,
                    rows[r],
                )) is None by {}
            }
            lemma_targets_optimal(problem, targets, left - 1, next)
        }
    }
}

/// Unlocked idle of a simulated state.
pub open spec fn idle_left(state: SimulationView) -> int {
    state.vault_idle@ - state.locked_idle@
}

/// A deployment is optimal among the distributions searched of its target: none that passes every
/// gate leaves less idle; of those that leave as much, none has a smaller spread, and of those with
/// the same spread none gains more terminal value or, gaining as much, needs fewer actions. No
/// larger target had a distribution that passes, and a complete search without a plan means that
/// none has.
pub proof fn deployments_are_optimal(
    snapshot: ExactVaultSnapshot,
    projection: ProjectedVaultView,
    terminal: Option<&ProjectedVaultView>,
    vault: ValidatedVaultConfig,
    solver: SolverConfigCanonical,
    benefit_horizon_seconds: u64,
    objective: StrategyObjective,
) -> (w: (int, int, int))
    requires
        capital_setup(
            snapshot,
            projection,
            terminal,
            vault,
            solver,
            benefit_horizon_seconds,
            objective,
        ) is Some,
    ensures
        ({
            let (problem, targets, _, available) = capital_setup(
                snapshot,
                projection,
                terminal,
                vault,
                solver,
                benefit_horizon_seconds,
                objective,
            )->Some_0;
            let result = capital_solve_spec(
                snapshot,
                projection,
                terminal,
                vault,
                solver,
                benefit_horizon_seconds,
                objective,
            );
            let target = targets[w.0];
            let rows = target_rows(problem, target);
            let chosen = row_candidate(problem, target, rows[w.2]);
            let best = chosen->Some_0;
            let dust = vault.maximum_rounding_dust_assets@;
            &&& result.state is Some ==> {
                &&& 0 <= w.0 < targets.len()
                &&& 0 <= w.2 < w.1 <= rows.len()
                &&& target@ >= vault.minimum_action_assets@
                &&& chosen is Some
                &&& result.actions == best.actions
                &&& result.state == Some(best.state)
                &&& result.certificate.search_complete ==> w.1 == rows.len()
                &&& forall|r: int|
                    0 <= r < w.1 && (#[trigger] row_candidate(problem, target, rows[r])) is Some
                        ==> {
                        let other = row_candidate(problem, target, rows[r])->Some_0;
                        let idle = idle_left(other.state) == idle_left(best.state);
                        let spread = idle && other.objective.applicable_spread@
                            == best.objective.applicable_spread@;
                        let worth = spread && other.objective.terminal_value_delta@
                            == best.objective.terminal_value_delta@;
                        &&& idle_left(other.state) >= idle_left(best.state)
                        &&& idle ==> other.objective.applicable_spread@
                            >= best.objective.applicable_spread@
                        &&& spread ==> other.objective.terminal_value_delta@
                            <= best.objective.terminal_value_delta@
                        &&& worth ==> other.objective.action_count >= best.objective.action_count
                    }
                &&& forall|u: int|
                    w.0 < u < targets.len() && (#[trigger] targets[u])@
                        >= vault.minimum_action_assets@ ==> nothing_deployable(problem, targets[u])
                &&& result.pending is Some <==> available@ > target@ + dust
                &&& result.pending is Some ==> result.pending->Some_0.remaining_assets@
                    == available@ - target@
            }
            &&& result.state is None ==> {
                &&& result.pending is Some <==> available@ > dust
                &&& result.pending is Some ==> result.pending->Some_0.remaining_assets@
                    == available@
                &&& result.certificate.search_complete ==> forall|u: int|
                    0 <= u < targets.len() && (#[trigger] targets[u])@
                        >= vault.minimum_action_assets@ ==> nothing_deployable(problem, targets[u])
            }
            &&& result.pending is Some ==> result.pending->Some_0.origin_snapshot_hash
                == snapshot.snapshot_hash
        }),
{
    broadcast use group_u256;

    let (problem, targets, _, available) = capital_setup(
        snapshot,
        projection,
        terminal,
        vault,
        solver,
        benefit_horizon_seconds,
        objective,
    )->Some_0;
    let begun = CapitalProgress {
        certificate: CertificateView::begun(solver.maximum_nodes),
        best: None,
    };
    let searched = deployment_targets_down(problem, targets, targets.len() as int, begun);
    let w = lemma_targets_optimal(problem, targets, targets.len() as int, begun);
    if searched.best is Some {
        let target = targets[w.0];
        let rows = target_rows(problem, target);
        let best = row_candidate(problem, target, rows[w.2])->Some_0;
        lemma_candidate_measured(problem, target, rows[w.2]);
        assert forall|r: int|
            0 <= r < w.1 && (#[trigger] row_candidate(problem, target, rows[r])) is Some implies ({
            let other = row_candidate(problem, target, rows[r])->Some_0;
            let idle = idle_left(other.state) == idle_left(best.state);
            let spread = idle && other.objective.applicable_spread@
                == best.objective.applicable_spread@;
            let worth = spread && other.objective.terminal_value_delta@
                == best.objective.terminal_value_delta@;
            &&& idle_left(other.state) >= idle_left(best.state)
            &&& idle ==> other.objective.applicable_spread@ >= best.objective.applicable_spread@
            &&& spread ==> other.objective.terminal_value_delta@
                <= best.objective.terminal_value_delta@
            &&& worth ==> other.objective.action_count >= best.objective.action_count
        }) by {
            let other = row_candidate(problem, target, rows[r])->Some_0;
            lemma_candidate_measured(problem, target, rows[r]);
            reveal(ahead);
            deployments_leave_least_idle(other.objective, best.objective, u256(0), false);
        }
    }
    w
}

proof fn lemma_candidate_measured(problem: CapitalProblem, target: U256, row: Seq<U256>)
    requires
        row_candidate(problem, target, row) is Some,
    ensures
        ({
            let plan = row_candidate(problem, target, row)->Some_0;
            &&& plan.objective.final_unreserved_idle@ == idle_left(plan.state)
            &&& plan.objective.deployed_assets == target
            &&& plan.objective.movement_assets == target
        }),
{
    reveal(row_candidate);
    let actions = deployment_actions(problem, target, row)->Some_0;
    deployments_are_measured_by_what_they_leave(problem, target, actions);
}

proof fn lemma_row_total(row: Seq<U256>, from: int)
    requires
        0 <= from <= row.len(),
    ensures
        amounts_sum(row, from) + row_total_from(row, from) == amounts_sum(row, row.len() as int),
    decreases row.len() - from,
{
    if from < row.len() {
        lemma_row_total(row, from + 1);
        assert(amounts_sum(row, from + 1) == amounts_sum(row, from) + row[from]@);
    }
}

/// The actions of a distribution supply exactly the target, each amount to its own destination and
/// within that destination's headroom, to at most two of them. What idle does not cover is first
/// withdrawn from the liquidity-only adapter, to the unit and within what it may release; nothing
/// is withdrawn otherwise.
pub proof fn deployments_supply_exactly_the_target(problem: CapitalProblem, target: U256, r: int)
    requires
        0 <= r < target_rows(problem, target).len(),
        deployment_actions(problem, target, target_rows(problem, target)[r]) is Some,
    ensures
        ({
            let row = target_rows(problem, target)[r];
            let actions = deployment_actions(problem, target, row)->Some_0;
            let withdrawn: int = if target@ > problem.idle@ {
                target@ - problem.idle@
            } else {
                0
            };
            let first: int = if withdrawn > 0 {
                1
            } else {
                0
            };
            &&& requested_sum(actions, ActionKind::Allocate, actions.len() as int) == target@
            &&& row.len() == problem.destinations.len()
            &&& actions.len() >= first
            &&& withdrawn > 0 ==> {
                &&& problem.vault.liquidity_adapter is Some
                &&& withdrawn <= problem.liquidity@
                &&& actions[0].kind == ActionKind::Deallocate
                &&& actions[0].position == problem.vault.liquidity_adapter->Some_0.position_key
                &&& actions[0].adapter == problem.vault.liquidity_adapter->Some_0.address
                &&& actions[0].data.len() == 0
                &&& actions[0].requested@ == withdrawn
            }
            &&& forall|i: int|
                first <= i < actions.len() ==> exists|j: int|
                    0 <= j < problem.destinations.len() && acts_at(
                        #[trigger] actions[i],
                        ActionKind::Allocate,
                        #[trigger] problem.destinations[j],
                        row[j],
                    ) && row[j]@ <= problem.destinations[j].1@
        }),
{
    broadcast use group_u256;

    let row = target_rows(problem, target)[r];
    let maximums = endpoint_maximums(problem.destinations);
    capital_distributions_are_conservative_and_pairwise(
        maximums,
        problem.lattices,
        target,
        problem.vault.minimum_action_assets,
    );
    let actions = deployment_actions(problem, target, row)->Some_0;
    lemma_row_total(row, 0);
    assert(row.len() == maximums.len());
    if target@ > problem.idle@ {
        let adapter = problem.vault.liquidity_adapter->Some_0;
        let done = seq![
            ActionView {
                kind: ActionKind::Deallocate,
                position: adapter.position_key,
                adapter: adapter.address,
                data: Seq::empty(),
                requested: saturating_difference(target, problem.idle),
            },
        ];
        endpoint_actions_request_the_amounts(
            problem.destinations,
            row,
            ActionKind::Allocate,
            done,
        );
        assert(actions == endpoint_actions_from(
            problem.destinations,
            row,
            ActionKind::Allocate,
            0,
            done,
        ));
        assert(actions[0] == done[0]);
        assert(requested_sum(done, ActionKind::Allocate, 1) == requested_sum(
            done,
            ActionKind::Allocate,
            0,
        ));
    } else {
        endpoint_actions_request_the_amounts(
            problem.destinations,
            row,
            ActionKind::Allocate,
            Seq::empty(),
        );
    }
    assert forall|j: int| 0 <= j < problem.destinations.len() implies (#[trigger] row[j])@
        <= problem.destinations[j].1@ by {
        assert(maximums[j] == problem.destinations[j].1);
    }
}

/// Idle is deployable only above the verified locks, and not at all while the locks are unverified.
pub proof fn deployable_idle_leaves_the_locks(snapshot: ExactVaultSnapshot)
    ensures
        ({
            let idle = deployable_idle(snapshot);
            let locked = locked_sum(
                snapshot.idle_locks.locks@,
                snapshot.idle_locks.locks@.len() as int,
            );
            &&& !snapshot.idle_locks.verified ==> idle is Some && idle->Some_0@ == 0
            &&& snapshot.idle_locks.verified && idle is Some ==> locked
                <= snapshot.parent.idle_assets@ && idle->Some_0@ == snapshot.parent.idle_assets@
                - locked
        }),
{
    broadcast use group_u256;

    if snapshot.idle_locks.verified && deployable_idle(snapshot) is Some {
        lemma_locked_sum(snapshot.idle_locks.locks@, 0, u256(0));
    }
}

/// The liquidity-only adapter releases no more than it can pay in one action, and nothing below the
/// larger of its own floor and the exit floor; one of these limits is reached. It releases nothing
/// where it does not exist, and its state and configuration must agree that it does.
pub proof fn released_liquidity_leaves_the_floors(
    snapshot: ExactVaultSnapshot,
    vault: ValidatedVaultConfig,
)
    ensures
        ({
            let released = releasable_liquidity(snapshot, vault);
            let state = snapshot.liquidity_adapter->Some_0;
            let most = vault.liquidity_adapter->Some_0.maximum_action_assets@;
            let amount = released->Some_0@;
            &&& released is Some <==> (snapshot.liquidity_adapter is Some
                <==> vault.liquidity_adapter is Some)
            &&& snapshot.liquidity_adapter is None && released is Some ==> amount == 0
            &&& snapshot.liquidity_adapter is Some && released is Some ==> {
                &&& amount <= state.max_withdraw@
                &&& amount <= most
                &&& amount > 0 ==> state.real_assets@ >= amount
                    + vault.minimum_liquidity_adapter_assets@
                &&& amount > 0 ==> state.real_assets@ >= amount
                    + vault.minimum_atomic_exit_coverage_assets@
                &&& amount == state.max_withdraw@ || amount == most || state.real_assets@ <= amount
                    + vault.minimum_liquidity_adapter_assets@ || state.real_assets@ <= amount
                    + vault.minimum_atomic_exit_coverage_assets@
            }
        }),
{
    broadcast use group_u256;

}

/// What a cap still admits fits both of its limits on top of what it has caught up to, and one more
/// unit does not, unless the cap is already over. A cap that is closed or malformed admits nothing.
pub proof fn cap_headroom_fills_the_cap(
    snapshot: ExactVaultSnapshot,
    projection: ProjectedVaultView,
    reference: CapRef,
)
    requires
        cap_headroom_spec(snapshot, projection, reference) is Some,
    ensures
        value_of(snapshot.caps@, reference) is Some,
        ({
            let cap = value_of(snapshot.caps@, reference)->Some_0;
            let caught_up = value_of(projection.vault.cap_catch_up@, reference);
            let change: int = if caught_up is Some {
                caught_up->Some_0@
            } else {
                0
            };
            let held = cap.recorded_allocation@ + change;
            let headroom = cap_headroom_spec(snapshot, projection, reference)->Some_0@;
            let total = projection.vault.parent_total_assets@;
            let relative = cap.relative_cap@;
            &&& cap.absolute_cap@ == 0 || relative > one_wad() ==> headroom == 0
            &&& headroom > 0 ==> {
                &&& held >= 0
                &&& held + headroom <= cap.absolute_cap@
                &&& relative == one_wad() || (held + headroom) * one_wad() <= total * relative
            }
            &&& cap.absolute_cap@ > 0 && relative <= one_wad() ==> {
                ||| held + headroom >= cap.absolute_cap@
                ||| relative < one_wad() && (held + headroom + 1) * one_wad() > total * relative
            }
        }),
{
    broadcast use group_u256, group_i256;

    let cap = value_of(snapshot.caps@, reference)->Some_0;
    let total = projection.vault.parent_total_assets;
    if cap.absolute_cap@ > 0 && cap.relative_cap@ < one_wad() {
        division_rounds_down(total, cap.relative_cap, u256(one_wad() as nat));
        let limit = mul_div_down_spec(total, cap.relative_cap, u256(one_wad() as nat))->Ok_0;
        let product = (total@ * cap.relative_cap@) as int;
        assert(is_floor(limit@ as int, product, one_wad()));
    }
}

/// A position is limited by the least headroom of its three caps.
pub proof fn positions_take_the_least_cap_headroom(
    snapshot: ExactVaultSnapshot,
    projection: ProjectedVaultView,
    position: PositionKey,
)
    requires
        cap_limited_allocation_spec(snapshot, projection, position) is Some,
    ensures
        value_of(snapshot.positions@, position) is Some,
        ({
            let caps = value_of(snapshot.positions@, position)->Some_0.affected_caps@;
            let limit = cap_limited_allocation_spec(snapshot, projection, position)->Some_0;
            &&& forall|k: int|
                0 <= k < 3 ==> {
                    let headroom = cap_headroom_spec(snapshot, projection, #[trigger] caps[k]);
                    headroom is Some && limit@ <= headroom->Some_0@
                }
            &&& exists|k: int|
                0 <= k < 3 && cap_headroom_spec(snapshot, projection, #[trigger] caps[k]) == Some(
                    limit,
                )
        }),
{
    broadcast use group_u256;

    reveal_with_fuel(caps_headroom_from, 4);
    let caps = value_of(snapshot.positions@, position)->Some_0.affected_caps@;
    let a = cap_headroom_spec(snapshot, projection, caps[0]);
    let b = cap_headroom_spec(snapshot, projection, caps[1]);
    let c = cap_headroom_spec(snapshot, projection, caps[2]);
    crate::primitives::lemma_u256_range(a->Some_0);
    if a->Some_0@ == word_modulus() - 1 {
        crate::primitives::lemma_u256_injective(
            a->Some_0,
            u256((word_modulus() - 1) as nat),
        );
    }
}

/// Whether the endpoint is an active configured position with the largest supply that the available
/// assets, the position maximum, the action bound and its caps allow.
pub open spec fn is_destination(
    snapshot: ExactVaultSnapshot,
    projection: ProjectedVaultView,
    position: ValidatedPositionConfig,
    available: U256,
    headroom: U256,
) -> bool {
    let current = value_of(projection.vault.position_expected_assets@, position.position_key);
    let capped = cap_limited_allocation_spec(snapshot, projection, position.position_key);
    let most = position.maximum_position_assets@;
    &&& position.mode == MarketMode::Active
    &&& current is Some && capped is Some
    &&& headroom@ <= available@
    &&& headroom@ <= position.maximum_action_assets@
    &&& headroom@ <= capped->Some_0@
    &&& headroom@ > 0 ==> current->Some_0@ + headroom@ <= most
    &&& headroom@ == available@ || headroom@ == position.maximum_action_assets@ || headroom@
        == capped->Some_0@ || current->Some_0@ + headroom@ >= most
}

proof fn lemma_capital_endpoints(
    snapshot: ExactVaultSnapshot,
    projection: ProjectedVaultView,
    positions: Seq<ValidatedPositionConfig>,
    maximum: U256,
    from: int,
    done: Seq<Endpoint>,
)
    requires
        0 <= from <= positions.len(),
        capital_endpoints_from(snapshot, projection, positions, maximum, from, done) is Some,
    ensures
        ({
            let all = capital_endpoints_from(
                snapshot,
                projection,
                positions,
                maximum,
                from,
                done,
            )->Some_0;
            &&& done.len() <= all.len()
            &&& forall|i: int| 0 <= i < done.len() ==> #[trigger] all[i] == done[i]
            &&& forall|i: int|
                done.len() <= i < all.len() ==> (#[trigger] all[i]).1@ > 0 && positions.contains(
                    all[i].0,
                ) && is_destination(snapshot, projection, all[i].0, maximum, all[i].1)
            &&& forall|p: int|
                from <= p < positions.len() && (#[trigger] positions[p]).mode == MarketMode::Active
                    ==> exists|h: U256|
                    #[trigger] is_destination(snapshot, projection, positions[p], maximum, h) && (
                    h@ == 0 || all.contains((positions[p], h)))
        }),
    decreases positions.len() - from,
{
    broadcast use group_u256;

    if from < positions.len() {
        let position = positions[from];
        if position.mode != MarketMode::Active {
            lemma_capital_endpoints(snapshot, projection, positions, maximum, from + 1, done);
        } else {
            let current = value_of(
                projection.vault.position_expected_assets@,
                position.position_key,
            )->Some_0;
            let capped = cap_limited_allocation_spec(
                snapshot,
                projection,
                position.position_key,
            )->Some_0;
            let headroom = smaller(
                smaller(
                    smaller(
                        maximum,
                        saturating_difference(position.maximum_position_assets, current),
                    ),
                    position.maximum_action_assets,
                ),
                capped,
            );
            assert(is_destination(snapshot, projection, position, maximum, headroom));
            let next = if headroom@ == 0 {
                done
            } else {
                done.push((position, headroom))
            };
            lemma_capital_endpoints(snapshot, projection, positions, maximum, from + 1, next);
            let all = capital_endpoints_from(
                snapshot,
                projection,
                positions,
                maximum,
                from,
                done,
            )->Some_0;
            assert(positions.contains(position)) by {
                assert(positions[from] == position);
            }
            assert forall|i: int| 0 <= i < done.len() implies #[trigger] all[i] == done[i] by {
                assert(all[i] == next[i]);
            }
            if headroom@ > 0 {
                let at = done.len() as int;
                assert(all[at] == next[at]);
                assert(all.contains((position, headroom)));
            }
            assert forall|p: int|
                from <= p < positions.len() && (#[trigger] positions[p]).mode
                    == MarketMode::Active implies exists|h: U256|
                #[trigger] is_destination(snapshot, projection, positions[p], maximum, h) && (h@
                    == 0 || all.contains((positions[p], h))) by {
                if p == from {
                    assert(is_destination(snapshot, projection, positions[p], maximum, headroom));
                }
            }
        }
    }
}

/// The destinations of a deployment are exactly the active configured positions that can take
/// something, each with the largest supply its limits allow.
pub proof fn destinations_are_active_and_within_limits(
    snapshot: ExactVaultSnapshot,
    projection: ProjectedVaultView,
    positions: Seq<ValidatedPositionConfig>,
    available: U256,
)
    requires
        capital_endpoints_from(
            snapshot,
            projection,
            positions,
            available,
            0,
            Seq::empty(),
        ) is Some,
    ensures
        ({
            let all = capital_endpoints_from(
                snapshot,
                projection,
                positions,
                available,
                0,
                Seq::empty(),
            )->Some_0;
            &&& forall|i: int|
                0 <= i < all.len() ==> (#[trigger] all[i]).1@ > 0 && positions.contains(all[i].0)
                    && is_destination(snapshot, projection, all[i].0, available, all[i].1)
            &&& forall|p: int|
                0 <= p < positions.len() && (#[trigger] positions[p]).mode == MarketMode::Active
                    ==> exists|h: U256|
                    #[trigger] is_destination(snapshot, projection, positions[p], available, h) && (
                    h@ == 0 || all.contains((positions[p], h)))
        }),
{
    lemma_capital_endpoints(snapshot, projection, positions, available, 0, Seq::empty());
}

/// A deployment draws on the deployable idle and the released liquidity together, weighs itself
/// against the value without a plan at the benefit horizon, and tries no target above what is
/// available.
pub proof fn deployments_draw_on_idle_and_liquidity(
    snapshot: ExactVaultSnapshot,
    projection: ProjectedVaultView,
    terminal: Option<&ProjectedVaultView>,
    vault: ValidatedVaultConfig,
    solver: SolverConfigCanonical,
    benefit_horizon_seconds: u64,
    objective: StrategyObjective,
)
    requires
        capital_setup(
            snapshot,
            projection,
            terminal,
            vault,
            solver,
            benefit_horizon_seconds,
            objective,
        ) is Some,
    ensures
        ({
            let (problem, targets, _, available) = capital_setup(
                snapshot,
                projection,
                terminal,
                vault,
                solver,
                benefit_horizon_seconds,
                objective,
            )->Some_0;
            &&& deployable_idle(snapshot) == Some(problem.idle)
            &&& releasable_liquidity(snapshot, vault) == Some(problem.liquidity)
            &&& available@ == problem.idle@ + problem.liquidity@
            &&& problem.horizon == projection.head.timestamp + benefit_horizon_seconds
            &&& terminal is Some && terminal->Some_0.head.timestamp == problem.horizon
            &&& is_floor(
                problem.no_plan@ as int,
                snapshot.parent.total_supply@ * (terminal->Some_0.vault.parent_total_assets@
                    + 1int),
                terminal->Some_0.vault.projected_total_supply@ + snapshot.parent.virtual_shares@
                    as int,
            )
            &&& capital_endpoints_from(
                snapshot,
                projection,
                vault.positions@,
                available,
                0,
                Seq::empty(),
            ) == Some(problem.destinations)
            &&& forall|i: int| 0 <= i < targets.len() ==> (#[trigger] targets[i])@ <= available@
            &&& problem.snapshot == snapshot && problem.projection == projection && problem.vault
                == vault && problem.objective == objective
        }),
{
    broadcast use group_u256;

    let (problem, targets, _, available) = capital_setup(
        snapshot,
        projection,
        terminal,
        vault,
        solver,
        benefit_horizon_seconds,
        objective,
    )->Some_0;
    let total = endpoint_total_from(problem.destinations, 0, u256(0))->Some_0;
    let deposit_excess = saturating_difference(
        projection.vault.max_executable_deposit_assets,
        vault.minimum_deposit_headroom_assets,
    );
    let exit_excess = saturating_difference(
        projection.vault.atomic_exit_coverage_assets,
        vault.minimum_atomic_exit_coverage_assets,
    );
    lattice_keeps_exact_boundaries(
        vault.minimum_action_assets,
        smaller(total, available),
        seq![available, available, problem.idle, problem.liquidity, deposit_excess, exit_excess],
        solver.maximum_amount_candidates_per_position,
    );
    let view = terminal->Some_0;
    let assets = u256((view.vault.parent_total_assets@ + 1) as nat);
    let supply = u256(
        (view.vault.projected_total_supply@ + snapshot.parent.virtual_shares@) as nat,
    );
    division_rounds_down(snapshot.parent.total_supply, assets, supply);
}

} // verus!
