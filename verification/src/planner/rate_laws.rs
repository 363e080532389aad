//! What a rate rebalance promises, stated on the plan it returns.

use vstd::prelude::*;

use crate::config::{
    SolverConfigCanonical, StrategyObjective, ValidatedStrategyConfig, ValidatedVaultConfig,
};
use crate::domain::{
    ActionKind, ActionView, ExactVaultSnapshot, PlanReason, ProjectedVaultView, RateObjectiveBranch,
};
use crate::morpho::blue_math::mul_div_down_spec;
use crate::morpho::laws::{division_rounds_down, is_floor};
use crate::planner::candidates::lattice_keeps_exact_boundaries;
use crate::planner::capital_laws::idle_left;
use crate::planner::certificate::CertificateView;
use crate::planner::distributions::{
    bounded_distributions_spec, distributes, distributions_conserve_the_total, lattices_within,
    row_total_from,
};
use crate::planner::episodes::EpisodeView;
use crate::planner::moves::{
    acts_at, amounts_sum, economic_gates_bound_loss_and_sacrifice, endpoint_actions_from,
    endpoint_actions_request_the_amounts, endpoint_maximums, endpoint_total_from, lattices_of,
    lemma_requested_prefix, requested_sum, Endpoint,
};
use crate::planner::objective::{
    complete_spread_spec, ranks_before_spec, rate_plans_in_the_band_move_least,
    rate_plans_outside_the_band_spread_least,
};
use crate::planner::rate::{
    best_candidate_from, enumeration_limit, executable, movement_actions, movement_limit_spec,
    rate_amounts_from, rate_assessment, rate_pairs_from,
    rate_search_is_bounded_feasible_and_optimal, rate_search_spec, rate_setup, rate_solve_spec,
    reaches_target, RateCandidateView, RateProblem, RateProgress,
};
use crate::planner::simulator::{
    service_constraints_spec, simulation_spec, terminal_assets_spec, SimulationError,
    SimulationView,
};
use crate::primitives::{group_i256, group_u256, u256, word_modulus, U256};

verus! {

/// Worsening of the spread the strategy tolerates.
pub open spec fn spread_allowance(strategy: ValidatedStrategyConfig) -> int {
    if strategy.objective == StrategyObjective::SpotBorrowRateSpread {
        strategy.portfolio_spread_tolerance_rate_per_second.0@ as int
    } else {
        strategy.utilization_portfolio_spread_tolerance_wad@ as int
    }
}

/// Improvement of the spread the strategy asks of the episode's branch.
pub open spec fn spread_improvement(
    strategy: ValidatedStrategyConfig,
    branch: RateObjectiveBranch,
) -> int {
    if strategy.objective == StrategyObjective::UtilizationSpread {
        strategy.utilization_minimum_improvement_wad@ as int
    } else if branch == RateObjectiveBranch::Portfolio {
        strategy.minimum_portfolio_improvement_rate_per_second.0@ as int
    } else {
        strategy.minimum_controllable_improvement_rate_per_second.0@ as int
    }
}

/// A rate candidate simulates, meets every service floor, leaves no routine idle beyond dust where
/// that is strict, and keeps the economic gates. It is measured by the spread of the episode's own
/// branch, with the other branch as second. Its spread is no further than the tolerance above the
/// one before, and below it by the improvement asked for.
pub proof fn rate_candidates_improve_the_spread(
    problem: RateProblem,
    amount: U256,
    source_amounts: Seq<U256>,
    destination_amounts: Seq<U256>,
)
    requires
        rate_assessment(problem, amount, source_amounts, destination_amounts) is Ok,
    ensures
        ({
            let plan = rate_assessment(
                problem,
                amount,
                source_amounts,
                destination_amounts,
            )->Ok_0;
            let worth = terminal_assets_spec(
                plan.state,
                problem.snapshot,
                problem.projection,
                problem.horizon,
            );
            let portfolio = complete_spread_spec(
                problem.episode.evaluation_markets,
                plan.state.markets,
                problem.strategy.objective,
            );
            let controllable = complete_spread_spec(
                problem.episode.controllable_markets,
                plan.state.markets,
                problem.strategy.objective,
            );
            let before = problem.before_spread@;
            let after = plan.objective.applicable_spread@;
            &&& simulation_spec(problem.snapshot, problem.projection, problem.vault, plan.actions)
                == Ok::<SimulationView, SimulationError>(plan.state)
            &&& service_constraints_spec(plan.state, problem.snapshot, problem.vault) is Ok
            &&& problem.vault.strict_zero_routine_idle ==> idle_left(plan.state)
                <= problem.vault.maximum_rounding_dust_assets@
            &&& plan.state.immediate_loss_assets@
                <= problem.vault.maximum_immediate_rebalance_loss_assets@
            &&& worth is Ok
            &&& worth->Ok_0@ + problem.vault.maximum_terminal_value_sacrifice_assets@
                >= problem.no_plan@
            &&& plan.objective.terminal_value_delta@ == worth->Ok_0@ - problem.no_plan@
            &&& plan.objective.final_unreserved_idle@ == idle_left(plan.state)
            &&& plan.objective.deployed_assets@ == 0
            &&& plan.objective.movement_assets == amount
            &&& plan.state.actions.len() <= usize::MAX ==> plan.objective.action_count
                == plan.state.actions.len()
            &&& portfolio is Some && controllable is Some
            &&& problem.episode.objective_branch == RateObjectiveBranch::Portfolio
                ==> plan.objective.applicable_spread == portfolio->Some_0
                && plan.objective.secondary_spread == controllable->Some_0
            &&& problem.episode.objective_branch == RateObjectiveBranch::Controllable
                ==> plan.objective.applicable_spread == controllable->Some_0
                && plan.objective.secondary_spread == portfolio->Some_0
            &&& plan.before_spread == problem.before_spread
            &&& after <= before + spread_allowance(problem.strategy)
            &&& ({
                let improvement = spread_improvement(
                    problem.strategy,
                    problem.episode.objective_branch,
                );
                improvement > 0 ==> before >= after + improvement
            })
        }),
{
    broadcast use group_u256, group_i256;

    let plan = rate_assessment(problem, amount, source_amounts, destination_amounts)->Ok_0;
    economic_gates_bound_loss_and_sacrifice(
        plan.state,
        problem.snapshot,
        problem.projection,
        problem.vault,
        problem.horizon,
        problem.no_plan,
    );
    crate::primitives::lemma_u256_range(plan.objective.applicable_spread);
}

proof fn lemma_row_total(row: Seq<U256>, from: int)
    requires
        0 <= from <= row.len(),
    ensures
        amounts_sum(row, from) + row_total_from(row, from) == amounts_sum(row, row.len() as int),
    decreases row.len() - from,
{
    if from < row.len() {
        lemma_row_total(row, from + 1);
        assert(amounts_sum(row, from + 1) == amounts_sum(row, from) + row[from]@);
    }
}

proof fn lemma_one_kind(actions: Seq<ActionView>, kind: ActionKind, other: ActionKind, count: int)
    requires
        0 <= count <= actions.len(),
        kind != other,
        forall|i: int| 0 <= i < count ==> (#[trigger] actions[i]).kind == kind,
    ensures
        requested_sum(actions, other, count) == 0,
    decreases count,
{
    if count > 0 {
        lemma_one_kind(actions, kind, other, count - 1);
    }
}

proof fn lemma_tail_kind(
    actions: Seq<ActionView>,
    kind: ActionKind,
    other: ActionKind,
    from: int,
    count: int,
)
    requires
        0 <= from <= count <= actions.len(),
        kind != other,
        forall|i: int| from <= i < count ==> (#[trigger] actions[i]).kind == kind,
    ensures
        requested_sum(actions, other, count) == requested_sum(actions, other, from),
    decreases count - from,
{
    if count > from {
        lemma_tail_kind(actions, kind, other, from, count - 1);
    }
}

/// The actions of a movement withdraw the source row before they supply the destination row, each
/// amount at its own endpoint, and request the sum of each row.
pub proof fn movements_withdraw_then_supply(
    sources: Seq<Endpoint>,
    source_amounts: Seq<U256>,
    destinations: Seq<Endpoint>,
    destination_amounts: Seq<U256>,
) -> (first: int)
    requires
        sources.len() == source_amounts.len(),
        destinations.len() == destination_amounts.len(),
    ensures
        ({
            let actions = movement_actions(
                sources,
                source_amounts,
                destinations,
                destination_amounts,
            );
            &&& 0 <= first <= actions.len() <= sources.len() + destinations.len()
            &&& forall|i: int|
                0 <= i < first ==> exists|j: int|
                    0 <= j < sources.len() && acts_at(
                        #[trigger] actions[i],
                        ActionKind::Deallocate,
                        #[trigger] sources[j],
                        source_amounts[j],
                    )
            &&& forall|i: int|
                first <= i < actions.len() ==> exists|j: int|
                    0 <= j < destinations.len() && acts_at(
                        #[trigger] actions[i],
                        ActionKind::Allocate,
                        #[trigger] destinations[j],
                        destination_amounts[j],
                    )
            &&& requested_sum(actions, ActionKind::Deallocate, actions.len() as int)
                == amounts_sum(source_amounts, source_amounts.len() as int)
            &&& requested_sum(actions, ActionKind::Allocate, actions.len() as int) == amounts_sum(
                destination_amounts,
                destination_amounts.len() as int,
            )
        }),
{
    let none = Seq::<ActionView>::empty();
    let out = endpoint_actions_from(sources, source_amounts, ActionKind::Deallocate, 0, none);
    let actions = movement_actions(sources, source_amounts, destinations, destination_amounts);
    endpoint_actions_request_the_amounts(sources, source_amounts, ActionKind::Deallocate, none);
    endpoint_actions_request_the_amounts(
        destinations,
        destination_amounts,
        ActionKind::Allocate,
        out,
    );
    let first = out.len() as int;
    assert forall|i: int| 0 <= i < first implies exists|j: int|
        0 <= j < sources.len() && acts_at(
            #[trigger] actions[i],
            ActionKind::Deallocate,
            #[trigger] sources[j],
            source_amounts[j],
        ) by {
        assert(actions[i] == out[i]);
        let j = choose|j: int|
            0 <= j < sources.len() && acts_at(
                out[i],
                ActionKind::Deallocate,
                #[trigger] sources[j],
                source_amounts[j],
            );
        assert(acts_at(actions[i], ActionKind::Deallocate, sources[j], source_amounts[j]));
    }
    assert forall|i: int| 0 <= i < out.len() implies (#[trigger] out[i]).kind
        == ActionKind::Deallocate by {}
    lemma_one_kind(out, ActionKind::Deallocate, ActionKind::Allocate, out.len() as int);
    lemma_tail_kind(
        actions,
        ActionKind::Allocate,
        ActionKind::Deallocate,
        first,
        actions.len() as int,
    );
    lemma_requested_prefix(actions, out, ActionKind::Deallocate, first);
    first
}

/// The tranche is the configured share of the optimal movement, rounded down and limited by the
/// unlocked budget.
pub proof fn tranche_is_the_share_of_the_optimum(
    optimal_movement: U256,
    unlocked_budget: U256,
    tranche_bps: u32,
)
    requires
        movement_limit_spec(optimal_movement, unlocked_budget, tranche_bps) is Some,
    ensures
        ({
            let limit = movement_limit_spec(optimal_movement, unlocked_budget, tranche_bps)->0@;
            &&& limit <= unlocked_budget@
            &&& limit * 10_000 <= optimal_movement@ * tranche_bps
            &&& limit == unlocked_budget@ || is_floor(
                limit as int,
                optimal_movement@ * tranche_bps,
                10_000,
            )
        }),
{
    broadcast use group_u256;

    division_rounds_down(optimal_movement, u256(tranche_bps as nat), u256(10_000));
    let share = mul_div_down_spec(
        optimal_movement,
        u256(tranche_bps as nat),
        u256(10_000),
    )->Ok_0;
    assert(is_floor(share@ as int, optimal_movement@ * tranche_bps, 10_000));
}

/// Whether the plan withdraws as much as it supplies, which is what it is measured to move.
pub open spec fn moves_what_it_claims(plan: RateCandidateView) -> bool {
    let count = plan.actions.len() as int;
    &&& requested_sum(plan.actions, ActionKind::Deallocate, count)
        == plan.objective.movement_assets@
    &&& requested_sum(plan.actions, ActionKind::Allocate, count) == plan.objective.movement_assets@
}

/// Whether every plan of every pair of distributions of the amount is among the candidates.
pub open spec fn covers_amount(
    problem: RateProblem,
    amount: U256,
    source_limit: nat,
    destination_limit: nat,
    candidates: Seq<RateCandidateView>,
) -> bool {
    let sources = bounded_distributions_spec(
        endpoint_maximums(problem.sources),
        problem.source_lattices,
        amount,
        problem.vault.minimum_action_assets,
        source_limit,
    );
    let destinations = bounded_distributions_spec(
        endpoint_maximums(problem.destinations),
        problem.destination_lattices,
        amount,
        problem.vault.minimum_action_assets,
        destination_limit,
    );
    &&& sources is Some && destinations is Some
    &&& forall|i: int, j: int|
        #![trigger sources->Some_0[i], destinations->Some_0[j]]
        0 <= i < sources->Some_0.len() && 0 <= j < destinations->Some_0.len() && rate_assessment(
            problem,
            amount,
            sources->Some_0[i],
            destinations->Some_0[j],
        ) is Ok ==> candidates.contains(
            rate_assessment(
                problem,
                amount,
                sources->Some_0[i],
                destinations->Some_0[j],
            )->Ok_0,
        )
}

#[verifier::opaque]
spec fn assessed(
    problem: RateProblem,
    amount: U256,
    source_amounts: Seq<U256>,
    destination_amounts: Seq<U256>,
) -> Option<RateCandidateView> {
    match rate_assessment(problem, amount, source_amounts, destination_amounts) {
        Ok(plan) => Some(plan),
        Err(_) => None,
    }
}

#[verifier::opaque]
spec fn pairs_searched(
    problem: RateProblem,
    amount: U256,
    source_rows: Seq<Seq<U256>>,
    destination_rows: Seq<Seq<U256>>,
    i: int,
    j: int,
    progress: RateProgress,
) -> (RateProgress, bool) {
    rate_pairs_from(problem, amount, source_rows, destination_rows, i, j, progress)
}

/// Candidates with a new one appended, if there is one.
spec fn appended(
    candidates: Seq<RateCandidateView>,
    plan: Option<RateCandidateView>,
) -> Seq<RateCandidateView> {
    if plan is Some {
        candidates.push(plan->Some_0)
    } else {
        candidates
    }
}

proof fn lemma_pair_step(
    problem: RateProblem,
    amount: U256,
    source_rows: Seq<Seq<U256>>,
    destination_rows: Seq<Seq<U256>>,
    i: int,
    j: int,
    progress: RateProgress,
) -> (next: RateProgress)
    requires
        0 <= i < source_rows.len(),
        0 <= j < destination_rows.len(),
        progress.certificate.nodes_evaluated < progress.certificate.node_limit,
    ensures
        pairs_searched(problem, amount, source_rows, destination_rows, i, j, progress)
            == pairs_searched(problem, amount, source_rows, destination_rows, i, j + 1, next),
        next.candidates == appended(
            progress.candidates,
            assessed(problem, amount, source_rows[i], destination_rows[j]),
        ),
        next.certificate.search_complete ==> progress.certificate.search_complete,
{
    reveal(pairs_searched);
    reveal(assessed);
    crate::planner::rate::rate_evaluated(
        problem,
        amount,
        source_rows[i],
        destination_rows[j],
        progress,
    )
}

spec fn from_rows(
    problem: RateProblem,
    amount: U256,
    source_rows: Seq<Seq<U256>>,
    destination_rows: Seq<Seq<U256>>,
    plan: RateCandidateView,
) -> bool {
    exists|a: int, b: int|
        0 <= a < source_rows.len() && 0 <= b < destination_rows.len() && #[trigger] assessed(
            problem,
            amount,
            source_rows[a],
            destination_rows[b],
        ) == Some(plan)
}

proof fn lemma_pairs_covered(
    problem: RateProblem,
    amount: U256,
    source_rows: Seq<Seq<U256>>,
    destination_rows: Seq<Seq<U256>>,
    i: int,
    j: int,
    progress: RateProgress,
)
    requires
        0 <= i,
        0 <= j <= destination_rows.len(),
    ensures
        ({
            let (next, stopped) = pairs_searched(
                problem,
                amount,
                source_rows,
                destination_rows,
                i,
                j,
                progress,
            );
            &&& next.certificate.search_complete ==> !stopped
                && progress.certificate.search_complete
            &&& progress.candidates.len() <= next.candidates.len()
            &&& forall|k: int|
                0 <= k < progress.candidates.len() ==> #[trigger] next.candidates[k]
                    == progress.candidates[k]
            &&& forall|k: int|
                progress.candidates.len() <= k < next.candidates.len() ==> from_rows(
                    problem,
                    amount,
                    source_rows,
                    destination_rows,
                    #[trigger] next.candidates[k],
                )
            &&& !stopped ==> forall|a: int, b: int|
                (i < a < source_rows.len() && 0 <= b < destination_rows.len()) || (a == i && i
                    < source_rows.len() && j <= b < destination_rows.len()) ==> {
                    let plan = #[trigger] assessed(
                        problem,
                        amount,
                        source_rows[a],
                        destination_rows[b],
                    );
                    plan is Some ==> next.candidates.contains(plan->Some_0)
                }
        }),
    decreases source_rows.len() - i, destination_rows.len() - j,
{
    if i >= source_rows.len() {
        reveal(pairs_searched);
    } else if j >= destination_rows.len() {
        assert(pairs_searched(problem, amount, source_rows, destination_rows, i, j, progress)
            == pairs_searched(problem, amount, source_rows, destination_rows, i + 1, 0, progress))
            by {
            reveal(pairs_searched);
        }
        lemma_pairs_covered(
            problem,
            amount,
            source_rows,
            destination_rows,
            i + 1,
            0,
            progress,
        );
    } else if progress.certificate.nodes_evaluated >= progress.certificate.node_limit {
        reveal(pairs_searched);
    } else {
        let step = lemma_pair_step(
            problem,
            amount,
            source_rows,
            destination_rows,
            i,
            j,
            progress,
        );
        lemma_pairs_covered(problem, amount, source_rows, destination_rows, i, j + 1, step);
        let (next, stopped) = pairs_searched(
            problem,
            amount,
            source_rows,
            destination_rows,
            i,
            j,
            progress,
        );
        let plan = assessed(problem, amount, source_rows[i], destination_rows[j]);
        let old_len = progress.candidates.len() as int;
        assert forall|k: int| 0 <= k < old_len implies #[trigger] next.candidates[k]
            == progress.candidates[k] by {
            assert(next.candidates[k] == step.candidates[k]);
        }
        if plan is Some {
            assert(step.candidates[old_len] == plan->Some_0);
            assert(next.candidates[old_len] == step.candidates[old_len]);
            assert(next.candidates.contains(plan->Some_0));
            assert(from_rows(
                problem,
                amount,
                source_rows,
                destination_rows,
                next.candidates[old_len],
            ));
        }
    }
}

/// Whether both sides of the problem have lattices within their maximums.
spec fn lattices_fit(problem: RateProblem) -> bool {
    &&& problem.source_lattices.len() == problem.sources.len()
    &&& problem.destination_lattices.len() == problem.destinations.len()
    &&& lattices_within(problem.source_lattices, endpoint_maximums(problem.sources))
    &&& lattices_within(problem.destination_lattices, endpoint_maximums(problem.destinations))
}

proof fn lemma_plan_moves(
    problem: RateProblem,
    amount: U256,
    source_amounts: Seq<U256>,
    destination_amounts: Seq<U256>,
)
    requires
        assessed(problem, amount, source_amounts, destination_amounts) is Some,
        distributes(
            source_amounts,
            endpoint_maximums(problem.sources),
            amount,
            problem.vault.minimum_action_assets,
        ),
        distributes(
            destination_amounts,
            endpoint_maximums(problem.destinations),
            amount,
            problem.vault.minimum_action_assets,
        ),
    ensures
        moves_what_it_claims(
            assessed(problem, amount, source_amounts, destination_amounts)->Some_0,
        ),
{
    reveal(assessed);
    rate_candidates_improve_the_spread(problem, amount, source_amounts, destination_amounts);
    let first = movements_withdraw_then_supply(
        problem.sources,
        source_amounts,
        problem.destinations,
        destination_amounts,
    );
    lemma_row_total(source_amounts, 0);
    lemma_row_total(destination_amounts, 0);
}

proof fn lemma_amount_covered(
    problem: RateProblem,
    amount: U256,
    source_limit: nat,
    destination_limit: nat,
    progress: RateProgress,
) -> (r: (RateProgress, bool))
    requires
        lattices_fit(problem),
        bounded_distributions_spec(
            endpoint_maximums(problem.sources),
            problem.source_lattices,
            amount,
            problem.vault.minimum_action_assets,
            source_limit,
        ) is Some,
        bounded_distributions_spec(
            endpoint_maximums(problem.destinations),
            problem.destination_lattices,
            amount,
            problem.vault.minimum_action_assets,
            destination_limit,
        ) is Some,
        forall|k: int|
            0 <= k < progress.candidates.len() ==> moves_what_it_claims(
                #[trigger] progress.candidates[k],
            ),
    ensures
        r == rate_pairs_from(
            problem,
            amount,
            bounded_distributions_spec(
                endpoint_maximums(problem.sources),
                problem.source_lattices,
                amount,
                problem.vault.minimum_action_assets,
                source_limit,
            )->Some_0,
            bounded_distributions_spec(
                endpoint_maximums(problem.destinations),
                problem.destination_lattices,
                amount,
                problem.vault.minimum_action_assets,
                destination_limit,
            )->Some_0,
            0,
            0,
            progress,
        ),
        r.0.certificate.search_complete ==> !r.1 && progress.certificate.search_complete,
        progress.candidates.len() <= r.0.candidates.len(),
        forall|k: int|
            0 <= k < progress.candidates.len() ==> #[trigger] r.0.candidates[k]
                == progress.candidates[k],
        forall|k: int|
            0 <= k < r.0.candidates.len() ==> moves_what_it_claims(#[trigger] r.0.candidates[k]),
        !r.1 ==> covers_amount(
            problem,
            amount,
            source_limit,
            destination_limit,
            r.0.candidates,
        ),
{
    let from = endpoint_maximums(problem.sources);
    let to = endpoint_maximums(problem.destinations);
    let minimum = problem.vault.minimum_action_assets;
    let sources = bounded_distributions_spec(
        from,
        problem.source_lattices,
        amount,
        minimum,
        source_limit,
    )->Some_0;
    let destinations = bounded_distributions_spec(
        to,
        problem.destination_lattices,
        amount,
        minimum,
        destination_limit,
    )->Some_0;
    distributions_conserve_the_total(
        from,
        problem.source_lattices,
        amount,
        minimum,
        source_limit,
    );
    distributions_conserve_the_total(
        to,
        problem.destination_lattices,
        amount,
        minimum,
        destination_limit,
    );
    lemma_pairs_covered(problem, amount, sources, destinations, 0, 0, progress);
    let r = pairs_searched(problem, amount, sources, destinations, 0, 0, progress);
    assert(r == rate_pairs_from(problem, amount, sources, destinations, 0, 0, progress)) by {
        reveal(pairs_searched);
    }
    assert forall|k: int| 0 <= k < r.0.candidates.len() implies moves_what_it_claims(
        #[trigger] r.0.candidates[k],
    ) by {
        if k >= progress.candidates.len() {
            let plan = r.0.candidates[k];
            assert(from_rows(problem, amount, sources, destinations, plan));
            let (a, b) = choose|a: int, b: int|
                0 <= a < sources.len() && 0 <= b < destinations.len() && #[trigger] assessed(
                    problem,
                    amount,
                    sources[a],
                    destinations[b],
                ) == Some(plan);
            lemma_plan_moves(problem, amount, sources[a], destinations[b]);
        } else {
            assert(r.0.candidates[k] == progress.candidates[k]);
        }
    }
    if !r.1 {
        assert forall|i: int, j: int|
            #![trigger sources[i], destinations[j]]
            0 <= i < sources.len() && 0 <= j < destinations.len() && rate_assessment(
                problem,
                amount,
                sources[i],
                destinations[j],
            ) is Ok implies r.0.candidates.contains(
            rate_assessment(problem, amount, sources[i], destinations[j])->Ok_0,
        ) by {
            let plan = assessed(problem, amount, sources[i], destinations[j]);
            reveal(assessed);
        }
    }
    r
}

proof fn lemma_amounts_covered(
    problem: RateProblem,
    amounts: Seq<U256>,
    from: int,
    progress: RateProgress,
)
    requires
        0 <= from <= amounts.len(),
        lattices_fit(problem),
        forall|k: int|
            0 <= k < progress.candidates.len() ==> moves_what_it_claims(
                #[trigger] progress.candidates[k],
            ),
    ensures
        ({
            let next = rate_amounts_from(problem, amounts, from, progress);
            &&& next.certificate.search_complete ==> progress.certificate.search_complete
            &&& progress.candidates.len() <= next.candidates.len()
            &&& forall|k: int|
                0 <= k < progress.candidates.len() ==> #[trigger] next.candidates[k]
                    == progress.candidates[k]
            &&& forall|k: int|
                0 <= k < next.candidates.len() ==> moves_what_it_claims(
                    #[trigger] next.candidates[k],
                )
            &&& next.certificate.search_complete ==> forall|k: int|
                from <= k < amounts.len() && (#[trigger] amounts[k])@
                    >= problem.vault.minimum_action_assets@ ==> exists|a: nat, b: nat|
                    #[trigger] covers_amount(problem, amounts[k], a, b, next.candidates)
        }),
    decreases amounts.len() - from,
{
    if from < amounts.len() {
        let amount = amounts[from];
        if amount@ < problem.vault.minimum_action_assets@ {
            lemma_amounts_covered(problem, amounts, from + 1, progress);
        } else {
            let a = enumeration_limit(progress.certificate, problem.solver.maximum_source_sets);
            let b = enumeration_limit(
                progress.certificate,
                problem.solver.maximum_destination_sets,
            );
            let minimum = problem.vault.minimum_action_assets;
            let sources = bounded_distributions_spec(
                endpoint_maximums(problem.sources),
                problem.source_lattices,
                amount,
                minimum,
                a,
            );
            let destinations = bounded_distributions_spec(
                endpoint_maximums(problem.destinations),
                problem.destination_lattices,
                amount,
                minimum,
                b,
            );
            if sources is Some && destinations is Some {
                let (step, stopped) = lemma_amount_covered(problem, amount, a, b, progress);
                if !stopped {
                    lemma_amounts_covered(problem, amounts, from + 1, step);
                    let next = rate_amounts_from(problem, amounts, from + 1, step);
                    assert(covers_amount(problem, amount, a, b, next.candidates)) by {
                        assert forall|plan: RateCandidateView| step.candidates.contains(
                            plan,
                        ) implies next.candidates.contains(plan) by {
                            let k = choose|k: int|
                                0 <= k < step.candidates.len() && step.candidates[k] == plan;
                            assert(next.candidates[k] == plan);
                        }
                    }
                    assert forall|k: int| 0 <= k < progress.candidates.len() implies
                        #[trigger] next.candidates[k] == progress.candidates[k] by {
                        assert(next.candidates[k] == step.candidates[k]);
                    }
                }
            }
        }
    }
}

proof fn lemma_lattices_fit(
    endpoints: Seq<Endpoint>,
    minimum_action: U256,
    boundaries: Seq<U256>,
    limit: usize,
)
    ensures
        lattices_within(
            lattices_of(endpoint_maximums(endpoints), minimum_action, boundaries, limit),
            endpoint_maximums(endpoints),
        ),
{
    let maximums = endpoint_maximums(endpoints);
    let lattices = lattices_of(maximums, minimum_action, boundaries, limit);
    assert forall|i: int, k: int|
        0 <= i < lattices.len() && 0 <= k < lattices[i].len() implies (
    #[trigger] lattices[i][k])@ <= maximums[i]@ by {
        lattice_keeps_exact_boundaries(minimum_action, maximums[i], boundaries, limit);
    }
}

/// Inclusive spread that counts as converged: target plus tolerance, clamped to the largest word.
pub open spec fn convergence_band(strategy: ValidatedStrategyConfig) -> int {
    let band = if strategy.objective == StrategyObjective::SpotBorrowRateSpread {
        strategy.target_spread_rate_per_second.0@ + strategy.target_tolerance_rate_per_second.0@
    } else {
        strategy.utilization_target_spread_wad@ + strategy.utilization_target_tolerance_wad@
    };
    if band < word_modulus() {
        band as int
    } else {
        word_modulus() - 1
    }
}

/// The plan of a rate search is optimal among its candidates. Where any candidate is inside the
/// convergence band, the plan is inside, no candidate inside moves less, and of those that move as
/// much none has a smaller spread. Where none is inside, no candidate has a smaller spread. Every
/// candidate withdraws and supplies exactly what it moves, the plan moves no more than the budget,
/// and a complete search held every feasible plan of every executable amount.
pub proof fn rate_plan_is_optimal_on_its_metrics(
    snapshot: ExactVaultSnapshot,
    projection: ProjectedVaultView,
    terminal: Option<&ProjectedVaultView>,
    vault: ValidatedVaultConfig,
    strategy: ValidatedStrategyConfig,
    solver: SolverConfigCanonical,
    episode: EpisodeView,
    budget: U256,
) -> (candidates: Seq<RateCandidateView>)
    requires
        rate_setup(
            snapshot,
            projection,
            terminal,
            vault,
            strategy,
            solver,
            episode,
            budget,
        ) is Some,
    ensures
        ({
            let (problem, amounts, _) = rate_setup(
                snapshot,
                projection,
                terminal,
                vault,
                strategy,
                solver,
                episode,
                budget,
            )->Some_0;
            let result = rate_search_spec(
                snapshot,
                projection,
                terminal,
                vault,
                strategy,
                solver,
                episode,
                budget,
            );
            let best = result.best->Some_0;
            let band = convergence_band(strategy);
            &&& result.target_reachable <==> exists|i: int|
                0 <= i < candidates.len() && (#[trigger] candidates[i]).objective.applicable_spread@
                    <= band
            &&& result.best is None <==> candidates.len() == 0
            &&& forall|i: int|
                0 <= i < candidates.len() ==> moves_what_it_claims(#[trigger] candidates[i])
            &&& result.certificate.search_complete ==> forall|k: int|
                0 <= k < amounts.len() && (#[trigger] amounts[k])@ >= vault.minimum_action_assets@
                    ==> exists|a: nat, b: nat| #[trigger]
                    covers_amount(problem, amounts[k], a, b, candidates)
            &&& result.best is Some ==> {
                &&& candidates.contains(best)
                &&& moves_what_it_claims(best)
                &&& best.objective.movement_assets@ <= budget@
                &&& result.target_reachable ==> best.objective.applicable_spread@ <= band
                &&& forall|i: int|
                    0 <= i < candidates.len() ==> {
                        let other = (#[trigger] candidates[i]).objective;
                        let own = best.objective;
                        let spread = other.applicable_spread@ == own.applicable_spread@;
                        let moved = other.movement_assets@ == own.movement_assets@;
                        &&& result.target_reachable && other.applicable_spread@ <= band
                            ==> other.movement_assets@ >= own.movement_assets@
                        &&& result.target_reachable && moved ==> other.applicable_spread@
                            >= own.applicable_spread@
                        &&& !result.target_reachable ==> other.applicable_spread@
                            >= own.applicable_spread@
                        &&& !result.target_reachable && spread ==> other.secondary_spread@
                            >= own.secondary_spread@
                    }
            }
        }),
{
    broadcast use group_u256;

    let (problem, amounts, _) = rate_setup(
        snapshot,
        projection,
        terminal,
        vault,
        strategy,
        solver,
        episode,
        budget,
    )->Some_0;
    let first = RateProgress {
        certificate: CertificateView::begun(solver.maximum_nodes),
        candidates: Seq::empty(),
    };
    let searched = rate_amounts_from(problem, amounts, 0, first);
    let candidates = searched.candidates;
    let target = strategy.convergence_spread_spec();
    let reachable = reaches_target(candidates, target);
    let limit = solver.maximum_amount_candidates_per_position;
    let source_total = endpoint_total_from(problem.sources, 0, u256(0))->Some_0;
    let destination_total = endpoint_total_from(problem.destinations, 0, u256(0))->Some_0;
    lemma_lattices_fit(
        problem.sources,
        vault.minimum_action_assets,
        seq![budget, source_total],
        limit,
    );
    lemma_lattices_fit(
        problem.destinations,
        vault.minimum_action_assets,
        seq![budget, destination_total],
        limit,
    );
    lemma_amounts_covered(problem, amounts, 0, first);
    rate_search_is_bounded_feasible_and_optimal(
        snapshot,
        projection,
        terminal,
        vault,
        strategy,
        solver,
        episode,
        budget,
    );
    lemma_best_index(candidates, target, reachable, 0, None);
    let result = rate_search_spec(
        snapshot,
        projection,
        terminal,
        vault,
        strategy,
        solver,
        episode,
        budget,
    );
    if result.best is Some {
        let best = result.best->Some_0;
        assert forall|i: int| 0 <= i < candidates.len() implies ({
            let other = (#[trigger] candidates[i]).objective;
            let own = best.objective;
            let spread = other.applicable_spread@ == own.applicable_spread@;
            let moved = other.movement_assets@ == own.movement_assets@;
            &&& reachable ==> own.applicable_spread@ <= target@ || other.applicable_spread@
                > target@
            &&& reachable && other.applicable_spread@ <= target@ ==> other.movement_assets@
                >= own.movement_assets@
            &&& reachable && moved ==> other.applicable_spread@ >= own.applicable_spread@
                || own.applicable_spread@ > target@
            &&& !reachable ==> other.applicable_spread@ >= own.applicable_spread@
            &&& !reachable && spread ==> other.secondary_spread@ >= own.secondary_spread@
        }) by {
            let other = candidates[i].objective;
            if reachable && other.applicable_spread@ <= target@ {
                rate_plans_in_the_band_move_least(other, best.objective, target);
            }
            if !reachable {
                rate_plans_outside_the_band_spread_least(other, best.objective, target, false);
            }
        }
        if reachable {
            let i = choose|i: int|
                0 <= i < candidates.len() && (#[trigger] candidates[i]).objective.applicable_spread@
                    <= target@;
            assert(best.objective.applicable_spread@ <= target@);
        }
    }
    candidates
}

proof fn lemma_best_index(
    candidates: Seq<RateCandidateView>,
    target: U256,
    reachable: bool,
    from: int,
    best: Option<int>,
)
    requires
        0 <= from <= candidates.len(),
        best is Some ==> 0 <= best->Some_0 < candidates.len(),
    ensures
        ({
            let index = best_candidate_from(candidates, target, reachable, from, best);
            &&& index is Some ==> 0 <= index->Some_0 < candidates.len()
            &&& index is None <==> best is None && from >= candidates.len()
        }),
    decreases candidates.len() - from,
{
    if from < candidates.len() {
        let next = match best {
            None => Some(from),
            Some(index) => if ranks_before_spec(
                PlanReason::RateRebalance,
                candidates[from].objective,
                candidates[index].objective,
                target,
                reachable,
            ) {
                Some(from)
            } else {
                best
            },
        };
        lemma_best_index(candidates, target, reachable, from + 1, next);
    }
}

/// Once the full search is executable and finds a plan, the plan returned moves no more than the
/// episode has unlocked and no more than the tranche share of the full optimum.
pub proof fn rate_plans_stay_within_the_tranche(
    snapshot: ExactVaultSnapshot,
    projection: ProjectedVaultView,
    terminal: Option<&ProjectedVaultView>,
    vault: ValidatedVaultConfig,
    strategy: ValidatedStrategyConfig,
    solver: SolverConfigCanonical,
    episode: EpisodeView,
)
    requires
        episode.remaining() is Ok,
        rate_solve_spec(
            snapshot,
            projection,
            terminal,
            vault,
            strategy,
            solver,
            episode,
        ).best is Some,
    ensures
        ({
            let full = rate_search_spec(
                snapshot,
                projection,
                terminal,
                vault,
                strategy,
                solver,
                episode,
                episode.remaining()->Ok_0,
            );
            let result = rate_solve_spec(
                snapshot,
                projection,
                terminal,
                vault,
                strategy,
                solver,
                episode,
            );
            let moved = result.best->Some_0.objective.movement_assets@;
            let optimum = full.best->Some_0.objective.movement_assets@;
            let whole = full.certificate.search_complete && full.certificate.nodes_evaluated
                <= full.certificate.node_limit;
            &&& moved <= episode.remaining()->Ok_0@ || moved <= episode.available()->Ok_0@
            &&& !whole ==> result == full
            &&& whole && full.best is Some ==> {
                &&& episode.available() is Ok
                &&& moved <= episode.available()->Ok_0@
                &&& moved * 10_000 <= optimum * strategy.immediate_tranche_bps
            }
        }),
{
    let budget = episode.remaining()->Ok_0;
    rate_search_is_bounded_feasible_and_optimal(
        snapshot,
        projection,
        terminal,
        vault,
        strategy,
        solver,
        episode,
        budget,
    );
    let full = rate_search_spec(
        snapshot,
        projection,
        terminal,
        vault,
        strategy,
        solver,
        episode,
        budget,
    );
    if executable(full.certificate) && full.best is Some {
        let optimal = full.best->Some_0.objective.movement_assets;
        let unlocked = episode.available()->Ok_0;
        tranche_is_the_share_of_the_optimum(optimal, unlocked, strategy.immediate_tranche_bps);
        let limit = movement_limit_spec(optimal, unlocked, strategy.immediate_tranche_bps)->Some_0;
        rate_search_is_bounded_feasible_and_optimal(
            snapshot,
            projection,
            terminal,
            vault,
            strategy,
            solver,
            episode,
            limit,
        );
    }
}

} // verus!
