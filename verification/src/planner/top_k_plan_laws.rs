//! What top-K deployments and rebalances promise, stated on the plans they return.

use vstd::prelude::*;

use crate::collections::{
    ordered_entries, strictly_increasing, value_of, value_of_with_value, with_key,
    with_key_is_insertion, with_value, OrderedKey,
};
use crate::config::{ValidatedPositionConfig, ValidatedTopKApyConfig, ValidatedVaultConfig};
use crate::domain::{
    ActionKind, ActionView, CapRef, ExactVaultSnapshot, MarketId, ProjectedVaultView,
};
use crate::morpho::blue_math::mul_div_down_spec;
use crate::morpho::laws::{division_rounds_down, is_floor};
use crate::planner::candidates::lattice_keeps_exact_boundaries;
use crate::planner::capital::{cap_headroom_spec, cap_limited_allocation_spec, releasable_liquidity};
use crate::planner::certificate::CertificateView;
use crate::planner::distributions::{
    bounded_distributions_spec, distributes, distributions_conserve_the_total, lattices_within,
    row_total_from,
};
use crate::planner::moves::{
    acts_at, amounts_sum, endpoint_maximums, endpoint_total_from, requested_sum, Endpoint,
};
use crate::planner::objective::{
    lemma_lexicographic_irreflexive, lemma_lexicographic_transitive, lexicographically_before,
};
use crate::planner::rate::movement_actions;
use crate::planner::rate_laws::movements_withdraw_then_supply;
use crate::planner::simulation_laws::{lemma_locked_sum, locked_sum};
use crate::planner::simulator::{
    service_constraints_spec, simulation_spec, SimulationError, SimulationView,
};
use crate::planner::top_k_apy::{
    amount_of, amounts_kept_from, annualized_spec, candidate_amounts_spec, candidate_ranking,
    deficit_amount, deficit_destinations_from, deficits_filled_from, deployable_capital_spec,
    distribution_limit_spec, excess_sources_from, funded_actions, headrooms_from,
    headrooms_spent_from, last_position_from, market_place_from, markets_of_either,
    movement_candidates_spec, own_lattices, pair_sequences_from, portfolio_rate_spec,
    rebalance_amounts, rebalance_amounts_from, rebalance_assessment, rebalance_evaluated,
    rebalance_problem, rebalance_sequences_from, score_spec, simulated_assets_from, supplies,
    top_k_deployment_spec, top_k_rebalance_spec, withdrawn_from, RebalanceProblem,
    RebalanceProgress, TargetView, TopKApyError, TopKApyNoActionReason, TopKCandidateView,
    TopKDeployableCapital, TopKSolveLimits,
};
use crate::primitives::{difference, group_u256, saturating_difference, smaller, sum, u256, U256};

verus! {

/// Deployable capital is the idle above the verified locks and the liquidity released above the
/// floors, and nothing while the locks are unverified.
pub proof fn deployable_capital_leaves_locks_and_floors(
    snapshot: ExactVaultSnapshot,
    vault: ValidatedVaultConfig,
)
    requires
        deployable_capital_spec(snapshot, vault) is Ok,
    ensures
        ({
            let capital = deployable_capital_spec(snapshot, vault)->Ok_0;
            let locks = snapshot.idle_locks.locks@;
            let locked = locked_sum(locks, locks.len() as int);
            let released = releasable_liquidity(snapshot, vault);
            &&& capital.total_assets@ == capital.idle_assets@ + capital.liquidity_assets@
            &&& !snapshot.idle_locks.verified ==> capital.total_assets@ == 0
            &&& snapshot.idle_locks.verified ==> {
                &&& locked <= snapshot.parent.idle_assets@
                &&& capital.idle_assets@ == snapshot.parent.idle_assets@ - locked
                &&& released == Some(capital.liquidity_assets)
            }
        }),
{
    broadcast use group_u256;

    if snapshot.idle_locks.verified {
        lemma_locked_sum(snapshot.idle_locks.locks@, 0, u256(0));
    }
}

#[verifier::opaque]
spec fn leads(a: TopKCandidateView, b: TopKCandidateView) -> bool {
    lexicographically_before(candidate_ranking(a), candidate_ranking(b))
}

proof fn lemma_leads(a: TopKCandidateView, b: TopKCandidateView, c: TopKCandidateView)
    ensures
        !leads(a, a),
        leads(a, b) && leads(b, c) ==> leads(a, c),
{
    reveal(leads);
    lemma_lexicographic_irreflexive(candidate_ranking(a));
    if leads(a, b) && leads(b, c) {
        lemma_lexicographic_transitive(
            candidate_ranking(a),
            candidate_ranking(b),
            candidate_ranking(c),
        );
    }
}

/// Of two rebalances, the one that ends closer to the target comes first; only equal distance lets
/// the larger portfolio rate, then the smaller loss, then less movement, then fewer actions decide.
pub proof fn rebalances_rank_by_distance_then_yield(
    candidate: TopKCandidateView,
    current: TopKCandidateView,
)
    ensures
        ({
            let before = lexicographically_before(
                candidate_ranking(candidate),
                candidate_ranking(current),
            );
            let loss = candidate.state.immediate_loss_assets@;
            let other_loss = current.state.immediate_loss_assets@;
            let score = candidate.after_score_wad@ == current.after_score_wad@;
            let rate = score && candidate.after_portfolio_rate@ == current.after_portfolio_rate@;
            let lost = rate && loss == other_loss;
            let moved = lost && candidate.movement_assets@ == current.movement_assets@;
            &&& candidate.after_score_wad@ < current.after_score_wad@ ==> before
            &&& candidate.after_score_wad@ > current.after_score_wad@ ==> !before
            &&& score && candidate.after_portfolio_rate@ > current.after_portfolio_rate@ ==> before
            &&& score && candidate.after_portfolio_rate@ < current.after_portfolio_rate@ ==> !before
            &&& rate && loss < other_loss ==> before
            &&& rate && loss > other_loss ==> !before
            &&& lost && candidate.movement_assets@ < current.movement_assets@ ==> before
            &&& lost && candidate.movement_assets@ > current.movement_assets@ ==> !before
            &&& moved ==> (before <==> candidate.actions.len() < current.actions.len())
        }),
{
    reveal_with_fuel(lexicographically_before, 6);
    let a = candidate_ranking(candidate);
    let b = candidate_ranking(current);
    assert(a.drop_first() =~= a.subrange(1, 5));
    assert(b.drop_first() =~= b.subrange(1, 5));
    assert(a.drop_first().drop_first() =~= a.subrange(2, 5));
    assert(b.drop_first().drop_first() =~= b.subrange(2, 5));
    assert(a.drop_first().drop_first().drop_first() =~= a.subrange(3, 5));
    assert(b.drop_first().drop_first().drop_first() =~= b.subrange(3, 5));
    assert(a.drop_first().drop_first().drop_first().drop_first() =~= a.subrange(4, 5));
    assert(b.drop_first().drop_first().drop_first().drop_first() =~= b.subrange(4, 5));
}

proof fn lemma_withdrawn(actions: Seq<ActionView>, from: int, total: U256)
    requires
        0 <= from <= actions.len(),
        total@ == requested_sum(actions, ActionKind::Deallocate, from),
        withdrawn_from(actions, from, total) is Ok,
    ensures
        withdrawn_from(actions, from, total)->Ok_0@ == requested_sum(
            actions,
            ActionKind::Deallocate,
            actions.len() as int,
        ),
    decreases actions.len() - from,
{
    broadcast use group_u256;

    if from < actions.len() {
        if actions[from].kind == ActionKind::Allocate {
            lemma_withdrawn(actions, from + 1, total);
        } else {
            lemma_withdrawn(actions, from + 1, sum(total, actions[from].requested)->Some_0);
        }
    }
}

/// A rebalance candidate holds at most the allowed actions, simulates, meets every service floor,
/// stays within the loss bound, ends closer to the target by at least the minimum improvement, and
/// gives up no more yield than the diversification budget. It is measured by the distance and the
/// rate of the simulated portfolio and by what it withdraws.
pub proof fn rebalances_improve_at_bounded_cost(
    problem: RebalanceProblem,
    actions: Seq<ActionView>,
)
    requires
        rebalance_assessment(problem, actions) is Ok,
        rebalance_assessment(problem, actions)->Ok_0 is Ok,
    ensures
        ({
            let plan = rebalance_assessment(problem, actions)->Ok_0->Ok_0;
            let assets = simulated_assets_from(
                plan.state,
                problem.vault.positions@,
                0,
                Seq::empty(),
            );
            let before = annualized_spec(problem.before_portfolio_rate);
            let after = annualized_spec(plan.after_portfolio_rate);
            &&& plan.actions == actions
            &&& 0 < actions.len() <= problem.maximum_actions
            &&& simulation_spec(problem.snapshot, problem.projection, problem.vault, actions)
                == Ok::<SimulationView, SimulationError>(plan.state)
            &&& service_constraints_spec(plan.state, problem.snapshot, problem.vault) is Ok
            &&& plan.state.immediate_loss_assets@
                <= problem.vault.maximum_immediate_rebalance_loss_assets@
            &&& assets is Ok
            &&& score_spec(
                assets->Ok_0,
                problem.target.target_assets_by_market,
                problem.target.target_direct_assets,
            ) == Ok::<U256, TopKApyError>(plan.after_score_wad)
            &&& portfolio_rate_spec(assets->Ok_0, plan.state.markets) == Ok::<U256, TopKApyError>(
                plan.after_portfolio_rate,
            )
            &&& plan.before_score_wad == problem.target.current_score_wad
            &&& plan.before_portfolio_rate == problem.before_portfolio_rate
            &&& problem.settings.minimum_improvement_score_wad@ > 0 ==> plan.before_score_wad@
                >= plan.after_score_wad@ + problem.settings.minimum_improvement_score_wad@
            &&& before is Ok && after is Ok
            &&& after->Ok_0@ + problem.settings.maximum_diversification_cost_apy_wad@
                >= before->Ok_0@
            &&& plan.movement_assets@ == requested_sum(
                actions,
                ActionKind::Deallocate,
                actions.len() as int,
            )
        }),
{
    broadcast use group_u256;

    lemma_withdrawn(actions, 0, u256(0));
}

#[verifier::opaque]
spec fn judged(problem: RebalanceProblem, actions: Seq<ActionView>) -> Option<TopKCandidateView> {
    match rebalance_assessment(problem, actions) {
        Ok(Ok(plan)) => Some(plan),
        _ => None,
    }
}

#[verifier::opaque]
spec fn sequences_judged(
    problem: RebalanceProblem,
    amount: U256,
    sequences: Seq<Seq<ActionView>>,
    from: int,
    progress: RebalanceProgress,
) -> Result<(RebalanceProgress, bool), TopKApyError> {
    rebalance_sequences_from(problem, amount, sequences, from, progress)
}

spec fn better(
    best: Option<TopKCandidateView>,
    plan: Option<TopKCandidateView>,
) -> Option<TopKCandidateView> {
    if plan is Some && (best is None || leads(plan->Some_0, best->Some_0)) {
        plan
    } else {
        best
    }
}

proof fn lemma_sequence_step(
    problem: RebalanceProblem,
    amount: U256,
    sequences: Seq<Seq<ActionView>>,
    from: int,
    progress: RebalanceProgress,
) -> (next: RebalanceProgress)
    requires
        0 <= from < sequences.len(),
        progress.certificate.nodes_evaluated < progress.certificate.node_limit,
        sequences_judged(problem, amount, sequences, from, progress) is Ok,
    ensures
        sequences_judged(problem, amount, sequences, from, progress) == sequences_judged(
            problem,
            amount,
            sequences,
            from + 1,
            next,
        ),
        next.best == better(progress.best, judged(problem, sequences[from])),
        next.certificate.search_complete ==> progress.certificate.search_complete,
{
    reveal(sequences_judged);
    reveal(judged);
    reveal(leads);
    rebalance_evaluated(problem, amount, sequences[from], progress)->Ok_0
}

proof fn lemma_sequences_best(
    problem: RebalanceProblem,
    amount: U256,
    sequences: Seq<Seq<ActionView>>,
    from: int,
    progress: RebalanceProgress,
) -> (at: int)
    requires
        0 <= from <= sequences.len(),
        sequences_judged(problem, amount, sequences, from, progress) is Ok,
    ensures
        ({
            let (next, stopped) = sequences_judged(
                problem,
                amount,
                sequences,
                from,
                progress,
            )->Ok_0;
            &&& next.certificate.search_complete ==> !stopped
                && progress.certificate.search_complete
            &&& at < 0 ==> next.best == progress.best
            &&& at >= 0 ==> {
                &&& from <= at < sequences.len()
                &&& next.best is Some
                &&& judged(problem, sequences[at]) == next.best
                &&& progress.best is Some ==> leads(next.best->Some_0, progress.best->Some_0)
            }
            &&& !stopped ==> forall|r: int|
                from <= r < sequences.len() && (#[trigger] judged(problem, sequences[r])) is Some
                    ==> next.best is Some && !leads(
                    judged(problem, sequences[r])->Some_0,
                    next.best->Some_0,
                )
        }),
    decreases sequences.len() - from,
{
    if from >= sequences.len() || progress.certificate.nodes_evaluated
        >= progress.certificate.node_limit {
        reveal(sequences_judged);
        -1
    } else {
        let here = judged(problem, sequences[from]);
        let step = lemma_sequence_step(problem, amount, sequences, from, progress);
        let at = lemma_sequences_best(problem, amount, sequences, from + 1, step);
        let next = sequences_judged(problem, amount, sequences, from, progress)->Ok_0.0;
        let improved = here is Some && step.best == here && (progress.best is None || leads(
            here->Some_0,
            progress.best->Some_0,
        ));
        if here is Some {
            lemma_leads(here->Some_0, next.best->Some_0, step.best->Some_0);
            if progress.best is Some {
                lemma_leads(next.best->Some_0, step.best->Some_0, progress.best->Some_0);
                lemma_leads(
                    progress.best->Some_0,
                    progress.best->Some_0,
                    progress.best->Some_0,
                );
            }
        }
        if at < 0 && improved {
            from
        } else {
            at
        }
    }
}

/// Whether the amount was enumerated completely and no plan it gives leads the best one.
spec fn amount_bested(
    problem: RebalanceProblem,
    amount: U256,
    left: u64,
    best: Option<TopKCandidateView>,
) -> bool {
    let candidates = movement_candidates_spec(problem.target, problem.vault, amount, left);
    &&& candidates is Ok && candidates->Ok_0.1
    &&& forall|r: int|
        0 <= r < candidates->Ok_0.0.len() && (#[trigger] judged(
            problem,
            candidates->Ok_0.0[r],
        )) is Some ==> best is Some && !leads(
            judged(problem, candidates->Ok_0.0[r])->Some_0,
            best->Some_0,
        )
}

#[verifier::opaque]
spec fn amount_settled(
    problem: RebalanceProblem,
    amount: U256,
    best: Option<TopKCandidateView>,
) -> bool {
    exists|left: u64| #[trigger] amount_bested(problem, amount, left, best)
}

proof fn lemma_settled_kept(
    problem: RebalanceProblem,
    amount: U256,
    old_best: Option<TopKCandidateView>,
    new_best: Option<TopKCandidateView>,
)
    requires
        amount_settled(problem, amount, old_best),
        new_best == old_best || (new_best is Some && (old_best is None || leads(
            new_best->Some_0,
            old_best->Some_0,
        ))),
    ensures
        amount_settled(problem, amount, new_best),
{
    reveal(amount_settled);
    let left = choose|left: u64| #[trigger] amount_bested(problem, amount, left, old_best);
    let sequences = movement_candidates_spec(
        problem.target,
        problem.vault,
        amount,
        left,
    )->Ok_0.0;
    assert forall|r: int|
        0 <= r < sequences.len() && (#[trigger] judged(
            problem,
            sequences[r],
        )) is Some implies new_best is Some && !leads(
        judged(problem, sequences[r])->Some_0,
        new_best->Some_0,
    ) by {
        lemma_leads(
            judged(problem, sequences[r])->Some_0,
            new_best->Some_0,
            old_best->Some_0,
        );
    }
    assert(amount_bested(problem, amount, left, new_best));
}

#[verifier::opaque]
spec fn amounts_judged(
    problem: RebalanceProblem,
    amounts: Seq<U256>,
    from: int,
    progress: RebalanceProgress,
) -> Result<RebalanceProgress, TopKApyError> {
    rebalance_amounts_from(problem, amounts, from, progress)
}

/// Whether the later best plan is the earlier one or a judged plan that leads it.
spec fn advances(
    problem: RebalanceProblem,
    old_best: Option<TopKCandidateView>,
    new_best: Option<TopKCandidateView>,
) -> bool {
    new_best == old_best || (new_best is Some && (old_best is None || leads(
        new_best->Some_0,
        old_best->Some_0,
    )) && exists|actions: Seq<ActionView>| #[trigger] judged(problem, actions) == new_best)
}

/// One amount: the progress after it, and whether the search ends there.
proof fn lemma_amount_step(
    problem: RebalanceProblem,
    amounts: Seq<U256>,
    from: int,
    progress: RebalanceProgress,
) -> (r: (RebalanceProgress, bool))
    requires
        0 <= from < amounts.len(),
        amounts_judged(problem, amounts, from, progress) is Ok,
    ensures
        r.1 ==> amounts_judged(problem, amounts, from, progress) == Ok::<
            RebalanceProgress,
            TopKApyError,
        >(r.0) && !r.0.certificate.search_complete,
        !r.1 ==> amounts_judged(problem, amounts, from, progress) == amounts_judged(
            problem,
            amounts,
            from + 1,
            r.0,
        ),
        !r.1 ==> amount_settled(problem, amounts[from], r.0.best),
        r.0.certificate.search_complete ==> progress.certificate.search_complete,
        advances(problem, progress.best, r.0.best),
{
    reveal(amounts_judged);
    if progress.certificate.nodes_evaluated >= progress.certificate.node_limit {
        (RebalanceProgress { certificate: progress.certificate.incomplete(), ..progress }, true)
    } else {
        let left = (progress.certificate.node_limit - progress.certificate.nodes_evaluated) as u64;
        let (sequences, complete) = movement_candidates_spec(
            problem.target,
            problem.vault,
            amounts[from],
            left,
        )->Ok_0;
        if !complete {
            (RebalanceProgress { certificate: progress.certificate.incomplete(), ..progress }, true)
        } else {
            assert(sequences_judged(problem, amounts[from], sequences, 0, progress)
                == rebalance_sequences_from(problem, amounts[from], sequences, 0, progress)) by {
                reveal(sequences_judged);
            }
            let at = lemma_sequences_best(problem, amounts[from], sequences, 0, progress);
            let (step, stopped) = sequences_judged(
                problem,
                amounts[from],
                sequences,
                0,
                progress,
            )->Ok_0;
            if at >= 0 {
                assert(judged(problem, sequences[at]) == step.best);
            }
            if !stopped {
                assert(amount_bested(problem, amounts[from], left, step.best));
                reveal(amount_settled);
            }
            (step, stopped)
        }
    }
}

proof fn lemma_amounts_best(
    problem: RebalanceProblem,
    amounts: Seq<U256>,
    from: int,
    progress: RebalanceProgress,
)
    requires
        0 <= from <= amounts.len(),
        amounts_judged(problem, amounts, from, progress) is Ok,
    ensures
        ({
            let next = amounts_judged(problem, amounts, from, progress)->Ok_0;
            &&& next.certificate.search_complete ==> progress.certificate.search_complete
            &&& advances(problem, progress.best, next.best)
            &&& next.certificate.search_complete ==> forall|k: int|
                from <= k < amounts.len() ==> amount_settled(
                    problem,
                    #[trigger] amounts[k],
                    next.best,
                )
        }),
    decreases amounts.len() - from,
{
    if from >= amounts.len() {
        reveal(amounts_judged);
    } else {
        let (step, over) = lemma_amount_step(problem, amounts, from, progress);
        if !over {
            lemma_amounts_best(problem, amounts, from + 1, step);
            let next = amounts_judged(problem, amounts, from, progress)->Ok_0;
            lemma_settled_kept(problem, amounts[from], step.best, next.best);
            if progress.best is Some && next.best is Some {
                lemma_leads(next.best->Some_0, step.best->Some_0, progress.best->Some_0);
            }
        }
    }
}

/// Whether no plan of a complete enumeration of the amount ends closer to the target than `best`
/// or, equally close, earns a larger portfolio rate, or, earning as much, loses less.
pub open spec fn no_plan_beats(
    problem: RebalanceProblem,
    amount: U256,
    left: u64,
    best: Option<TopKCandidateView>,
) -> bool {
    let candidates = movement_candidates_spec(problem.target, problem.vault, amount, left);
    let sequences = candidates->Ok_0.0;
    &&& candidates is Ok && candidates->Ok_0.1
    &&& forall|r: int|
        0 <= r < sequences.len() && (#[trigger] rebalance_assessment(problem, sequences[r])) is Ok
            && rebalance_assessment(problem, sequences[r])->Ok_0 is Ok ==> {
            let other = rebalance_assessment(problem, sequences[r])->Ok_0->Ok_0;
            let own = best->Some_0;
            let score = other.after_score_wad@ == own.after_score_wad@;
            let rate = score && other.after_portfolio_rate@ == own.after_portfolio_rate@;
            &&& best is Some
            &&& other.after_score_wad@ >= own.after_score_wad@
            &&& score ==> other.after_portfolio_rate@ <= own.after_portfolio_rate@
            &&& rate ==> other.state.immediate_loss_assets@ >= own.state.immediate_loss_assets@
        }
}

/// Whether some complete enumeration of the amount holds no plan that beats `best`.
#[verifier::opaque]
pub open spec fn unbeaten(
    problem: RebalanceProblem,
    amount: U256,
    best: Option<TopKCandidateView>,
) -> bool {
    exists|left: u64| #[trigger] no_plan_beats(problem, amount, left, best)
}

/// Whether the plan is what assessing some sequence of actions gives.
#[verifier::opaque]
pub open spec fn is_assessed(problem: RebalanceProblem, plan: TopKCandidateView) -> bool {
    exists|actions: Seq<ActionView>|
        (#[trigger] rebalance_assessment(problem, actions)) is Ok && rebalance_assessment(
            problem,
            actions,
        )->Ok_0 is Ok && rebalance_assessment(problem, actions)->Ok_0->Ok_0 == plan
}

/// A complete rebalance search returns the best of everything it enumerated: no plan of any of its
/// amounts ends closer to the target, or equally close at a larger rate, or equally good at a
/// smaller loss. Nothing is done at or below the target distance or below the entry distance.
pub proof fn rebalance_is_optimal(
    snapshot: ExactVaultSnapshot,
    projection: ProjectedVaultView,
    vault: ValidatedVaultConfig,
    settings: ValidatedTopKApyConfig,
    target: TargetView,
    limits: TopKSolveLimits,
)
    requires
        top_k_rebalance_spec(snapshot, projection, vault, settings, target, limits) is Ok,
    ensures
        ({
            let result = top_k_rebalance_spec(
                snapshot,
                projection,
                vault,
                settings,
                target,
                limits,
            )->Ok_0;
            let problem = rebalance_problem(
                snapshot,
                projection,
                vault,
                settings,
                target,
                limits,
            );
            let amounts = rebalance_amounts(vault, target, limits);
            let distance = target.current_score_wad@;
            let idle = distance <= settings.target_score_wad@ || distance
                < settings.entry_score_wad@;
            &&& distance <= settings.target_score_wad@ ==> result.no_action_reason == Some(
                TopKApyNoActionReason::TargetReached,
            )
            &&& settings.target_score_wad@ < distance < settings.entry_score_wad@
                ==> result.no_action_reason == Some(TopKApyNoActionReason::BelowEntryScore)
            &&& idle ==> result.best is None
            &&& result.best is Some ==> is_assessed(problem, result.best->Some_0)
            &&& !idle && result.certificate.search_complete ==> forall|k: int|
                0 <= k < amounts.len() ==> unbeaten(problem, #[trigger] amounts[k], result.best)
        }),
{
    let distance = target.current_score_wad@;
    if distance > settings.target_score_wad@ && distance >= settings.entry_score_wad@ {
        let problem = rebalance_problem(snapshot, projection, vault, settings, target, limits);
        let amounts = rebalance_amounts(vault, target, limits);
        let first = RebalanceProgress {
            certificate: CertificateView::begun(limits.maximum_nodes),
            identity: crate::planner::candidates::words_from(amounts, 0, Seq::empty()),
            best: None,
            small_improvement: false,
        };
        let result = top_k_rebalance_spec(
            snapshot,
            projection,
            vault,
            settings,
            target,
            limits,
        )->Ok_0;
        assert(amounts_judged(problem, amounts, 0, first) is Ok && amounts_judged(
            problem,
            amounts,
            0,
            first,
        )->Ok_0.best == result.best && amounts_judged(
            problem,
            amounts,
            0,
            first,
        )->Ok_0.certificate.search_complete == result.certificate.search_complete) by {
            reveal(amounts_judged);
        }
        lemma_amounts_best(problem, amounts, 0, first);
        if result.best is Some {
            let actions = choose|actions: Seq<ActionView>| #[trigger]
                judged(problem, actions) == result.best;
            lemma_assessed(problem, actions, result.best->Some_0);
        }
        if result.certificate.search_complete {
            assert forall|k: int| 0 <= k < amounts.len() implies unbeaten(
                problem,
                #[trigger] amounts[k],
                result.best,
            ) by {
                lemma_unbeaten(problem, amounts[k], result.best);
            }
        }
    }
}

proof fn lemma_assessed(
    problem: RebalanceProblem,
    actions: Seq<ActionView>,
    plan: TopKCandidateView,
)
    requires
        judged(problem, actions) == Some(plan),
    ensures
        is_assessed(problem, plan),
{
    reveal(judged);
    reveal(is_assessed);
    assert(rebalance_assessment(problem, actions) is Ok);
}

proof fn lemma_unbeaten(
    problem: RebalanceProblem,
    amount: U256,
    best: Option<TopKCandidateView>,
)
    requires
        amount_settled(problem, amount, best),
    ensures
        unbeaten(problem, amount, best),
{
    reveal(amount_settled);
    reveal(unbeaten);
    let left = choose|left: u64| #[trigger] amount_bested(problem, amount, left, best);
    lemma_bested(problem, amount, left, best);
}

proof fn lemma_bested(
    problem: RebalanceProblem,
    amount: U256,
    left: u64,
    best: Option<TopKCandidateView>,
)
    requires
        amount_bested(problem, amount, left, best),
    ensures
        no_plan_beats(problem, amount, left, best),
{
    let sequences = movement_candidates_spec(
        problem.target,
        problem.vault,
        amount,
        left,
    )->Ok_0.0;
    assert forall|r: int|
        0 <= r < sequences.len() && (#[trigger] rebalance_assessment(problem, sequences[r])) is Ok
            && rebalance_assessment(problem, sequences[r])->Ok_0 is Ok implies ({
        let other = rebalance_assessment(problem, sequences[r])->Ok_0->Ok_0;
        let own = best->Some_0;
        let score = other.after_score_wad@ == own.after_score_wad@;
        let rate = score && other.after_portfolio_rate@ == own.after_portfolio_rate@;
        &&& best is Some
        &&& other.after_score_wad@ >= own.after_score_wad@
        &&& score ==> other.after_portfolio_rate@ <= own.after_portfolio_rate@
        &&& rate ==> other.state.immediate_loss_assets@ >= own.state.immediate_loss_assets@
    }) by {
        let other = rebalance_assessment(problem, sequences[r])->Ok_0->Ok_0;
        assert(judged(problem, sequences[r]) == Some(other)) by {
            reveal(judged);
        }
        assert(!lexicographically_before(
            candidate_ranking(other),
            candidate_ranking(best->Some_0),
        )) by {
            reveal(leads);
        }
        rebalances_rank_by_distance_then_yield(other, best->Some_0);
    }
}

proof fn lemma_last_position(
    positions: Seq<ValidatedPositionConfig>,
    market: MarketId,
    from: int,
    found: Option<ValidatedPositionConfig>,
)
    requires
        0 <= from <= positions.len(),
        found is Some ==> positions.contains(found->Some_0) && found->Some_0.market_id == market,
    ensures
        ({
            let last = last_position_from(positions, market, from, found);
            last is Some ==> positions.contains(last->Some_0) && last->Some_0.market_id == market
        }),
    decreases positions.len() - from,
{
    if from < positions.len() {
        let next = if positions[from].market_id == market {
            Some(positions[from])
        } else {
            found
        };
        lemma_last_position(positions, market, from + 1, next);
    }
}

/// Whether the endpoint is a configured position that holds more than its target, and the amount is
/// the largest withdrawal that the excess, the action bound and the position minimum allow.
pub open spec fn is_excess_source(
    target: TargetView,
    positions: Seq<ValidatedPositionConfig>,
    endpoint: Endpoint,
) -> bool {
    let configured = endpoint.0;
    let amount = endpoint.1@;
    let held = value_of(target.current_assets_by_market, configured.market_id);
    let current = held->Some_0@;
    let wanted = value_of(target.target_assets_by_market, configured.market_id);
    let desired: int = if wanted is Some {
        wanted->Some_0@ as int
    } else {
        0
    };
    &&& positions.contains(configured)
    &&& held is Some
    &&& 0 < amount <= configured.maximum_action_assets@
    &&& current >= desired + amount
    &&& current >= configured.minimum_position_assets@ + amount
    &&& amount == configured.maximum_action_assets@ || current == desired + amount || current
        == configured.minimum_position_assets@ + amount
}

proof fn lemma_excess_sources(
    target: TargetView,
    positions: Seq<ValidatedPositionConfig>,
    markets: Seq<MarketId>,
    from: int,
    done: Seq<Endpoint>,
)
    requires
        0 <= from <= markets.len(),
        forall|i: int|
            0 <= i < done.len() ==> is_excess_source(target, positions, #[trigger] done[i]),
    ensures
        ({
            let all = excess_sources_from(target, positions, markets, from, done);
            forall|i: int|
                0 <= i < all.len() ==> is_excess_source(target, positions, #[trigger] all[i])
        }),
    decreases markets.len() - from,
{
    broadcast use group_u256;

    if from < markets.len() {
        lemma_last_position(positions, markets[from], 0, None);
        let held = value_of(target.current_assets_by_market, markets[from]);
        let last = last_position_from(positions, markets[from], 0, None);
        if held is Some && last is Some {
            let current = held->Some_0;
            let configured = last->Some_0;
            let available = smaller(
                smaller(
                    saturating_difference(
                        current,
                        amount_of(target.target_assets_by_market, markets[from]),
                    ),
                    configured.maximum_action_assets,
                ),
                saturating_difference(current, configured.minimum_position_assets),
            );
            if available@ > 0 {
                assert(is_excess_source(target, positions, (configured, available)));
                let next = done.push((configured, available));
                assert(excess_sources_from(target, positions, markets, from, done)
                    == excess_sources_from(target, positions, markets, from + 1, next));
                lemma_excess_sources(target, positions, markets, from + 1, next);
            } else {
                assert(excess_sources_from(target, positions, markets, from, done)
                    == excess_sources_from(target, positions, markets, from + 1, done));
                lemma_excess_sources(target, positions, markets, from + 1, done);
            }
        } else {
            assert(excess_sources_from(target, positions, markets, from, done)
                == excess_sources_from(target, positions, markets, from + 1, done));
            lemma_excess_sources(target, positions, markets, from + 1, done);
        }
    }
}

/// Whether the endpoint is a configured position of a selected market that holds less than its
/// target, and the amount is the largest supply that the deficit, the action bound and the observed
/// capacity allow.
pub open spec fn is_deficit_destination(
    target: TargetView,
    positions: Seq<ValidatedPositionConfig>,
    endpoint: Endpoint,
) -> bool {
    let configured = endpoint.0;
    let amount = endpoint.1@;
    let market = configured.market_id;
    let current = value_of(target.current_assets_by_market, market);
    let desired = value_of(target.target_assets_by_market, market);
    let evidence = value_of(target.evidence_by_market, market);
    &&& positions.contains(configured)
    &&& target.selected_markets.contains(market)
    &&& current is Some && desired is Some && evidence is Some
    &&& 0 < amount <= configured.maximum_action_assets@
    &&& current->Some_0@ + amount <= desired->Some_0@
    &&& amount <= evidence->Some_0.destination_capacity@
    &&& amount == configured.maximum_action_assets@ || current->Some_0@ + amount
        == desired->Some_0@ || amount == evidence->Some_0.destination_capacity@
}

proof fn lemma_market_place(sorted: Seq<Endpoint>, endpoint: Endpoint, from: int)
    requires
        0 <= from <= sorted.len(),
    ensures
        from <= market_place_from(sorted, endpoint, from) <= sorted.len(),
    decreases sorted.len() - from,
{
    if from < sorted.len() {
        lemma_market_place(sorted, endpoint, from + 1);
    }
}

proof fn lemma_deficit_destinations(
    target: TargetView,
    positions: Seq<ValidatedPositionConfig>,
    from: int,
    sorted: Seq<Endpoint>,
)
    requires
        0 <= from <= target.selected_markets.len(),
        forall|i: int|
            0 <= i < sorted.len() ==> is_deficit_destination(
                target,
                positions,
                #[trigger] sorted[i],
            ),
    ensures
        ({
            let all = deficit_destinations_from(target, positions, from, sorted);
            forall|i: int|
                0 <= i < all.len() ==> is_deficit_destination(target, positions, #[trigger] all[i])
        }),
    decreases target.selected_markets.len() - from,
{
    broadcast use group_u256;

    if from < target.selected_markets.len() {
        let market = target.selected_markets[from];
        lemma_last_position(positions, market, 0, None);
        let held = value_of(target.current_assets_by_market, market);
        let wanted = value_of(target.target_assets_by_market, market);
        let last = last_position_from(positions, market, 0, None);
        let observed = value_of(target.evidence_by_market, market);
        if held is Some && wanted is Some && last is Some && observed is Some {
            let configured = last->Some_0;
            let available = smaller(
                smaller(
                    saturating_difference(wanted->Some_0, held->Some_0),
                    configured.maximum_action_assets,
                ),
                observed->Some_0.destination_capacity,
            );
            if available@ > 0 {
                let endpoint = (configured, available);
                assert(target.selected_markets.contains(market));
                assert(is_deficit_destination(target, positions, endpoint));
                lemma_market_place(sorted, endpoint, 0);
                let at = market_place_from(sorted, endpoint, 0);
                let next = sorted.insert(at, endpoint);
                assert forall|i: int| 0 <= i < next.len() implies is_deficit_destination(
                    target,
                    positions,
                    #[trigger] next[i],
                ) by {
                    if i < at {
                        assert(next[i] == sorted[i]);
                    } else if i > at {
                        assert(next[i] == sorted[i - 1]);
                    }
                }
                assert(deficit_destinations_from(target, positions, from, sorted)
                    == deficit_destinations_from(target, positions, from + 1, next));
                lemma_deficit_destinations(target, positions, from + 1, next);
            } else {
                assert(deficit_destinations_from(target, positions, from, sorted)
                    == deficit_destinations_from(target, positions, from + 1, sorted));
                lemma_deficit_destinations(target, positions, from + 1, sorted);
            }
        } else {
            assert(deficit_destinations_from(target, positions, from, sorted)
                == deficit_destinations_from(target, positions, from + 1, sorted));
            lemma_deficit_destinations(target, positions, from + 1, sorted);
        }
    }
}

/// Rebalances withdraw only from positions above their target and supply only selected markets below
/// theirs, each within its own limits.
pub proof fn rebalances_move_from_excess_to_deficit(
    target: TargetView,
    positions: Seq<ValidatedPositionConfig>,
)
    ensures
        ({
            let sources = excess_sources_from(
                target,
                positions,
                markets_of_either(
                    target.current_assets_by_market,
                    target.target_assets_by_market,
                ),
                0,
                Seq::empty(),
            );
            let destinations = deficit_destinations_from(target, positions, 0, Seq::empty());
            &&& forall|i: int|
                0 <= i < sources.len() ==> is_excess_source(
                    target,
                    positions,
                    #[trigger] sources[i],
                )
            &&& forall|i: int|
                0 <= i < destinations.len() ==> is_deficit_destination(
                    target,
                    positions,
                    #[trigger] destinations[i],
                )
        }),
{
    lemma_excess_sources(
        target,
        positions,
        markets_of_either(target.current_assets_by_market, target.target_assets_by_market),
        0,
        Seq::empty(),
    );
    lemma_deficit_destinations(target, positions, 0, Seq::empty());
}

/// Sum of the first `count` endpoint maximums.
pub open spec fn endpoint_sum(endpoints: Seq<Endpoint>, count: int) -> int
    decreases count,
{
    if count <= 0 {
        0
    } else {
        endpoint_sum(endpoints, count - 1) + endpoints[count - 1].1@
    }
}

proof fn lemma_endpoint_total(endpoints: Seq<Endpoint>, from: int, total: U256)
    requires
        0 <= from <= endpoints.len(),
        total@ == endpoint_sum(endpoints, from),
        endpoint_total_from(endpoints, from, total) is Some,
    ensures
        endpoint_total_from(endpoints, from, total)->Some_0@ == endpoint_sum(
            endpoints,
            endpoints.len() as int,
        ),
    decreases endpoints.len() - from,
{
    broadcast use group_u256;

    if from < endpoints.len() {
        lemma_endpoint_total(endpoints, from + 1, sum(total, endpoints[from].1)->Some_0);
    }
}

/// Whether the actions withdraw and supply exactly the movement, at the given endpoints only and
/// within their maximums.
pub open spec fn moves_exactly(
    sources: Seq<Endpoint>,
    destinations: Seq<Endpoint>,
    movement: int,
    actions: Seq<ActionView>,
) -> bool {
    let count = actions.len() as int;
    &&& requested_sum(actions, ActionKind::Deallocate, count) == movement
    &&& requested_sum(actions, ActionKind::Allocate, count) == movement
    &&& forall|i: int|
        0 <= i < actions.len() ==> {
            let action = #[trigger] actions[i];
            ||| exists|j: int, amount: U256|
                0 <= j < sources.len() && #[trigger] acts_at(
                    action,
                    ActionKind::Deallocate,
                    sources[j],
                    amount,
                ) && amount@ <= sources[j].1@
            ||| exists|j: int, amount: U256|
                0 <= j < destinations.len() && #[trigger] acts_at(
                    action,
                    ActionKind::Allocate,
                    destinations[j],
                    amount,
                ) && amount@ <= destinations[j].1@
        }
}

proof fn lemma_row_sum(row: Seq<U256>, from: int)
    requires
        0 <= from <= row.len(),
    ensures
        amounts_sum(row, from) + row_total_from(row, from) == amounts_sum(row, row.len() as int),
    decreases row.len() - from,
{
    if from < row.len() {
        lemma_row_sum(row, from + 1);
        assert(amounts_sum(row, from + 1) == amounts_sum(row, from) + row[from]@);
    }
}

proof fn lemma_pair_moves(
    sources: Seq<Endpoint>,
    destinations: Seq<Endpoint>,
    source_row: Seq<U256>,
    destination_row: Seq<U256>,
    movement: U256,
    minimum_action: U256,
)
    requires
        distributes(source_row, endpoint_maximums(sources), movement, minimum_action),
        distributes(destination_row, endpoint_maximums(destinations), movement, minimum_action),
    ensures
        moves_exactly(
            sources,
            destinations,
            movement@ as int,
            movement_actions(sources, source_row, destinations, destination_row),
        ),
{
    let actions = movement_actions(sources, source_row, destinations, destination_row);
    let first = movements_withdraw_then_supply(sources, source_row, destinations, destination_row);
    lemma_row_sum(source_row, 0);
    lemma_row_sum(destination_row, 0);
    assert forall|i: int| 0 <= i < actions.len() implies ({
        let action = #[trigger] actions[i];
        ||| exists|j: int, amount: U256|
            0 <= j < sources.len() && #[trigger] acts_at(
                action,
                ActionKind::Deallocate,
                sources[j],
                amount,
            ) && amount@ <= sources[j].1@
        ||| exists|j: int, amount: U256|
            0 <= j < destinations.len() && #[trigger] acts_at(
                action,
                ActionKind::Allocate,
                destinations[j],
                amount,
            ) && amount@ <= destinations[j].1@
    }) by {
        if i < first {
            let j = choose|j: int|
                0 <= j < sources.len() && acts_at(
                    actions[i],
                    ActionKind::Deallocate,
                    #[trigger] sources[j],
                    source_row[j],
                );
            assert(source_row[j]@ <= endpoint_maximums(sources)[j]@);
            assert(acts_at(actions[i], ActionKind::Deallocate, sources[j], source_row[j]));
        } else {
            let j = choose|j: int|
                0 <= j < destinations.len() && acts_at(
                    actions[i],
                    ActionKind::Allocate,
                    #[trigger] destinations[j],
                    destination_row[j],
                );
            assert(destination_row[j]@ <= endpoint_maximums(destinations)[j]@);
            assert(acts_at(actions[i], ActionKind::Allocate, destinations[j], destination_row[j]));
        }
    }
}

proof fn lemma_pair_sequences(
    sources: Seq<Endpoint>,
    destinations: Seq<Endpoint>,
    source_rows: Seq<Seq<U256>>,
    destination_rows: Seq<Seq<U256>>,
    movement: U256,
    minimum_action: U256,
    limit: nat,
    i: int,
    j: int,
    done: Seq<Seq<ActionView>>,
)
    requires
        0 <= i,
        0 <= j <= destination_rows.len(),
        forall|a: int|
            0 <= a < source_rows.len() ==> distributes(
                #[trigger] source_rows[a],
                endpoint_maximums(sources),
                movement,
                minimum_action,
            ),
        forall|b: int|
            0 <= b < destination_rows.len() ==> distributes(
                #[trigger] destination_rows[b],
                endpoint_maximums(destinations),
                movement,
                minimum_action,
            ),
        forall|k: int|
            0 <= k < done.len() ==> moves_exactly(
                sources,
                destinations,
                movement@ as int,
                #[trigger] done[k],
            ),
    ensures
        ({
            let (all, complete) = pair_sequences_from(
                sources,
                destinations,
                source_rows,
                destination_rows,
                limit,
                i,
                j,
                done,
            );
            &&& done.len() <= all.len()
            &&& forall|k: int|
                0 <= k < all.len() ==> moves_exactly(
                    sources,
                    destinations,
                    movement@ as int,
                    #[trigger] all[k],
                )
            &&& complete && i < source_rows.len() ==> all.len() == done.len() + (
            source_rows.len() - i) * destination_rows.len() - j
        }),
    decreases source_rows.len() - i, destination_rows.len() - j,
{
    if i < source_rows.len() {
        if j >= destination_rows.len() {
            lemma_pair_sequences(
                sources,
                destinations,
                source_rows,
                destination_rows,
                movement,
                minimum_action,
                limit,
                i + 1,
                0,
                done,
            );
            let n = source_rows.len() - i;
            let m = destination_rows.len() as int;
            assert(n * m - m == (n - 1) * m) by (nonlinear_arith);
            assert(n == 1 ==> n * m == m) by (nonlinear_arith);
        } else if done.len() < limit {
            let actions = movement_actions(
                sources,
                source_rows[i],
                destinations,
                destination_rows[j],
            );
            lemma_pair_moves(
                sources,
                destinations,
                source_rows[i],
                destination_rows[j],
                movement,
                minimum_action,
            );
            lemma_pair_sequences(
                sources,
                destinations,
                source_rows,
                destination_rows,
                movement,
                minimum_action,
                limit,
                i,
                j + 1,
                done.push(actions),
            );
        }
    }
}

proof fn lemma_own_lattices(maximums: Seq<U256>, minimum_action: U256)
    ensures
        lattices_within(own_lattices(maximums, minimum_action), maximums),
{
    let lattices = own_lattices(maximums, minimum_action);
    assert forall|i: int, k: int|
        0 <= i < lattices.len() && 0 <= k < lattices[i].len() implies (
    #[trigger] lattices[i][k])@ <= maximums[i]@ by {
        lattice_keeps_exact_boundaries(minimum_action, maximums[i], seq![maximums[i]], 8);
    }
}

/// Every sequence enumerated for a requested movement withdraws and supplies the same amount: what
/// was requested, limited by what the sources can give and the destinations can take.
pub proof fn rebalance_sequences_conserve_assets(
    target: TargetView,
    vault: ValidatedVaultConfig,
    requested_movement: U256,
    maximum_nodes: u64,
)
    requires
        movement_candidates_spec(target, vault, requested_movement, maximum_nodes) is Ok,
    ensures
        ({
            let (sequences, complete) = movement_candidates_spec(
                target,
                vault,
                requested_movement,
                maximum_nodes,
            )->Ok_0;
            let sources = excess_sources_from(
                target,
                vault.positions@,
                markets_of_either(
                    target.current_assets_by_market,
                    target.target_assets_by_market,
                ),
                0,
                Seq::empty(),
            );
            let destinations = deficit_destinations_from(
                target,
                vault.positions@,
                0,
                Seq::empty(),
            );
            let give = endpoint_sum(sources, sources.len() as int);
            let take = endpoint_sum(destinations, destinations.len() as int);
            let least = if give <= take {
                give
            } else {
                take
            };
            let movement = if requested_movement@ <= least {
                requested_movement@ as int
            } else {
                least
            };
            forall|k: int|
                0 <= k < sequences.len() ==> moves_exactly(
                    sources,
                    destinations,
                    movement,
                    #[trigger] sequences[k],
                )
        }),
{
    broadcast use group_u256;

    let sources = excess_sources_from(
        target,
        vault.positions@,
        markets_of_either(target.current_assets_by_market, target.target_assets_by_market),
        0,
        Seq::empty(),
    );
    let destinations = deficit_destinations_from(target, vault.positions@, 0, Seq::empty());
    lemma_endpoint_total(sources, 0, u256(0));
    lemma_endpoint_total(destinations, 0, u256(0));
    let source_total = endpoint_total_from(sources, 0, u256(0))->Some_0;
    let destination_total = endpoint_total_from(destinations, 0, u256(0))->Some_0;
    let movement = smaller(smaller(requested_movement, source_total), destination_total);
    let minimum = vault.minimum_action_assets;
    let limit = distribution_limit_spec(maximum_nodes);
    let from = endpoint_maximums(sources);
    let to = endpoint_maximums(destinations);
    lemma_own_lattices(from, minimum);
    lemma_own_lattices(to, minimum);
    let source_rows = bounded_distributions_spec(
        from,
        own_lattices(from, minimum),
        movement,
        minimum,
        limit,
    );
    let destination_rows = bounded_distributions_spec(
        to,
        own_lattices(to, minimum),
        movement,
        minimum,
        limit,
    );
    if movement@ > 0 && source_rows is Some && destination_rows is Some {
        distributions_conserve_the_total(
            from,
            own_lattices(from, minimum),
            movement,
            minimum,
            limit,
        );
        distributions_conserve_the_total(to, own_lattices(to, minimum), movement, minimum, limit);
        lemma_pair_sequences(
            sources,
            destinations,
            source_rows->Some_0,
            destination_rows->Some_0,
            movement,
            minimum,
            limit,
            0,
            0,
            Seq::empty(),
        );
    }
}

/// Whether the endpoint is a configured position of a selected market below its target, with an
/// amount of at least the minimum action that its deficit, the action bound, the observed capacity
/// and its caps all cover.
pub open spec fn is_filled_deficit(
    snapshot: ExactVaultSnapshot,
    projection: ProjectedVaultView,
    vault: ValidatedVaultConfig,
    target: TargetView,
    endpoint: Endpoint,
) -> bool {
    let configured = endpoint.0;
    let amount = endpoint.1@;
    let market = configured.market_id;
    let current = value_of(target.current_assets_by_market, market);
    let desired = value_of(target.target_assets_by_market, market);
    let evidence = value_of(target.evidence_by_market, market);
    let capped = cap_limited_allocation_spec(snapshot, projection, configured.position_key);
    &&& vault.positions@.contains(configured)
    &&& target.selected_markets.contains(market)
    &&& current is Some && desired is Some && evidence is Some && capped is Some
    &&& amount >= vault.minimum_action_assets@
    &&& amount <= configured.maximum_action_assets@
    &&& amount > 0 ==> current->Some_0@ + amount <= desired->Some_0@
    &&& amount <= evidence->Some_0.destination_capacity@
    &&& amount <= capped->Some_0@
}

/// Amount the first `count` endpoints put under one cap.
pub open spec fn cap_use(
    snapshot: ExactVaultSnapshot,
    endpoints: Seq<Endpoint>,
    cap: CapRef,
    count: int,
) -> int
    decreases count,
{
    if count <= 0 {
        0
    } else {
        let position = value_of(snapshot.positions@, endpoints[count - 1].0.position_key);
        cap_use(snapshot, endpoints, cap, count - 1) + if position is Some
            && position->Some_0.affected_caps@.contains(cap) {
            endpoints[count - 1].1@ as int
        } else {
            0
        }
    }
}

proof fn lemma_use_prefix(
    snapshot: ExactVaultSnapshot,
    left: Seq<Endpoint>,
    right: Seq<Endpoint>,
    cap: CapRef,
    count: int,
)
    requires
        0 <= count <= left.len(),
        count <= right.len(),
        forall|i: int| 0 <= i < count ==> left[i] == right[i],
    ensures
        cap_use(snapshot, left, cap, count) == cap_use(snapshot, right, cap, count),
        endpoint_sum(left, count) == endpoint_sum(right, count),
    decreases count,
{
    if count > 0 {
        lemma_use_prefix(snapshot, left, right, cap, count - 1);
    }
}

proof fn lemma_headrooms_spent(
    headrooms: Seq<(CapRef, U256)>,
    affected: [CapRef; 3],
    amount: U256,
    from: int,
    cap: CapRef,
)
    requires
        0 <= from <= 3,
        ordered_entries(headrooms),
        headrooms_spent_from(headrooms, affected, amount, from) is Ok,
    ensures
        ({
            let left = headrooms_spent_from(headrooms, affected, amount, from)->Ok_0;
            &&& ordered_entries(left)
            &&& value_of(headrooms, cap) is Some <==> value_of(left, cap) is Some
            &&& value_of(headrooms, cap) is Some ==> value_of(left, cap)->Some_0@ <= value_of(
                headrooms,
                cap,
            )->Some_0@
            &&& (exists|k: int| from <= k < 3 && #[trigger] affected@[k] == cap) ==> value_of(
                headrooms,
                cap,
            ) is Some && value_of(left, cap)->Some_0@ + amount@ <= value_of(
                headrooms,
                cap,
            )->Some_0@
        }),
    decreases 3 - from,
{
    broadcast use group_u256;

    if from < 3 {
        let key = affected@[from];
        let rest = difference(value_of(headrooms, key)->Some_0, amount)->Some_0;
        value_of_with_value(headrooms, key, rest, cap);
        let next = with_value(headrooms, key, rest);
        lemma_headrooms_spent(next, affected, amount, from + 1, cap);
        if exists|k: int| from <= k < 3 && #[trigger] affected@[k] == cap {
            let k = choose|k: int| from <= k < 3 && #[trigger] affected@[k] == cap;
            if k > from {
                assert(from + 1 <= k < 3 && affected@[k] == cap);
            }
        }
    }
}

proof fn lemma_deficits_filled(
    snapshot: ExactVaultSnapshot,
    projection: ProjectedVaultView,
    vault: ValidatedVaultConfig,
    target: TargetView,
    from: int,
    headrooms: Seq<(CapRef, U256)>,
    remaining: U256,
    done: Seq<Endpoint>,
    deployment: int,
    cap: CapRef,
    room: int,
)
    requires
        0 <= from <= target.selected_markets.len(),
        ordered_entries(headrooms),
        endpoint_sum(done, done.len() as int) + remaining@ == deployment,
        value_of(headrooms, cap) is Some ==> value_of(headrooms, cap)->Some_0@ + cap_use(
            snapshot,
            done,
            cap,
            done.len() as int,
        ) <= room,
        value_of(headrooms, cap) is None ==> cap_use(snapshot, done, cap, done.len() as int) == 0,
        forall|i: int|
            0 <= i < done.len() ==> is_filled_deficit(
                snapshot,
                projection,
                vault,
                target,
                #[trigger] done[i],
            ),
        deficits_filled_from(
            snapshot,
            projection,
            vault,
            target,
            from,
            headrooms,
            remaining,
            done,
        ) is Ok,
    ensures
        ({
            let (all, rest) = deficits_filled_from(
                snapshot,
                projection,
                vault,
                target,
                from,
                headrooms,
                remaining,
                done,
            )->Ok_0;
            let used = cap_use(snapshot, all, cap, all.len() as int);
            &&& endpoint_sum(all, all.len() as int) + rest@ == deployment
            &&& value_of(headrooms, cap) is Some ==> used <= room
            &&& value_of(headrooms, cap) is None ==> used == 0
            &&& forall|i: int|
                0 <= i < all.len() ==> is_filled_deficit(
                    snapshot,
                    projection,
                    vault,
                    target,
                    #[trigger] all[i],
                )
        }),
    decreases target.selected_markets.len() - from,
{
    broadcast use group_u256;

    if from < target.selected_markets.len() && remaining@ > 0 {
        let market = target.selected_markets[from];
        lemma_last_position(vault.positions@, market, 0, None);
        let (configured, affected, amount) = deficit_amount(
            snapshot,
            projection,
            vault,
            target,
            market,
            headrooms,
            remaining,
        )->Ok_0;
        if amount@ < vault.minimum_action_assets@ {
            lemma_deficits_filled(
                snapshot,
                projection,
                vault,
                target,
                from + 1,
                headrooms,
                remaining,
                done,
                deployment,
                cap,
                room,
            );
        } else {
            let left = headrooms_spent_from(headrooms, affected, amount, 0)->Ok_0;
            lemma_headrooms_spent(headrooms, affected, amount, 0, cap);
            let rest = difference(remaining, amount)->Some_0;
            let endpoint = (configured, amount);
            let next = done.push(endpoint);
            assert(target.selected_markets.contains(market));
            assert(is_filled_deficit(snapshot, projection, vault, target, endpoint));
            lemma_use_prefix(snapshot, done, next, cap, done.len() as int);
            assert(affected@.contains(cap) ==> exists|k: int|
                0 <= k < 3 && #[trigger] affected@[k] == cap);
            lemma_deficits_filled(
                snapshot,
                projection,
                vault,
                target,
                from + 1,
                left,
                rest,
                next,
                deployment,
                cap,
                room,
            );
        }
    }
}

proof fn lemma_headrooms(
    snapshot: ExactVaultSnapshot,
    projection: ProjectedVaultView,
    from: int,
    done: Seq<(CapRef, U256)>,
    cap: CapRef,
)
    requires
        0 <= from <= snapshot.caps@.len(),
        ordered_entries(done),
        value_of(done, cap) is Some ==> cap_headroom_spec(snapshot, projection, cap) == value_of(
            done,
            cap,
        ),
        headrooms_from(snapshot, projection, from, done) is Ok,
    ensures
        ({
            let all = headrooms_from(snapshot, projection, from, done)->Ok_0;
            &&& ordered_entries(all)
            &&& value_of(all, cap) is Some ==> cap_headroom_spec(snapshot, projection, cap)
                == value_of(all, cap)
        }),
    decreases snapshot.caps@.len() - from,
{
    if from < snapshot.caps@.len() {
        let key = snapshot.caps@[from].0;
        let headroom = cap_headroom_spec(snapshot, projection, key)->Some_0;
        value_of_with_value(done, key, headroom, cap);
        lemma_headrooms(snapshot, projection, from + 1, with_value(done, key, headroom), cap);
    }
}

proof fn lemma_supplies_sum(endpoints: Seq<Endpoint>, count: int)
    requires
        0 <= count <= endpoints.len(),
    ensures
        requested_sum(supplies(endpoints), ActionKind::Allocate, count) == endpoint_sum(
            endpoints,
            count,
        ),
    decreases count,
{
    if count > 0 {
        lemma_supplies_sum(endpoints, count - 1);
    }
}

proof fn lemma_shifted_sum(first: ActionView, rest: Seq<ActionView>, kind: ActionKind, count: int)
    requires
        0 <= count <= rest.len(),
        first.kind != kind,
    ensures
        requested_sum(seq![first] + rest, kind, count + 1) == requested_sum(rest, kind, count),
    decreases count,
{
    let all = seq![first] + rest;
    if count > 0 {
        lemma_shifted_sum(first, rest, kind, count - 1);
        assert(all[count] == rest[count - 1]);
    } else {
        assert(all[0] == first);
        assert(requested_sum(all, kind, 0) == 0);
    }
}

/// A top-K deployment supplies only deficits of the selected markets, no more in all than the tranche
/// of the capital, and no more under any cap than the cap has left. What idle does not cover is
/// withdrawn first, to the unit and within the released liquidity. The plan simulates, meets every
/// service floor and stays within the loss and action bounds; what is not deployed is carried on
/// when it exceeds dust.
pub proof fn top_k_deployments_fill_deficits(
    snapshot: ExactVaultSnapshot,
    projection: ProjectedVaultView,
    vault: ValidatedVaultConfig,
    target: TargetView,
    funding: TopKDeployableCapital,
    limits: TopKSolveLimits,
    cap: CapRef,
) -> (endpoints: Seq<Endpoint>)
    requires
        top_k_deployment_spec(snapshot, projection, vault, target, funding, limits) is Ok,
        top_k_deployment_spec(
            snapshot,
            projection,
            vault,
            target,
            funding,
            limits,
        )->Ok_0.state is Some,
    ensures
        ({
            let result = top_k_deployment_spec(
                snapshot,
                projection,
                vault,
                target,
                funding,
                limits,
            )->Ok_0;
            let actions = result.actions;
            let state = result.state->Some_0;
            let allocated = endpoint_sum(endpoints, endpoints.len() as int);
            let withdrawn: int = if allocated > funding.idle_assets@ {
                allocated - funding.idle_assets@
            } else {
                0
            };
            let first: int = if withdrawn > 0 {
                1
            } else {
                0
            };
            let used = cap_use(snapshot, endpoints, cap, endpoints.len() as int);
            let headroom = cap_headroom_spec(snapshot, projection, cap);
            &&& simulation_spec(snapshot, projection, vault, actions) == Ok::<
                SimulationView,
                SimulationError,
            >(state)
            &&& service_constraints_spec(state, snapshot, vault) is Ok
            &&& state.immediate_loss_assets@ <= vault.maximum_immediate_rebalance_loss_assets@
            &&& actions.len() <= limits.maximum_actions
            &&& forall|i: int|
                0 <= i < endpoints.len() ==> is_filled_deficit(
                    snapshot,
                    projection,
                    vault,
                    target,
                    #[trigger] endpoints[i],
                )
            &&& used > 0 ==> headroom is Some && used <= headroom->Some_0@
            &&& allocated * 10_000 <= funding.total_assets@ * limits.immediate_tranche_bps
            &&& allocated >= vault.minimum_action_assets@
            &&& requested_sum(actions, ActionKind::Allocate, actions.len() as int) == allocated
            &&& actions.len() == first + endpoints.len()
            &&& withdrawn <= funding.liquidity_assets@
            &&& withdrawn > 0 ==> {
                &&& vault.liquidity_adapter is Some
                &&& actions[0].kind == ActionKind::Deallocate
                &&& actions[0].position == vault.liquidity_adapter->Some_0.position_key
                &&& actions[0].adapter == vault.liquidity_adapter->Some_0.address
                &&& actions[0].data.len() == 0
                &&& actions[0].requested@ == withdrawn
            }
            &&& forall|i: int|
                first <= i < actions.len() && endpoints[i - first].1@ > 0 ==> acts_at(
                    #[trigger] actions[i],
                    ActionKind::Allocate,
                    endpoints[i - first],
                    endpoints[i - first].1,
                )
            &&& result.pending is Some <==> funding.total_assets@ > allocated
                + vault.maximum_rounding_dust_assets@
            &&& result.pending is Some ==> result.pending->Some_0.remaining_assets@
                == funding.total_assets@ - allocated
        }),
{
    broadcast use group_u256;

    division_rounds_down(
        funding.total_assets,
        u256(limits.immediate_tranche_bps as nat),
        u256(10_000),
    );
    let deployment = mul_div_down_spec(
        funding.total_assets,
        u256(limits.immediate_tranche_bps as nat),
        u256(10_000),
    )->Ok_0;
    assert(is_floor(
        deployment@ as int,
        funding.total_assets@ * limits.immediate_tranche_bps,
        10_000,
    ));
    let none = Seq::<(CapRef, U256)>::empty();
    assert(value_of(none, cap) is None);
    let headrooms = headrooms_from(snapshot, projection, 0, none)->Ok_0;
    lemma_headrooms(snapshot, projection, 0, none, cap);
    let room: int = if value_of(headrooms, cap) is Some {
        value_of(headrooms, cap)->Some_0@ as int
    } else {
        0
    };
    lemma_deficits_filled(
        snapshot,
        projection,
        vault,
        target,
        0,
        headrooms,
        deployment,
        Seq::empty(),
        deployment@ as int,
        cap,
        room,
    );
    let (endpoints, remaining) = deficits_filled_from(
        snapshot,
        projection,
        vault,
        target,
        0,
        headrooms,
        deployment,
        Seq::empty(),
    )->Ok_0;
    let allocated = difference(deployment, remaining)->Some_0;
    let withdrawal = saturating_difference(allocated, funding.idle_assets);
    lemma_supplies_sum(endpoints, endpoints.len() as int);
    let actions = funded_actions(vault, withdrawal, endpoints)->Ok_0;
    if withdrawal@ > 0 {
        let adapter = vault.liquidity_adapter->Some_0;
        let first = ActionView {
            kind: ActionKind::Deallocate,
            position: adapter.position_key,
            adapter: adapter.address,
            data: Seq::empty(),
            requested: withdrawal,
        };
        assert(actions == seq![first] + supplies(endpoints));
        assert(actions[0] == first);
        lemma_shifted_sum(
            first,
            supplies(endpoints),
            ActionKind::Allocate,
            endpoints.len() as int,
        );
        assert forall|i: int| 1 <= i < actions.len() implies #[trigger] actions[i] == supplies(
            endpoints,
        )[i - 1] by {}
    }
    endpoints
}

proof fn lemma_amounts_kept(
    amounts: Seq<U256>,
    full: U256,
    minimum_action: U256,
    from: int,
    kept: Seq<U256>,
)
    requires
        0 <= from <= amounts.len(),
        strictly_increasing(kept),
    ensures
        ({
            let all = amounts_kept_from(amounts, full, minimum_action, from, kept);
            &&& strictly_increasing(all)
            &&& forall|a: U256|
                all.contains(a) <==> kept.contains(a) || (minimum_action@ <= a@ <= full@ && exists|
                    i: int,
                |
                    from <= i < amounts.len() && #[trigger] amounts[i] == a)
        }),
    decreases amounts.len() - from,
{
    if from < amounts.len() {
        let amount = amounts[from];
        let within = minimum_action@ <= amount@ <= full@;
        let next = if within {
            with_key(kept, amount)
        } else {
            kept
        };
        if within {
            with_key_is_insertion(kept, amount);
        }
        lemma_amounts_kept(amounts, full, minimum_action, from + 1, next);
        assert forall|other: U256| next.contains(other) == (kept.contains(other) || (within
            && other == amount)) by {
            if within {
                assert(next.to_set().contains(other) == kept.to_set().insert(amount).contains(
                    other,
                ));
            }
        }
        let all = amounts_kept_from(amounts, full, minimum_action, from, kept);
        assert forall|a: U256|
            all.contains(a) <==> kept.contains(a) || (minimum_action@ <= a@ <= full@ && exists|
                i: int,
            |
                from <= i < amounts.len() && #[trigger] amounts[i] == a) by {
            if a == amount {
                assert(amounts[from] == a);
            }
            if exists|i: int| from <= i < amounts.len() && #[trigger] amounts[i] == a {
                let i = choose|i: int| from <= i < amounts.len() && #[trigger] amounts[i] == a;
                if i > from {
                    assert(from + 1 <= i < amounts.len() && amounts[i] == a);
                }
            }
        }
    }
}

/// A rebalance tries the tranche of the excess, its half, its quarter and the minimum action, each
/// only where it is at least the minimum action and no more than the excess.
pub proof fn rebalance_amounts_are_fractions_of_the_tranche(
    full: U256,
    immediate_tranche_bps: u32,
    minimum_action: U256,
    amount: U256,
)
    requires
        candidate_amounts_spec(full, immediate_tranche_bps, minimum_action) is Ok,
    ensures
        ({
            let amounts = candidate_amounts_spec(
                full,
                immediate_tranche_bps,
                minimum_action,
            )->Ok_0;
            let whole = full@ * immediate_tranche_bps;
            &&& amounts.contains(amount) ==> {
                &&& minimum_action@ <= amount@ <= full@
                &&& amount@ == minimum_action@ || is_floor(amount@ as int, whole, 10_000)
                    || is_floor(amount@ as int, whole, 20_000) || is_floor(
                    amount@ as int,
                    whole,
                    40_000,
                )
            }
            &&& minimum_action@ <= amount@ <= full@ && (amount@ == minimum_action@ || is_floor(
                amount@ as int,
                whole,
                10_000,
            ) || is_floor(amount@ as int, whole, 20_000) || is_floor(
                amount@ as int,
                whole,
                40_000,
            )) ==> amounts.contains(amount)
            &&& forall|i: int, j: int|
                0 <= i < j < amounts.len() ==> (#[trigger] amounts[i])@ > (#[trigger] amounts[j])@
        }),
{
    broadcast use group_u256;

    division_rounds_down(full, u256(immediate_tranche_bps as nat), u256(10_000));
    let tranche = mul_div_down_spec(
        full,
        u256(immediate_tranche_bps as nat),
        u256(10_000),
    )->Ok_0;
    let whole = full@ * immediate_tranche_bps;
    let t = tranche@ as int;
    assert(is_floor(t, whole, 10_000));
    assert(is_floor(t / 2, whole, 20_000));
    assert(is_floor(t / 4, whole, 40_000));
    let parts = seq![tranche, u256(tranche@ / 2), u256(tranche@ / 4), minimum_action];
    let none = Seq::<U256>::empty();
    lemma_amounts_kept(parts, full, minimum_action, 0, none);
    let rising = amounts_kept_from(parts, full, minimum_action, 0, none);
    let amounts = candidate_amounts_spec(full, immediate_tranche_bps, minimum_action)->Ok_0;
    assert(amounts == rising.reverse());
    assert(parts[0] == tranche && parts[1]@ == t / 2 && parts[2]@ == t / 4 && parts[3]
        == minimum_action);
    assert(amounts.contains(amount) <==> rising.contains(amount)) by {
        if amounts.contains(amount) {
            let i = choose|i: int| 0 <= i < amounts.len() && amounts[i] == amount;
            assert(rising[rising.len() - 1 - i] == amount);
        }
        if rising.contains(amount) {
            let i = choose|i: int| 0 <= i < rising.len() && rising[i] == amount;
            assert(amounts[rising.len() - 1 - i] == amount);
        }
    }
    if amount@ == parts[0]@ {
        crate::primitives::lemma_u256_injective(amount, parts[0]);
    }
    if amount@ == parts[1]@ {
        crate::primitives::lemma_u256_injective(amount, parts[1]);
    }
    if amount@ == parts[2]@ {
        crate::primitives::lemma_u256_injective(amount, parts[2]);
    }
    if amount@ == parts[3]@ {
        crate::primitives::lemma_u256_injective(amount, parts[3]);
    }
    assert forall|i: int, j: int| 0 <= i < j < amounts.len() implies (#[trigger] amounts[i])@ > (
    #[trigger] amounts[j])@ by {
        let a = rising[rising.len() - 1 - j];
        let b = rising[rising.len() - 1 - i];
        assert(a.rank() < b.rank());
    }
}

} // verus!
