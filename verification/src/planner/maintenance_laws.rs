//! What liquidity maintenance promises, stated on the restoration it returns.

use vstd::prelude::*;

use crate::config::{SolverConfigCanonical, ValidatedVaultConfig};
use crate::domain::{ActionKind, ActionView, ExactVaultSnapshot, ProjectedVaultView};
use crate::planner::certificate::CertificateView;
use crate::planner::distributions::bounded_distributions_spec;
use crate::planner::liquidity::{
    amount_searched, destination_actions_from, destination_maximums, maintenance_amounts_from,
    maintenance_assessment, maintenance_evaluated, maintenance_pairs_from, maintenance_setup,
    maintenance_solve_spec, source_actions_from, source_maximums, EndpointView, MaintenanceProblem,
    MaintenanceProgress, MaintenanceSetup, RestorationView, SourceView,
};
use crate::planner::moves::{amounts_sum, lemma_requested_prefix, requested_sum};
use crate::planner::rate::enumeration_limit;
use crate::planner::simulator::{
    service_constraints_spec, simulation_spec, SimulationError, SimulationView,
};
use crate::primitives::U256;

verus! {

/// Whether the action moves a nonzero amount at the given endpoint.
pub open spec fn acts_through(
    action: ActionView,
    kind: ActionKind,
    endpoint: EndpointView,
    amount: U256,
) -> bool {
    &&& action.kind == kind
    &&& action.position == endpoint.position
    &&& action.adapter == endpoint.adapter
    &&& action.data == endpoint.data
    &&& action.requested == amount
    &&& amount@ > 0
}

/// Amount the first `count` sources give beside idle.
pub open spec fn withdrawn_sum(sources: Seq<SourceView>, amounts: Seq<U256>, count: int) -> int
    decreases count,
{
    if count <= 0 {
        0
    } else {
        withdrawn_sum(sources, amounts, count - 1) + if sources[count - 1].0 is Some {
            amounts[count - 1]@ as int
        } else {
            0
        }
    }
}

proof fn lemma_source_actions(
    sources: Seq<SourceView>,
    amounts: Seq<U256>,
    from: int,
    done: Seq<ActionView>,
)
    requires
        0 <= from <= sources.len(),
        sources.len() == amounts.len(),
        forall|i: int|
            0 <= i < done.len() ==> exists|j: int|
                0 <= j < sources.len() && sources[j].0 is Some && acts_through(
                    #[trigger] done[i],
                    ActionKind::Deallocate,
                    (#[trigger] sources[j]).0->Some_0,
                    amounts[j],
                ),
        requested_sum(done, ActionKind::Deallocate, done.len() as int) == withdrawn_sum(
            sources,
            amounts,
            from,
        ),
    ensures
        ({
            let all = source_actions_from(sources, amounts, from, done);
            &&& forall|i: int|
                0 <= i < all.len() ==> exists|j: int|
                    0 <= j < sources.len() && sources[j].0 is Some && acts_through(
                    #[trigger] all[i],
                        ActionKind::Deallocate,
                        (#[trigger] sources[j]).0->Some_0,
                        amounts[j],
                    )
            &&& requested_sum(all, ActionKind::Deallocate, all.len() as int) == withdrawn_sum(
                sources,
                amounts,
                sources.len() as int,
            )
        }),
    decreases sources.len() - from,
{
    if from < sources.len() {
        assert(withdrawn_sum(sources, amounts, from + 1) == withdrawn_sum(sources, amounts, from)
            + if sources[from].0 is Some {
            amounts[from]@ as int
        } else {
            0
        });
        if sources[from].0 is Some && amounts[from]@ > 0 {
            let action = sources[from].0->Some_0.action(ActionKind::Deallocate, amounts[from]);
            let next = done.push(action);
            assert(acts_through(
                action,
                ActionKind::Deallocate,
                sources[from].0->Some_0,
                amounts[from],
            ));
            lemma_requested_prefix(done, next, ActionKind::Deallocate, done.len() as int);
            assert forall|i: int| 0 <= i < next.len() implies exists|j: int|
                0 <= j < sources.len() && sources[j].0 is Some && acts_through(
                    #[trigger] next[i],
                    ActionKind::Deallocate,
                    (#[trigger] sources[j]).0->Some_0,
                    amounts[j],
                ) by {
                if i < done.len() {
                    assert(next[i] == done[i]);
                } else {
                    assert(acts_through(
                        next[i],
                        ActionKind::Deallocate,
                        sources[from].0->Some_0,
                        amounts[from],
                    ));
                }
            }
            lemma_source_actions(sources, amounts, from + 1, next);
        } else {
            lemma_source_actions(sources, amounts, from + 1, done);
        }
    }
}

proof fn lemma_destination_actions(
    destinations: Seq<EndpointView>,
    amounts: Seq<U256>,
    from: int,
    done: Seq<ActionView>,
)
    requires
        0 <= from <= destinations.len(),
        destinations.len() == amounts.len(),
    ensures
        ({
            let all = destination_actions_from(destinations, amounts, from, done);
            &&& done.len() <= all.len()
            &&& forall|i: int| 0 <= i < done.len() ==> #[trigger] all[i] == done[i]
            &&& forall|i: int|
                done.len() <= i < all.len() ==> exists|j: int|
                    0 <= j < destinations.len() && acts_through(
                    #[trigger] all[i],
                        ActionKind::Allocate,
                        #[trigger] destinations[j],
                        amounts[j],
                    )
            &&& requested_sum(all, ActionKind::Allocate, all.len() as int) == requested_sum(
                done,
                ActionKind::Allocate,
                done.len() as int,
            ) + amounts_sum(amounts, amounts.len() as int) - amounts_sum(amounts, from)
            &&& requested_sum(all, ActionKind::Deallocate, all.len() as int) == requested_sum(
                done,
                ActionKind::Deallocate,
                done.len() as int,
            )
        }),
    decreases destinations.len() - from,
{
    if from < destinations.len() {
        assert(amounts_sum(amounts, from + 1) == amounts_sum(amounts, from) + amounts[from]@);
        if amounts[from]@ > 0 {
            let action = destinations[from].action(ActionKind::Allocate, amounts[from]);
            let next = done.push(action);
            lemma_requested_prefix(done, next, ActionKind::Allocate, done.len() as int);
            lemma_requested_prefix(done, next, ActionKind::Deallocate, done.len() as int);
            lemma_destination_actions(destinations, amounts, from + 1, next);
            let all = destination_actions_from(destinations, amounts, from, done);
            let at = done.len() as int;
            assert(all[at] == next[at]);
            assert(acts_through(
                all[at],
                ActionKind::Allocate,
                destinations[from],
                amounts[from],
            ));
            assert forall|i: int| 0 <= i < done.len() implies #[trigger] all[i] == done[i] by {
                assert(all[i] == next[i]);
            }
        } else {
            lemma_destination_actions(destinations, amounts, from + 1, done);
        }
    }
}

proof fn lemma_no_supplies(actions: Seq<ActionView>, count: int)
    requires
        0 <= count <= actions.len(),
        forall|i: int| 0 <= i < count ==> (#[trigger] actions[i]).kind == ActionKind::Deallocate,
    ensures
        requested_sum(actions, ActionKind::Allocate, count) == 0,
    decreases count,
{
    if count > 0 {
        lemma_no_supplies(actions, count - 1);
    }
}

/// A restoration withdraws what its sources give beside idle and then supplies the destination row,
/// each at its own endpoint; no position both gives and takes. It holds at most the allowed actions,
/// simulates, stays within the loss bound and restores every service floor.
pub proof fn restorations_move_between_different_positions(
    problem: MaintenanceProblem,
    amount: U256,
    source_amounts: Seq<U256>,
    destination_amounts: Seq<U256>,
) -> (first: int)
    requires
        problem.sources.len() == source_amounts.len(),
        problem.destinations.len() == destination_amounts.len(),
        maintenance_assessment(problem, amount, source_amounts, destination_amounts) is Ok,
    ensures
        ({
            let plan = maintenance_assessment(
                problem,
                amount,
                source_amounts,
                destination_amounts,
            )->Ok_0;
            let count = plan.actions.len() as int;
            &&& plan.movement == amount
            &&& 0 < plan.actions.len() <= problem.maximum_actions
            &&& simulation_spec(problem.snapshot, problem.projection, problem.vault, plan.actions)
                == Ok::<SimulationView, SimulationError>(plan.state)
            &&& service_constraints_spec(plan.state, problem.snapshot, problem.vault) is Ok
            &&& plan.state.immediate_loss_assets@
                <= problem.vault.maximum_immediate_rebalance_loss_assets@
            &&& 0 <= first <= count
            &&& forall|i: int|
                0 <= i < first ==> exists|j: int|
                    0 <= j < problem.sources.len() && problem.sources[j].0 is Some
                        && acts_through(
                    #[trigger] plan.actions[i],
                        ActionKind::Deallocate,
                        (#[trigger] problem.sources[j]).0->Some_0,
                        source_amounts[j],
                    )
            &&& forall|i: int|
                first <= i < count ==> exists|j: int|
                    0 <= j < problem.destinations.len() && acts_through(
                    #[trigger] plan.actions[i],
                        ActionKind::Allocate,
                        #[trigger] problem.destinations[j],
                        destination_amounts[j],
                    )
            &&& requested_sum(plan.actions, ActionKind::Deallocate, count) == withdrawn_sum(
                problem.sources,
                source_amounts,
                problem.sources.len() as int,
            )
            &&& requested_sum(plan.actions, ActionKind::Allocate, count) == amounts_sum(
                destination_amounts,
                destination_amounts.len() as int,
            )
            &&& forall|i: int, j: int|
                #![trigger problem.sources[i], problem.destinations[j]]
                0 <= i < problem.sources.len() && 0 <= j < problem.destinations.len()
                    && problem.sources[i].0 is Some && source_amounts[i]@ > 0
                    && destination_amounts[j]@ > 0 ==> problem.sources[i].0->Some_0.position
                    != problem.destinations[j].position
        }),
{
    let none = Seq::<ActionView>::empty();
    let out = source_actions_from(problem.sources, source_amounts, 0, none);
    lemma_source_actions(problem.sources, source_amounts, 0, none);
    lemma_destination_actions(problem.destinations, destination_amounts, 0, out);
    assert forall|i: int| 0 <= i < out.len() implies (#[trigger] out[i]).kind
        == ActionKind::Deallocate by {}
    lemma_no_supplies(out, out.len() as int);
    let plan = maintenance_assessment(
        problem,
        amount,
        source_amounts,
        destination_amounts,
    )->Ok_0;
    assert forall|i: int| 0 <= i < out.len() implies exists|j: int|
        0 <= j < problem.sources.len() && problem.sources[j].0 is Some && acts_through(
                    #[trigger] plan.actions[i],
            ActionKind::Deallocate,
            (#[trigger] problem.sources[j]).0->Some_0,
            source_amounts[j],
        ) by {
        assert(plan.actions[i] == out[i]);
    }
    assert forall|i: int, j: int|
        #![trigger problem.sources[i], problem.destinations[j]]
        0 <= i < problem.sources.len() && 0 <= j < problem.destinations.len()
            && problem.sources[i].0 is Some && source_amounts[i]@ > 0 && destination_amounts[j]@
            > 0 implies problem.sources[i].0->Some_0.position
        != problem.destinations[j].position by {
        assert(!crate::planner::liquidity::meets(
            problem.sources[i],
            source_amounts[i],
            problem.destinations[j],
            destination_amounts[j],
        ));
    }
    out.len() as int
}

/// Whether a plan is at least as good: it moves less, or as much in no more actions.
pub open spec fn no_worse(best: RestorationView, other: RestorationView) -> bool {
    best.movement@ < other.movement@ || (best.movement@ == other.movement@ && best.actions.len()
        <= other.actions.len())
}

#[verifier::opaque]
spec fn restoring(
    problem: MaintenanceProblem,
    amount: U256,
    source_amounts: Seq<U256>,
    destination_amounts: Seq<U256>,
) -> Option<RestorationView> {
    match maintenance_assessment(problem, amount, source_amounts, destination_amounts) {
        Ok(plan) => Some(plan),
        Err(_) => None,
    }
}

#[verifier::opaque]
spec fn pairs_tried(
    problem: MaintenanceProblem,
    amount: U256,
    source_rows: Seq<Seq<U256>>,
    destination_rows: Seq<Seq<U256>>,
    i: int,
    j: int,
    progress: MaintenanceProgress,
) -> (MaintenanceProgress, bool) {
    maintenance_pairs_from(problem, amount, source_rows, destination_rows, i, j, progress)
}

proof fn lemma_tried(
    problem: MaintenanceProblem,
    amount: U256,
    source_amounts: Seq<U256>,
    destination_amounts: Seq<U256>,
    progress: MaintenanceProgress,
)
    ensures
        ({
            let next = maintenance_evaluated(
                problem,
                amount,
                source_amounts,
                destination_amounts,
                progress,
            );
            let plan = restoring(problem, amount, source_amounts, destination_amounts);
            &&& plan is None ==> next.best == progress.best
            &&& plan is Some ==> next.best is Some && no_worse(next.best->Some_0, plan->Some_0)
            &&& next.best == progress.best || next.best == plan
            &&& progress.best is Some ==> next.best is Some && no_worse(
                next.best->Some_0,
                progress.best->Some_0,
            )
            &&& next.certificate.search_complete ==> progress.certificate.search_complete
        }),
{
    reveal(restoring);
    let outcome = maintenance_assessment(problem, amount, source_amounts, destination_amounts);
    match outcome {
        Ok(plan) => {
            assert(restoring(problem, amount, source_amounts, destination_amounts) == Some(plan));
        },
        Err(_) => {},
    }
}

proof fn lemma_try_step(
    problem: MaintenanceProblem,
    amount: U256,
    source_rows: Seq<Seq<U256>>,
    destination_rows: Seq<Seq<U256>>,
    i: int,
    j: int,
    progress: MaintenanceProgress,
) -> (next: MaintenanceProgress)
    requires
        0 <= i < source_rows.len(),
        0 <= j < destination_rows.len(),
        progress.certificate.nodes_evaluated < progress.certificate.node_limit,
    ensures
        pairs_tried(problem, amount, source_rows, destination_rows, i, j, progress)
            == pairs_tried(problem, amount, source_rows, destination_rows, i, j + 1, next),
        ({
            let plan = restoring(problem, amount, source_rows[i], destination_rows[j]);
            &&& plan is None ==> next.best == progress.best
            &&& plan is Some ==> next.best is Some && no_worse(next.best->Some_0, plan->Some_0)
            &&& next.best == progress.best || next.best == plan
            &&& progress.best is Some ==> next.best is Some && no_worse(
                next.best->Some_0,
                progress.best->Some_0,
            )
        }),
        next.certificate.search_complete ==> progress.certificate.search_complete,
{
    let next = maintenance_evaluated(
        problem,
        amount,
        source_rows[i],
        destination_rows[j],
        progress,
    );
    assert(pairs_tried(problem, amount, source_rows, destination_rows, i, j, progress)
        == pairs_tried(problem, amount, source_rows, destination_rows, i, j + 1, next)) by {
        reveal(pairs_tried);
    }
    lemma_tried(problem, amount, source_rows[i], destination_rows[j], progress);
    next
}

proof fn lemma_pairs_tried(
    problem: MaintenanceProblem,
    amount: U256,
    source_rows: Seq<Seq<U256>>,
    destination_rows: Seq<Seq<U256>>,
    i: int,
    j: int,
    progress: MaintenanceProgress,
)
    requires
        0 <= i,
        0 <= j <= destination_rows.len(),
    ensures
        ({
            let (next, stopped) = pairs_tried(
                problem,
                amount,
                source_rows,
                destination_rows,
                i,
                j,
                progress,
            );
            &&& next.certificate.search_complete ==> !stopped
                && progress.certificate.search_complete
            &&& progress.best is Some ==> next.best is Some && no_worse(
                next.best->Some_0,
                progress.best->Some_0,
            )
            &&& next.best == progress.best || exists|a: int, b: int|
                0 <= a < source_rows.len() && 0 <= b < destination_rows.len()
                    && #[trigger] restoring(problem, amount, source_rows[a], destination_rows[b])
                    == next.best
            &&& !stopped ==> forall|a: int, b: int|
                (i < a < source_rows.len() && 0 <= b < destination_rows.len()) || (a == i && i
                    < source_rows.len() && j <= b < destination_rows.len()) ==> {
                    let plan = #[trigger] restoring(
                        problem,
                        amount,
                        source_rows[a],
                        destination_rows[b],
                    );
                    plan is Some ==> next.best is Some && no_worse(
                        next.best->Some_0,
                        plan->Some_0,
                    )
                }
        }),
    decreases source_rows.len() - i, destination_rows.len() - j,
{
    if i >= source_rows.len() {
        reveal(pairs_tried);
    } else if j >= destination_rows.len() {
        assert(pairs_tried(problem, amount, source_rows, destination_rows, i, j, progress)
            == pairs_tried(problem, amount, source_rows, destination_rows, i + 1, 0, progress))
            by {
            reveal(pairs_tried);
        }
        lemma_pairs_tried(problem, amount, source_rows, destination_rows, i + 1, 0, progress);
    } else if progress.certificate.nodes_evaluated >= progress.certificate.node_limit {
        reveal(pairs_tried);
    } else {
        let step = lemma_try_step(
            problem,
            amount,
            source_rows,
            destination_rows,
            i,
            j,
            progress,
        );
        lemma_pairs_tried(problem, amount, source_rows, destination_rows, i, j + 1, step);
    }
}

/// Whether nothing of the amount is better than `best`: the amount moves more than it, or every pair
/// of its distributions was tried and gives no better plan.
pub open spec fn nothing_better(
    problem: MaintenanceProblem,
    amount: U256,
    source_limit: nat,
    destination_limit: nat,
    best: Option<RestorationView>,
) -> bool {
    let sources = bounded_distributions_spec(
        source_maximums(problem.sources),
        problem.source_lattices,
        amount,
        problem.vault.minimum_action_assets,
        source_limit,
    );
    let destinations = bounded_distributions_spec(
        destination_maximums(problem.destinations),
        problem.destination_lattices,
        amount,
        problem.vault.minimum_action_assets,
        destination_limit,
    );
    ||| best is Some && best->Some_0.movement@ < amount@
    ||| sources is Some && destinations is Some && forall|i: int, j: int|
        #![trigger sources->Some_0[i], destinations->Some_0[j]]
        0 <= i < sources->Some_0.len() && 0 <= j < destinations->Some_0.len()
            && maintenance_assessment(
            problem,
            amount,
            sources->Some_0[i],
            destinations->Some_0[j],
        ) is Ok ==> best is Some && no_worse(
            best->Some_0,
            maintenance_assessment(
                problem,
                amount,
                sources->Some_0[i],
                destinations->Some_0[j],
            )->Ok_0,
        )
}

/// Whether some limits make the amount hold nothing better than `best`.
#[verifier::opaque]
pub open spec fn exhausted(
    problem: MaintenanceProblem,
    amount: U256,
    best: Option<RestorationView>,
) -> bool {
    exists|a: nat, b: nat| #[trigger] nothing_better(problem, amount, a, b, best)
}

proof fn lemma_exhausted_kept(
    problem: MaintenanceProblem,
    amount: U256,
    old_best: Option<RestorationView>,
    new_best: Option<RestorationView>,
)
    requires
        exhausted(problem, amount, old_best),
        old_best is Some ==> new_best is Some && no_worse(new_best->Some_0, old_best->Some_0),
    ensures
        exhausted(problem, amount, new_best),
{
    reveal(exhausted);
    let (a, b) = choose|a: nat, b: nat| #[trigger]
        nothing_better(problem, amount, a, b, old_best);
    assert(nothing_better(problem, amount, a, b, new_best));
}

#[verifier::opaque]
spec fn amounts_tried(
    problem: MaintenanceProblem,
    amounts: Seq<U256>,
    from: int,
    progress: MaintenanceProgress,
) -> MaintenanceProgress {
    maintenance_amounts_from(problem, amounts, from, progress)
}

/// One amount: the progress after it, and whether the search ends there.
proof fn lemma_amount_tried(
    problem: MaintenanceProblem,
    amounts: Seq<U256>,
    from: int,
    progress: MaintenanceProgress,
) -> (r: (MaintenanceProgress, bool))
    requires
        0 <= from < amounts.len(),
    ensures
        r.1 ==> amounts_tried(problem, amounts, from, progress) == r.0
            && !r.0.certificate.search_complete,
        !r.1 ==> amounts_tried(problem, amounts, from, progress) == amounts_tried(
            problem,
            amounts,
            from + 1,
            r.0,
        ),
        r.0.certificate.search_complete ==> progress.certificate.search_complete,
        progress.best is Some ==> r.0.best is Some && no_worse(
            r.0.best->Some_0,
            progress.best->Some_0,
        ),
        !r.1 && amounts[from]@ >= problem.vault.minimum_action_assets@ ==> exhausted(
            problem,
            amounts[from],
            r.0.best,
        ),
{
    reveal(amounts_tried);
    let amount = amounts[from];
    if !amount_searched(problem, amount, progress.best) {
        if amount@ >= problem.vault.minimum_action_assets@ {
            assert(nothing_better(problem, amount, 0, 0, progress.best));
            reveal(exhausted);
        }
        (progress, false)
    } else {
        let a = enumeration_limit(progress.certificate, problem.solver.maximum_source_sets);
        let b = enumeration_limit(progress.certificate, problem.solver.maximum_destination_sets);
        let sources = bounded_distributions_spec(
            source_maximums(problem.sources),
            problem.source_lattices,
            amount,
            problem.vault.minimum_action_assets,
            a,
        );
        let destinations = bounded_distributions_spec(
            destination_maximums(problem.destinations),
            problem.destination_lattices,
            amount,
            problem.vault.minimum_action_assets,
            b,
        );
        if sources is Some && destinations is Some {
            let from_rows = sources->Some_0;
            let to_rows = destinations->Some_0;
            lemma_pairs_tried(problem, amount, from_rows, to_rows, 0, 0, progress);
            let (step, stopped) = pairs_tried(
                problem,
                amount,
                from_rows,
                to_rows,
                0,
                0,
                progress,
            );
            assert((step, stopped) == maintenance_pairs_from(
                problem,
                amount,
                from_rows,
                to_rows,
                0,
                0,
                progress,
            )) by {
                reveal(pairs_tried);
            }
            if !stopped {
                assert(nothing_better(problem, amount, a, b, step.best)) by {
                    assert forall|i: int, j: int|
                        #![trigger from_rows[i], to_rows[j]]
                        0 <= i < from_rows.len() && 0 <= j < to_rows.len()
                            && maintenance_assessment(
                            problem,
                            amount,
                            from_rows[i],
                            to_rows[j],
                        ) is Ok implies step.best is Some && no_worse(
                        step.best->Some_0,
                        maintenance_assessment(problem, amount, from_rows[i], to_rows[j])->Ok_0,
                    ) by {
                        let plan = restoring(problem, amount, from_rows[i], to_rows[j]);
                        reveal(restoring);
                    }
                }
                reveal(exhausted);
            }
            (step, stopped)
        } else {
            (
                MaintenanceProgress {
                    certificate: progress.certificate.incomplete(),
                    ..progress
                },
                true,
            )
        }
    }
}

proof fn lemma_amounts_tried(
    problem: MaintenanceProblem,
    amounts: Seq<U256>,
    from: int,
    progress: MaintenanceProgress,
)
    requires
        0 <= from <= amounts.len(),
    ensures
        ({
            let next = amounts_tried(problem, amounts, from, progress);
            &&& next.certificate.search_complete ==> progress.certificate.search_complete
            &&& progress.best is Some ==> next.best is Some && no_worse(
                next.best->Some_0,
                progress.best->Some_0,
            )
            &&& next.certificate.search_complete ==> forall|k: int|
                from <= k < amounts.len() && (#[trigger] amounts[k])@
                    >= problem.vault.minimum_action_assets@ ==> exhausted(
                    problem,
                    amounts[k],
                    next.best,
                )
        }),
    decreases amounts.len() - from,
{
    if from >= amounts.len() {
        reveal(amounts_tried);
    } else {
        let (step, over) = lemma_amount_tried(problem, amounts, from, progress);
        if !over {
            lemma_amounts_tried(problem, amounts, from + 1, step);
            let next = amounts_tried(problem, amounts, from, progress);
            if amounts[from]@ >= problem.vault.minimum_action_assets@ {
                lemma_exhausted_kept(problem, amounts[from], step.best, next.best);
            }
        }
    }
}

/// A complete maintenance search returns the restoration that moves least, and of those that move as
/// little one with the fewest actions; without a plan no executable amount restores service.
pub proof fn maintenance_moves_least(
    snapshot: ExactVaultSnapshot,
    projection: ProjectedVaultView,
    vault: ValidatedVaultConfig,
    solver: SolverConfigCanonical,
    maximum_actions: usize,
    problem: MaintenanceProblem,
    amounts: Seq<U256>,
    identity: Seq<u8>,
) -> (best: Option<RestorationView>)
    requires
        maintenance_setup(snapshot, projection, vault, solver, maximum_actions)
            == MaintenanceSetup::Search(problem, amounts, identity),
    ensures
        ({
            let result = maintenance_solve_spec(
                snapshot,
                projection,
                vault,
                solver,
                maximum_actions,
            );
            &&& best is Some <==> result.state is Some
            &&& best is Some ==> result.actions == best->Some_0.actions && result.state == Some(
                best->Some_0.state,
            )
            &&& result.certificate.search_complete ==> forall|k: int|
                0 <= k < amounts.len() && (#[trigger] amounts[k])@
                    >= problem.vault.minimum_action_assets@ ==> exhausted(
                    problem,
                    amounts[k],
                    best,
                )
        }),
{
    let first = MaintenanceProgress {
        certificate: CertificateView::begun(solver.maximum_nodes),
        best: None,
    };
    lemma_amounts_tried(problem, amounts, 0, first);
    let searched = amounts_tried(problem, amounts, 0, first);
    assert(searched == maintenance_amounts_from(problem, amounts, 0, first)) by {
        reveal(amounts_tried);
    }
    searched.best
}

} // verus!
