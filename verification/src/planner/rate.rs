//! Deterministic selectable rate/utilization spread-rebalance candidate search.

use vstd::prelude::*;

use crate::collections::{value_of, with_value, OrderedMap, OrderedSet};
use crate::config::{
    SolverConfigCanonical, ValidatedPositionConfig, ValidatedStrategyConfig, ValidatedVaultConfig,
};
use crate::domain::{
    actions_view, ActionKind, ActionView, ExactVaultSnapshot, MarketId, PlanReason, PositionKey,
    ProjectedVaultView, RateObjectiveBranch, V2Action,
};
use crate::morpho::blue_math::{mul_div_down, mul_div_down_spec};
use crate::planner::candidates::{
    append_bytes, build_candidate_lattice, lattice_amounts, lattice_hash,
};
use crate::planner::certificate::{CertificateView, RejectionReason, SearchCertificate};
use crate::planner::distributions::{
    bounded_distributions, bounded_distributions_spec, rows_view,
};
use crate::planner::episodes::{EpisodeView, RateSignalEpisode};
use crate::planner::moves::{
    action_headroom, baseline, baseline_spec, build_lattices, economic_delta, economic_delta_spec,
    endpoint_actions_from, endpoint_maximums, endpoint_total, endpoint_total_from,
    find_market_position, headroom_of, lattice_hashes_from, lattices_of, list_maximums,
    market_position_from, push_endpoint_actions, Endpoint,
};
use crate::planner::objective::{
    complete_spread_spec, complete_strategy_spread, ranks_before, ranks_before_spec,
    ObjectiveMetrics,
};
use crate::planner::simulator::{
    service_constraints_spec, simulate_actions, simulation_spec, unreserved_idle_spec,
    SimulationState, SimulationView,
};
use crate::primitives::{
    b256, big_endian, group_b256, group_u256, keccak256, keccak256_digest, saturating_difference,
    smaller, sum, u256, word_modulus, I256, U256,
};

verus! {

/// One feasible exact spread-rebalance candidate.
pub struct SolvedRateCandidate {
    /// Strict deallocation-first semantic actions.
    pub actions: Vec<V2Action>,
    /// Exact terminal sequential state.
    pub state: SimulationState,
    /// Lexicographic objective values.
    pub objective: ObjectiveMetrics,
    /// Frozen before spread.
    pub before_spread: U256,
}

/// What a rate candidate holds.
pub ghost struct RateCandidateView {
    /// Actions.
    pub actions: Seq<ActionView>,
    /// Simulated state.
    pub state: SimulationView,
    /// Objective values.
    pub objective: ObjectiveMetrics,
    /// Before spread.
    pub before_spread: U256,
}

impl View for SolvedRateCandidate {
    type V = RateCandidateView;

    open spec fn view(&self) -> RateCandidateView {
        RateCandidateView {
            actions: actions_view(self.actions@),
            state: self.state@,
            objective: self.objective,
            before_spread: self.before_spread,
        }
    }
}

/// Complete bounded rate search output.
pub struct RateSolveResult {
    /// Best feasible candidate, including Shadow-only incomplete results.
    pub best: Option<SolvedRateCandidate>,
    /// Auditable search evidence.
    pub certificate: SearchCertificate,
    /// Whether any feasible candidate reached the target band.
    pub target_reachable: bool,
}

/// What a rate search output holds.
pub ghost struct RateResultView {
    /// Best candidate.
    pub best: Option<RateCandidateView>,
    /// Search evidence.
    pub certificate: CertificateView,
    /// Whether the target band is reachable.
    pub target_reachable: bool,
}

impl View for RateSolveResult {
    type V = RateResultView;

    open spec fn view(&self) -> RateResultView {
        RateResultView {
            best: match self.best {
                Some(candidate) => Some(candidate@),
                None => None,
            },
            certificate: self.certificate@,
            target_reachable: self.target_reachable,
        }
    }
}

/// Objective values of a simulated rate candidate, when both spreads and idle are known.
pub open spec fn metrics_spec(
    state: SimulationView,
    episode: EpisodeView,
    strategy: ValidatedStrategyConfig,
    movement: U256,
    terminal_value_delta: I256,
) -> Option<ObjectiveMetrics> {
    let portfolio = complete_spread_spec(
        episode.evaluation_markets,
        state.markets,
        strategy.objective,
    );
    let controllable = complete_spread_spec(
        episode.controllable_markets,
        state.markets,
        strategy.objective,
    );
    match (portfolio, controllable) {
        (Some(portfolio_spread), Some(controllable_spread)) => match unreserved_idle_spec(state) {
            Err(_) => None,
            Ok(idle) => Some(
                ObjectiveMetrics {
                    final_unreserved_idle: idle,
                    deployed_assets: u256(0),
                    applicable_spread: match episode.objective_branch {
                        RateObjectiveBranch::Portfolio => portfolio_spread,
                        RateObjectiveBranch::Controllable => controllable_spread,
                    },
                    secondary_spread: match episode.objective_branch {
                        RateObjectiveBranch::Portfolio => controllable_spread,
                        RateObjectiveBranch::Controllable => portfolio_spread,
                    },
                    terminal_value_delta,
                    movement_assets: movement,
                    action_count: state.actions.len() as usize,
                },
            ),
        },
        _ => None,
    }
}

fn metrics(
    state: &SimulationState,
    episode: &RateSignalEpisode,
    strategy: &ValidatedStrategyConfig,
    movement: U256,
    terminal_value_delta: I256,
) -> (r: Option<ObjectiveMetrics>)
    ensures
        r == metrics_spec(state@, episode@, *strategy, movement, terminal_value_delta),
{
    let portfolio = complete_strategy_spread(
        &episode.evaluation_markets,
        &state.markets,
        strategy.objective,
    )?;
    let controllable = complete_strategy_spread(
        &episode.controllable_markets,
        &state.markets,
        strategy.objective,
    )?;
    let (applicable_spread, secondary_spread) = match episode.objective_branch {
        RateObjectiveBranch::Portfolio => (portfolio, controllable),
        RateObjectiveBranch::Controllable => (controllable, portfolio),
    };
    let final_unreserved_idle = match state.unreserved_idle() {
        Ok(idle) => idle,
        Err(_) => return None,
    };
    Some(
        ObjectiveMetrics {
            final_unreserved_idle,
            deployed_assets: U256::zero(),
            applicable_spread,
            secondary_spread,
            terminal_value_delta,
            movement_assets: movement,
            action_count: state.actions.len(),
        },
    )
}

/// Frozen inputs of one bounded rate search.
pub ghost struct RateProblem {
    /// Exact snapshot.
    pub snapshot: ExactVaultSnapshot,
    /// Inclusion projection.
    pub projection: ProjectedVaultView,
    /// Vault policy.
    pub vault: ValidatedVaultConfig,
    /// Strategy policy.
    pub strategy: ValidatedStrategyConfig,
    /// Solver bounds.
    pub solver: SolverConfigCanonical,
    /// Frozen episode.
    pub episode: EpisodeView,
    /// Benefit horizon timestamp.
    pub horizon: u64,
    /// No-plan value of the existing shares at the horizon.
    pub no_plan: U256,
    /// Applicable spread before any action.
    pub before_spread: U256,
    /// Source positions with nonzero headroom.
    pub sources: Seq<Endpoint>,
    /// Destination positions with nonzero headroom.
    pub destinations: Seq<Endpoint>,
    /// Amount lattice of every source.
    pub source_lattices: Seq<Seq<U256>>,
    /// Amount lattice of every destination.
    pub destination_lattices: Seq<Seq<U256>>,
}

/// Progress of one bounded rate search.
pub ghost struct RateProgress {
    /// Search evidence.
    pub certificate: CertificateView,
    /// Feasible candidates in search order.
    pub candidates: Seq<RateCandidateView>,
}

/// Actions that move the given amounts.
pub open spec fn movement_actions(
    sources: Seq<Endpoint>,
    source_amounts: Seq<U256>,
    destinations: Seq<Endpoint>,
    destination_amounts: Seq<U256>,
) -> Seq<ActionView> {
    endpoint_actions_from(
        destinations,
        destination_amounts,
        ActionKind::Allocate,
        0,
        endpoint_actions_from(sources, source_amounts, ActionKind::Deallocate, 0, Seq::empty()),
    )
}

/// Whether strict routine idle is violated.
pub open spec fn idle_violated(vault: ValidatedVaultConfig, state: SimulationView) -> bool {
    vault.strict_zero_routine_idle && match unreserved_idle_spec(state) {
        Ok(idle) => idle@ > vault.maximum_rounding_dust_assets@,
        Err(_) => true,
    }
}

/// Largest spread the tolerance allows, clamped to the largest word.
pub open spec fn tolerated_spread(before: U256, tolerance: U256) -> U256 {
    match sum(before, tolerance) {
        Some(value) => value,
        None => u256((word_modulus() - 1) as nat),
    }
}

/// Whether the spread worsened beyond tolerance or improved by less than required.
pub open spec fn spread_unacceptable(
    strategy: ValidatedStrategyConfig,
    branch: RateObjectiveBranch,
    before: U256,
    after: U256,
) -> bool {
    after@ > tolerated_spread(before, strategy.portfolio_spread_tolerance_spec())@
        || saturating_difference(before, after)@ < strategy.minimum_improvement_spec(
        branch == RateObjectiveBranch::Portfolio,
    )@
}

/// One assignment of amounts: a feasible candidate, or the reason it is rejected.
pub open spec fn rate_assessment(
    problem: RateProblem,
    amount: U256,
    source_amounts: Seq<U256>,
    destination_amounts: Seq<U256>,
) -> Result<RateCandidateView, RejectionReason> {
    let actions = movement_actions(
        problem.sources,
        source_amounts,
        problem.destinations,
        destination_amounts,
    );
    match simulation_spec(problem.snapshot, problem.projection, problem.vault, actions) {
        Err(_) => Err(RejectionReason::Simulation),
        Ok(state) => if service_constraints_spec(state, problem.snapshot, problem.vault) is Err
            || idle_violated(problem.vault, state) {
            Err(RejectionReason::Service)
        } else {
            match economic_delta_spec(
                state,
                problem.snapshot,
                problem.projection,
                problem.vault,
                problem.horizon,
                problem.no_plan,
            ) {
                Err(reason) => Err(reason),
                Ok(delta) => match metrics_spec(
                    state,
                    problem.episode,
                    problem.strategy,
                    amount,
                    delta,
                ) {
                    None => Err(RejectionReason::Simulation),
                    Some(objective) => if spread_unacceptable(
                        problem.strategy,
                        problem.episode.objective_branch,
                        problem.before_spread,
                        objective.applicable_spread,
                    ) {
                        Err(RejectionReason::SpreadWorsening)
                    } else {
                        Ok(
                            RateCandidateView {
                                actions,
                                state,
                                objective,
                                before_spread: problem.before_spread,
                            },
                        )
                    },
                },
            }
        },
    }
}

/// Progress after one more node.
pub open spec fn rate_evaluated(
    problem: RateProblem,
    amount: U256,
    source_amounts: Seq<U256>,
    destination_amounts: Seq<U256>,
    progress: RateProgress,
) -> RateProgress {
    let counted = progress.certificate.counted();
    match rate_assessment(problem, amount, source_amounts, destination_amounts) {
        Ok(candidate) => RateProgress {
            certificate: counted,
            candidates: progress.candidates.push(candidate),
        },
        Err(reason) => RateProgress { certificate: counted.rejected(reason), ..progress },
    }
}

/// Progress over the pairs of distributions from `(i, j)` on, and whether the node limit stopped
/// the search.
pub open spec fn rate_pairs_from(
    problem: RateProblem,
    amount: U256,
    source_rows: Seq<Seq<U256>>,
    destination_rows: Seq<Seq<U256>>,
    i: int,
    j: int,
    progress: RateProgress,
) -> (RateProgress, bool)
    decreases source_rows.len() - i, destination_rows.len() - j,
{
    if i >= source_rows.len() {
        (progress, false)
    } else if j >= destination_rows.len() {
        rate_pairs_from(problem, amount, source_rows, destination_rows, i + 1, 0, progress)
    } else if progress.certificate.nodes_evaluated >= progress.certificate.node_limit {
        (RateProgress { certificate: progress.certificate.incomplete(), ..progress }, true)
    } else {
        rate_pairs_from(
            problem,
            amount,
            source_rows,
            destination_rows,
            i,
            j + 1,
            rate_evaluated(problem, amount, source_rows[i], destination_rows[j], progress),
        )
    }
}

/// Enumeration bound: the smaller of the nodes left and the configured set bound.
pub open spec fn enumeration_limit(certificate: CertificateView, sets: usize) -> nat {
    let left = certificate.node_limit - certificate.nodes_evaluated;
    if left <= 0 {
        0
    } else if left < sets {
        left as nat
    } else {
        sets as nat
    }
}

/// Progress over the movement amounts from index `from` on.
pub open spec fn rate_amounts_from(
    problem: RateProblem,
    amounts: Seq<U256>,
    from: int,
    progress: RateProgress,
) -> RateProgress
    decreases amounts.len() - from,
{
    if from >= amounts.len() {
        progress
    } else if amounts[from]@ < problem.vault.minimum_action_assets@ {
        rate_amounts_from(problem, amounts, from + 1, progress)
    } else {
        let source_rows = bounded_distributions_spec(
            endpoint_maximums(problem.sources),
            problem.source_lattices,
            amounts[from],
            problem.vault.minimum_action_assets,
            enumeration_limit(progress.certificate, problem.solver.maximum_source_sets),
        );
        let destination_rows = bounded_distributions_spec(
            endpoint_maximums(problem.destinations),
            problem.destination_lattices,
            amounts[from],
            problem.vault.minimum_action_assets,
            enumeration_limit(progress.certificate, problem.solver.maximum_destination_sets),
        );
        match (source_rows, destination_rows) {
            (Some(sources), Some(destinations)) => {
                let (next, stopped) = rate_pairs_from(
                    problem,
                    amounts[from],
                    sources,
                    destinations,
                    0,
                    0,
                    progress,
                );
                if stopped {
                    next
                } else {
                    rate_amounts_from(problem, amounts, from + 1, next)
                }
            },
            _ => RateProgress { certificate: progress.certificate.incomplete(), ..progress },
        }
    }
}

/// Endpoints of the markets from index `from` on with nonzero headroom, appended to `done`; absent
/// when a market has no configured position or no projected assets.
pub open spec fn market_endpoints_from(
    markets: Seq<MarketId>,
    positions: Seq<ValidatedPositionConfig>,
    expected: Seq<(PositionKey, U256)>,
    kind: ActionKind,
    from: int,
    done: Seq<Endpoint>,
) -> Option<Seq<Endpoint>>
    decreases markets.len() - from,
{
    if from >= markets.len() {
        Some(done)
    } else {
        match market_position_from(positions, markets[from], 0) {
            None => None,
            Some(position) => match value_of(expected, position.position_key) {
                None => None,
                Some(current) => {
                    let maximum = action_headroom(position, kind, current);
                    market_endpoints_from(
                        markets,
                        positions,
                        expected,
                        kind,
                        from + 1,
                        if maximum@ == 0 {
                            done
                        } else {
                            done.push((position, maximum))
                        },
                    )
                },
            },
        }
    }
}

fn market_endpoints(
    markets: &OrderedSet<MarketId>,
    positions: &Vec<ValidatedPositionConfig>,
    expected: &OrderedMap<PositionKey, U256>,
    kind: ActionKind,
) -> (r: Option<Vec<Endpoint>>)
    ensures
        match market_endpoints_from(markets@, positions@, expected@, kind, 0, Seq::empty()) {
            Some(endpoints) => r is Some && r->0@ == endpoints,
            None => r is None,
        },
{
    let mut endpoints: Vec<Endpoint> = Vec::new();
    let mut i: usize = 0;
    while i < markets.len()
        invariant
            i <= markets@.len(),
            market_endpoints_from(markets@, positions@, expected@, kind, 0, Seq::empty())
                == market_endpoints_from(
                markets@,
                positions@,
                expected@,
                kind,
                i as int,
                endpoints@,
            ),
        decreases markets@.len() - i,
    {
        let position = find_market_position(positions, markets.at(i))?;
        let current = expected.get(position.position_key)?;
        let maximum = headroom_of(&position, kind, current);
        if !maximum.is_zero() {
            endpoints.push((position, maximum));
        }
        i = i + 1;
    }
    Some(endpoints)
}

/// Frozen problem, movement amounts and lattice identity of one search; absent when an input is
/// incomplete.
pub open spec fn rate_setup(
    snapshot: ExactVaultSnapshot,
    projection: ProjectedVaultView,
    terminal: Option<&ProjectedVaultView>,
    vault: ValidatedVaultConfig,
    strategy: ValidatedStrategyConfig,
    solver: SolverConfigCanonical,
    episode: EpisodeView,
    budget: U256,
) -> Option<(RateProblem, Seq<U256>, Seq<u8>)> {
    let portfolio = complete_spread_spec(
        episode.evaluation_markets,
        projection.markets@,
        strategy.objective,
    );
    let controllable = complete_spread_spec(
        episode.controllable_markets,
        projection.markets@,
        strategy.objective,
    );
    let base = baseline_spec(
        snapshot,
        projection.head.timestamp,
        strategy.benefit_horizon_seconds,
        terminal,
    );
    let sources = market_endpoints_from(
        episode.source_markets,
        vault.positions@,
        projection.vault.position_expected_assets@,
        ActionKind::Deallocate,
        0,
        Seq::empty(),
    );
    let destinations = market_endpoints_from(
        episode.destination_markets,
        vault.positions@,
        projection.vault.position_expected_assets@,
        ActionKind::Allocate,
        0,
        Seq::empty(),
    );
    match (portfolio, controllable, base, sources, destinations) {
        (
            Some(portfolio_spread),
            Some(controllable_spread),
            Some((horizon, no_plan)),
            Some(from),
            Some(to),
        ) => match (
            endpoint_total_from(from, 0, u256(0)),
            endpoint_total_from(to, 0, u256(0)),
        ) {
            (Some(source_total), Some(destination_total)) => {
                let limit = solver.maximum_amount_candidates_per_position;
                let minimum = vault.minimum_action_assets;
                let amounts = lattice_amounts(
                    minimum,
                    smaller(smaller(source_total, destination_total), budget),
                    seq![budget, source_total, destination_total],
                    limit,
                );
                let source_lattices = lattices_of(
                    endpoint_maximums(from),
                    minimum,
                    seq![budget, source_total],
                    limit,
                );
                let destination_lattices = lattices_of(
                    endpoint_maximums(to),
                    minimum,
                    seq![budget, destination_total],
                    limit,
                );
                let identity = lattice_hashes_from(
                    destination_lattices,
                    0,
                    lattice_hashes_from(
                        source_lattices,
                        0,
                        big_endian(lattice_hash(amounts)@, 32),
                    ),
                );
                Some(
                    (
                        RateProblem {
                            snapshot,
                            projection,
                            vault,
                            strategy,
                            solver,
                            episode,
                            horizon,
                            no_plan,
                            before_spread: match episode.objective_branch {
                                RateObjectiveBranch::Portfolio => portfolio_spread,
                                RateObjectiveBranch::Controllable => controllable_spread,
                            },
                            sources: from,
                            destinations: to,
                            source_lattices,
                            destination_lattices,
                        },
                        amounts,
                        identity,
                    ),
                )
            },
            _ => None,
        },
        _ => None,
    }
}

/// Whether a candidate from index `from` on reaches the target band.
pub open spec fn reaches_target(candidates: Seq<RateCandidateView>, target: U256) -> bool {
    exists|i: int|
        0 <= i < candidates.len() && (#[trigger] candidates[i]).objective.applicable_spread@
            <= target@
}

/// Index of the best of `best` and the candidates from index `from` on; the first among equals.
pub open spec fn best_candidate_from(
    candidates: Seq<RateCandidateView>,
    target: U256,
    reachable: bool,
    from: int,
    best: Option<int>,
) -> Option<int>
    decreases candidates.len() - from,
{
    if from >= candidates.len() {
        best
    } else {
        let next = match best {
            None => Some(from),
            Some(index) => if ranks_before_spec(
                PlanReason::RateRebalance,
                candidates[from].objective,
                candidates[index].objective,
                target,
                reachable,
            ) {
                Some(from)
            } else {
                best
            },
        };
        best_candidate_from(candidates, target, reachable, from + 1, next)
    }
}

/// Result of one bounded search under a movement budget.
pub open spec fn rate_search_spec(
    snapshot: ExactVaultSnapshot,
    projection: ProjectedVaultView,
    terminal: Option<&ProjectedVaultView>,
    vault: ValidatedVaultConfig,
    strategy: ValidatedStrategyConfig,
    solver: SolverConfigCanonical,
    episode: EpisodeView,
    budget: U256,
) -> RateResultView {
    let fresh = CertificateView::begun(solver.maximum_nodes);
    match rate_setup(
        snapshot,
        projection,
        terminal,
        vault,
        strategy,
        solver,
        episode,
        budget,
    ) {
        None => RateResultView {
            best: None,
            certificate: fresh.incomplete(),
            target_reachable: false,
        },
        Some((problem, amounts, identity)) => {
            let searched = rate_amounts_from(
                problem,
                amounts,
                0,
                RateProgress { certificate: fresh, candidates: Seq::empty() },
            );
            let target = strategy.convergence_spread_spec();
            let reachable = reaches_target(searched.candidates, target);
            RateResultView {
                best: match best_candidate_from(searched.candidates, target, reachable, 0, None) {
                    Some(index) => Some(searched.candidates[index]),
                    None => None,
                },
                certificate: searched.certificate.over_lattice(b256(keccak256_digest(identity))),
                target_reachable: reachable,
            }
        },
    }
}

/// What candidates hold.
pub open spec fn candidates_view(candidates: Seq<SolvedRateCandidate>) -> Seq<RateCandidateView> {
    Seq::new(candidates.len(), |i: int| candidates[i]@)
}

struct RateSearch<'a> {
    snapshot: &'a ExactVaultSnapshot,
    projection: &'a ProjectedVaultView,
    vault: &'a ValidatedVaultConfig,
    strategy: &'a ValidatedStrategyConfig,
    solver: &'a SolverConfigCanonical,
    episode: &'a RateSignalEpisode,
    horizon: u64,
    no_plan: U256,
    before_spread: U256,
    sources: Vec<Endpoint>,
    destinations: Vec<Endpoint>,
    source_maximums: Vec<U256>,
    destination_maximums: Vec<U256>,
    source_lattices: Vec<Vec<U256>>,
    destination_lattices: Vec<Vec<U256>>,
}

impl<'a> RateSearch<'a> {
    spec fn problem(&self) -> RateProblem {
        RateProblem {
            snapshot: *self.snapshot,
            projection: *self.projection,
            vault: *self.vault,
            strategy: *self.strategy,
            solver: *self.solver,
            episode: self.episode@,
            horizon: self.horizon,
            no_plan: self.no_plan,
            before_spread: self.before_spread,
            sources: self.sources@,
            destinations: self.destinations@,
            source_lattices: rows_view(self.source_lattices@),
            destination_lattices: rows_view(self.destination_lattices@),
        }
    }

    spec fn wf(&self) -> bool {
        &&& self.source_maximums@ == endpoint_maximums(self.sources@)
        &&& self.destination_maximums@ == endpoint_maximums(self.destinations@)
        &&& self.source_lattices.len() == self.source_maximums.len()
        &&& self.destination_lattices.len() == self.destination_maximums.len()
    }

    fn assess(&self, amount: U256, source_amounts: &Vec<U256>, destination_amounts: &Vec<U256>) -> (r:
        Result<SolvedRateCandidate, RejectionReason>)
        ensures
            match rate_assessment(
                self.problem(),
                amount,
                source_amounts@,
                destination_amounts@,
            ) {
                Ok(candidate) => r is Ok && r->Ok_0@ == candidate,
                Err(reason) => r is Err && r->Err_0 == reason,
            },
    {
        let mut actions: Vec<V2Action> = Vec::new();
        assert(actions_view(actions@) =~= Seq::<ActionView>::empty());
        push_endpoint_actions(
            &self.sources,
            source_amounts,
            ActionKind::Deallocate,
            &mut actions,
        );
        push_endpoint_actions(
            &self.destinations,
            destination_amounts,
            ActionKind::Allocate,
            &mut actions,
        );
        let state = match simulate_actions(self.snapshot, self.projection, self.vault, &actions) {
            Ok(state) => state,
            Err(_) => return Err(RejectionReason::Simulation),
        };
        match state.validate_service_constraints(self.snapshot, self.vault) {
            Ok(_) => {},
            Err(_) => return Err(RejectionReason::Service),
        }
        let idle_is_invalid = match state.unreserved_idle() {
            Ok(idle) => self.vault.maximum_rounding_dust_assets.lt(idle),
            Err(_) => true,
        };
        if self.vault.strict_zero_routine_idle && idle_is_invalid {
            return Err(RejectionReason::Service);
        }
        let delta = economic_delta(
            &state,
            self.snapshot,
            self.projection,
            self.vault,
            self.horizon,
            self.no_plan,
        )?;
        let objective = metrics(&state, self.episode, self.strategy, amount, delta).ok_or(
            RejectionReason::Simulation,
        )?;
        let maximum_allowed = match self.before_spread.checked_add(
            self.strategy.portfolio_spread_tolerance(),
        ) {
            Some(value) => value,
            None => U256::max_value(),
        };
        if maximum_allowed.lt(objective.applicable_spread) {
            return Err(RejectionReason::SpreadWorsening);
        }
        let minimum_improvement = self.strategy.minimum_improvement(
            self.episode.objective_branch == RateObjectiveBranch::Portfolio,
        );
        if self.before_spread.saturating_sub(objective.applicable_spread).lt(minimum_improvement) {
            return Err(RejectionReason::SpreadWorsening);
        }
        Ok(SolvedRateCandidate { actions, state, objective, before_spread: self.before_spread })
    }

    fn search_pairs(
        &self,
        amount: U256,
        source_rows: &Vec<Vec<U256>>,
        destination_rows: &Vec<Vec<U256>>,
        certificate: &mut SearchCertificate,
        candidates: &mut Vec<SolvedRateCandidate>,
    ) -> (stopped: bool)
        ensures
            (
                RateProgress {
                    certificate: final(certificate)@,
                    candidates: candidates_view(final(candidates)@),
                },
                stopped,
            ) == rate_pairs_from(
                self.problem(),
                amount,
                rows_view(source_rows@),
                rows_view(destination_rows@),
                0,
                0,
                RateProgress {
                    certificate: old(certificate)@,
                    candidates: candidates_view(old(candidates)@),
                },
            ),
    {
        let ghost problem = self.problem();
        let ghost from = rows_view(source_rows@);
        let ghost to = rows_view(destination_rows@);
        let ghost goal = rate_pairs_from(
            problem,
            amount,
            from,
            to,
            0,
            0,
            RateProgress {
                certificate: certificate@,
                candidates: candidates_view(candidates@),
            },
        );
        let mut i: usize = 0;
        while i < source_rows.len()
            invariant
                i <= source_rows.len(),
                problem == self.problem(),
                from == rows_view(source_rows@),
                to == rows_view(destination_rows@),
                goal == rate_pairs_from(
                    self.problem(),
                    amount,
                    rows_view(source_rows@),
                    rows_view(destination_rows@),
                    0,
                    0,
                    RateProgress {
                        certificate: old(certificate)@,
                        candidates: candidates_view(old(candidates)@),
                    },
                ),
                goal == rate_pairs_from(
                    problem,
                    amount,
                    from,
                    to,
                    i as int,
                    0,
                    RateProgress {
                        certificate: certificate@,
                        candidates: candidates_view(candidates@),
                    },
                ),
            decreases source_rows.len() - i,
        {
            let mut j: usize = 0;
            while j < destination_rows.len()
                invariant
                    i < source_rows.len(),
                    j <= destination_rows.len(),
                    problem == self.problem(),
                    from == rows_view(source_rows@),
                    to == rows_view(destination_rows@),
                    goal == rate_pairs_from(
                        self.problem(),
                        amount,
                        rows_view(source_rows@),
                        rows_view(destination_rows@),
                        0,
                        0,
                        RateProgress {
                            certificate: old(certificate)@,
                            candidates: candidates_view(old(candidates)@),
                        },
                    ),
                    goal == rate_pairs_from(
                        problem,
                        amount,
                        from,
                        to,
                        i as int,
                        j as int,
                        RateProgress {
                            certificate: certificate@,
                            candidates: candidates_view(candidates@),
                        },
                    ),
                decreases destination_rows.len() - j,
            {
                if certificate.nodes_evaluated >= certificate.node_limit {
                    certificate.search_complete = false;
                    return true;
                }
                certificate.nodes_evaluated = certificate.nodes_evaluated + 1;
                assert(from[i as int] == source_rows@[i as int]@);
                assert(to[j as int] == destination_rows@[j as int]@);
                match self.assess(amount, &source_rows[i], &destination_rows[j]) {
                    Ok(candidate) => {
                        let ghost held = candidates_view(candidates@);
                        let ghost found = candidate@;
                        candidates.push(candidate);
                        assert(candidates_view(candidates@) =~= held.push(found));
                    },
                    Err(reason) => {
                        let _counted = certificate.reject(reason);
                    },
                }
                j = j + 1;
            }
            i = i + 1;
        }
        false
    }

    fn search_amounts(
        &self,
        amounts: &Vec<U256>,
        certificate: &mut SearchCertificate,
        candidates: &mut Vec<SolvedRateCandidate>,
    )
        requires
            self.wf(),
        ensures
            (RateProgress {
                certificate: final(certificate)@,
                candidates: candidates_view(final(candidates)@),
            }) == rate_amounts_from(
                self.problem(),
                amounts@,
                0,
                RateProgress {
                    certificate: old(certificate)@,
                    candidates: candidates_view(old(candidates)@),
                },
            ),
    {
        let ghost goal = rate_amounts_from(
            self.problem(),
            amounts@,
            0,
            RateProgress {
                certificate: certificate@,
                candidates: candidates_view(candidates@),
            },
        );
        let mut i: usize = 0;
        while i < amounts.len()
            invariant
                i <= amounts.len(),
                self.wf(),
                goal == rate_amounts_from(
                    self.problem(),
                    amounts@,
                    0,
                    RateProgress {
                        certificate: old(certificate)@,
                        candidates: candidates_view(old(candidates)@),
                    },
                ),
                goal == rate_amounts_from(
                    self.problem(),
                    amounts@,
                    i as int,
                    RateProgress {
                        certificate: certificate@,
                        candidates: candidates_view(candidates@),
                    },
                ),
            decreases amounts.len() - i,
        {
            let amount = amounts[i];
            if self.vault.minimum_action_assets.le(amount) {
                let source_rows = match bounded_distributions(
                    &self.source_maximums,
                    &self.source_lattices,
                    amount,
                    self.vault.minimum_action_assets,
                    nodes_left(certificate, self.solver.maximum_source_sets),
                ) {
                    Some(rows) => rows,
                    None => {
                        certificate.search_complete = false;
                        return;
                    },
                };
                let destination_rows = match bounded_distributions(
                    &self.destination_maximums,
                    &self.destination_lattices,
                    amount,
                    self.vault.minimum_action_assets,
                    nodes_left(certificate, self.solver.maximum_destination_sets),
                ) {
                    Some(rows) => rows,
                    None => {
                        certificate.search_complete = false;
                        return;
                    },
                };
                if self.search_pairs(
                    amount,
                    &source_rows,
                    &destination_rows,
                    certificate,
                    candidates,
                ) {
                    return;
                }
            }
            i = i + 1;
        }
    }
}

/// Enumeration bound: the smaller of the nodes left and the configured set bound.
pub(crate) fn nodes_left(certificate: &SearchCertificate, sets: usize) -> (r: usize)
    ensures
        r == enumeration_limit(certificate@, sets),
{
    if certificate.node_limit <= certificate.nodes_evaluated {
        return 0;
    }
    let left: u64 = certificate.node_limit - certificate.nodes_evaluated;
    if left < sets as u64 {
        left as usize
    } else {
        sets
    }
}

fn any_reaches(candidates: &Vec<SolvedRateCandidate>, target: U256) -> (r: bool)
    ensures
        r == reaches_target(candidates_view(candidates@), target),
{
    let mut i: usize = 0;
    while i < candidates.len()
        invariant
            i <= candidates.len(),
            forall|k: int|
                0 <= k < i ==> (#[trigger] candidates_view(
                    candidates@,
                )[k]).objective.applicable_spread@ > target@,
        decreases candidates.len() - i,
    {
        if candidates[i].objective.applicable_spread.le(target) {
            assert(candidates_view(candidates@)[i as int].objective.applicable_spread@ <= target@);
            return true;
        }
        i = i + 1;
    }
    false
}

fn best_index(candidates: &Vec<SolvedRateCandidate>, target: U256, reachable: bool) -> (r: Option<
    usize,
>)
    ensures
        (match r {
            Some(index) => Some(index as int),
            None => None::<int>,
        }) == best_candidate_from(candidates_view(candidates@), target, reachable, 0, None),
        r is Some ==> r->0 < candidates.len(),
{
    let ghost views = candidates_view(candidates@);
    let mut best: Option<usize> = None;
    let mut i: usize = 0;
    while i < candidates.len()
        invariant
            i <= candidates.len(),
            views == candidates_view(candidates@),
            best is Some ==> best->0 < i,
            best_candidate_from(views, target, reachable, 0, None) == best_candidate_from(
                views,
                target,
                reachable,
                i as int,
                match best {
                    Some(index) => Some(index as int),
                    None => None,
                },
            ),
        decreases candidates.len() - i,
    {
        best =
        match best {
            None => Some(i),
            Some(index) => if ranks_before(
                PlanReason::RateRebalance,
                &candidates[i].objective,
                &candidates[index].objective,
                target,
                reachable,
            ) {
                Some(i)
            } else {
                Some(index)
            },
        };
        i = i + 1;
    }
    best
}

fn prepare<'a>(
    snapshot: &'a ExactVaultSnapshot,
    projection: &'a ProjectedVaultView,
    terminal: Option<&ProjectedVaultView>,
    vault: &'a ValidatedVaultConfig,
    strategy: &'a ValidatedStrategyConfig,
    solver: &'a SolverConfigCanonical,
    episode: &'a RateSignalEpisode,
    budget: U256,
) -> (r: Option<(RateSearch<'a>, Vec<U256>, Vec<u8>)>)
    ensures
        match rate_setup(
            *snapshot,
            *projection,
            terminal,
            *vault,
            *strategy,
            *solver,
            episode@,
            budget,
        ) {
            Some((problem, amounts, identity)) => r is Some && (r->0).0.wf() && (
            r->0).0.problem() == problem && (r->0).1@ == amounts && (r->0).2@ == identity,
            None => r is None,
        },
{
    let portfolio = complete_strategy_spread(
        &episode.evaluation_markets,
        &projection.markets,
        strategy.objective,
    )?;
    let controllable = complete_strategy_spread(
        &episode.controllable_markets,
        &projection.markets,
        strategy.objective,
    )?;
    let before_spread = match episode.objective_branch {
        RateObjectiveBranch::Portfolio => portfolio,
        RateObjectiveBranch::Controllable => controllable,
    };
    let (horizon, no_plan) = baseline(
        snapshot,
        projection.head.timestamp,
        strategy.benefit_horizon_seconds,
        terminal,
    )?;
    let sources = market_endpoints(
        &episode.source_markets,
        &vault.positions,
        &projection.vault.position_expected_assets,
        ActionKind::Deallocate,
    )?;
    let destinations = market_endpoints(
        &episode.destination_markets,
        &vault.positions,
        &projection.vault.position_expected_assets,
        ActionKind::Allocate,
    )?;
    let source_total = endpoint_total(&sources)?;
    let destination_total = endpoint_total(&destinations)?;
    let maximum = source_total.min(destination_total).min(budget);
    let limit: usize = solver.maximum_amount_candidates_per_position;
    let minimum = vault.minimum_action_assets;
    let movement_boundaries: Vec<U256> = vec![budget, source_total, destination_total];
    assert(movement_boundaries@ =~= seq![budget, source_total, destination_total]);
    let movement = build_candidate_lattice(minimum, maximum, &movement_boundaries, limit);
    let mut identity: Vec<u8> = movement.hash.to_bytes();
    let source_maximums = list_maximums(&sources);
    let source_boundaries: Vec<U256> = vec![budget, source_total];
    assert(source_boundaries@ =~= seq![budget, source_total]);
    let source_lattices = build_lattices(
        &source_maximums,
        minimum,
        &source_boundaries,
        limit,
        &mut identity,
    );
    let destination_maximums = list_maximums(&destinations);
    let destination_boundaries: Vec<U256> = vec![budget, destination_total];
    assert(destination_boundaries@ =~= seq![budget, destination_total]);
    let destination_lattices = build_lattices(
        &destination_maximums,
        minimum,
        &destination_boundaries,
        limit,
        &mut identity,
    );
    Some(
        (
            RateSearch {
                snapshot,
                projection,
                vault,
                strategy,
                solver,
                episode,
                horizon,
                no_plan,
                before_spread,
                sources,
                destinations,
                source_maximums,
                destination_maximums,
                source_lattices,
                destination_lattices,
            },
            movement.amounts,
            identity,
        ),
    )
}

/// Searches complete multi-source/multi-destination final allocations on one bounded lattice.
///
/// `terminal` is the snapshot projected to exactly the benefit horizon without any action; without
/// one the search is incomplete.
pub fn search_rate_rebalance(
    snapshot: &ExactVaultSnapshot,
    projection: &ProjectedVaultView,
    terminal: Option<&ProjectedVaultView>,
    vault: &ValidatedVaultConfig,
    strategy: &ValidatedStrategyConfig,
    solver: &SolverConfigCanonical,
    episode: &RateSignalEpisode,
    budget: U256,
) -> (r: RateSolveResult)
    ensures
        r@ == rate_search_spec(
            *snapshot,
            *projection,
            terminal,
            *vault,
            *strategy,
            *solver,
            episode@,
            budget,
        ),
{
    broadcast use group_b256;

    let mut certificate = SearchCertificate::begin(solver.maximum_nodes);
    let (search, amounts, identity) = match prepare(
        snapshot,
        projection,
        terminal,
        vault,
        strategy,
        solver,
        episode,
        budget,
    ) {
        Some(prepared) => prepared,
        None => {
            certificate.search_complete = false;
            return RateSolveResult { best: None, certificate, target_reachable: false };
        },
    };
    let mut candidates: Vec<SolvedRateCandidate> = Vec::new();
    assert(candidates_view(candidates@) =~= Seq::<RateCandidateView>::empty());
    search.search_amounts(&amounts, &mut certificate, &mut candidates);
    certificate.candidate_lattice_hash = keccak256(identity.as_slice());
    let target = strategy.convergence_spread();
    let target_reachable = any_reaches(&candidates, target);
    let best = match best_index(&candidates, target, target_reachable) {
        Some(index) => {
            let ghost views = candidates_view(candidates@);
            let candidate = candidates.remove(index);
            assert(candidate@ == views[index as int]);
            Some(candidate)
        },
        None => None,
    };
    RateSolveResult { best, certificate, target_reachable }
}

/// Result when the episode offers no movement budget.
pub open spec fn episode_rejection_spec(solver: SolverConfigCanonical) -> RateResultView {
    RateResultView {
        best: None,
        certificate: CertificateView::begun(solver.maximum_nodes).rejected(
            RejectionReason::Episode,
        ),
        target_reachable: false,
    }
}

fn episode_rejection(solver: &SolverConfigCanonical) -> (r: RateSolveResult)
    ensures
        r@ == episode_rejection_spec(*solver),
{
    let mut certificate = SearchCertificate::begin(solver.maximum_nodes);
    let _counted = certificate.reject(RejectionReason::Episode);
    RateSolveResult { best: None, certificate, target_reachable: false }
}

/// Counts with the entries of `second` from index `from` on added, and whether none overflowed; an
/// overflowing counter keeps its value.
pub open spec fn merged_counts_from(
    counts: Seq<(RejectionReason, u64)>,
    second: Seq<(RejectionReason, u64)>,
    from: int,
    complete: bool,
) -> (Seq<(RejectionReason, u64)>, bool)
    decreases second.len() - from,
{
    if from >= second.len() {
        (counts, complete)
    } else {
        let (reason, added) = second[from];
        let held: u64 = match value_of(counts, reason) {
            Some(count) => count,
            None => 0,
        };
        if held + added <= u64::MAX {
            merged_counts_from(
                with_value(counts, reason, (held + added) as u64),
                second,
                from + 1,
                complete,
            )
        } else {
            merged_counts_from(with_value(counts, reason, held), second, from + 1, false)
        }
    }
}

fn merge_counts(
    counts: &mut OrderedMap<RejectionReason, u64>,
    second: &OrderedMap<RejectionReason, u64>,
) -> (complete: bool)
    ensures
        (final(counts)@, complete) == merged_counts_from(old(counts)@, second@, 0, true),
{
    let mut complete = true;
    let mut i: usize = 0;
    while i < second.len()
        invariant
            i <= second@.len(),
            merged_counts_from(old(counts)@, second@, 0, true) == merged_counts_from(
                counts@,
                second@,
                i as int,
                complete,
            ),
        decreases second@.len() - i,
    {
        let (reason, added) = second.at(i);
        let held: u64 = match counts.get(reason) {
            Some(count) => count,
            None => 0,
        };
        match held.checked_add(added) {
            Some(combined) => {
                counts.insert(reason, combined);
            },
            None => {
                counts.insert(reason, held);
                complete = false;
            },
        }
        i = i + 1;
    }
    complete
}

/// Checked sum, clamped to the largest value.
pub open spec fn clamped_sum(a: u64, b: u64) -> u64 {
    if a + b <= u64::MAX {
        (a + b) as u64
    } else {
        u64::MAX
    }
}

/// Evidence of two searches and the movement limits that connect them.
pub open spec fn combined_certificate(
    first: CertificateView,
    second: CertificateView,
    optimal_movement: U256,
    tranche_limit: U256,
) -> CertificateView {
    let (counts, counters_complete) = merged_counts_from(
        first.rejection_counts,
        second.rejection_counts,
        0,
        true,
    );
    CertificateView {
        candidate_lattice_hash: b256(
            keccak256_digest(
                big_endian(first.candidate_lattice_hash@, 32) + big_endian(
                    second.candidate_lattice_hash@,
                    32,
                ) + big_endian(optimal_movement@, 32) + big_endian(tranche_limit@, 32),
            ),
        ),
        nodes_evaluated: clamped_sum(first.nodes_evaluated, second.nodes_evaluated),
        node_limit: clamped_sum(first.node_limit, second.node_limit),
        search_complete: first.search_complete && second.search_complete && first.nodes_evaluated
            + second.nodes_evaluated <= u64::MAX && first.node_limit + second.node_limit
            <= u64::MAX && counters_complete,
        rejection_counts: counts,
    }
}

fn combine_search_certificates(
    first: &SearchCertificate,
    second: &SearchCertificate,
    optimal_movement: U256,
    tranche_limit: U256,
) -> (r: SearchCertificate)
    ensures
        r@ == combined_certificate(first@, second@, optimal_movement, tranche_limit),
{
    broadcast use group_b256;

    let mut encoded: Vec<u8> = first.candidate_lattice_hash.to_bytes();
    append_bytes(&mut encoded, &second.candidate_lattice_hash.to_bytes());
    append_bytes(&mut encoded, &optimal_movement.to_be_bytes());
    append_bytes(&mut encoded, &tranche_limit.to_be_bytes());
    let nodes: Option<u64> = first.nodes_evaluated.checked_add(second.nodes_evaluated);
    let limit: Option<u64> = first.node_limit.checked_add(second.node_limit);
    let mut rejection_counts = first.rejection_counts.clone();
    let counters_complete = merge_counts(&mut rejection_counts, &second.rejection_counts);
    SearchCertificate {
        candidate_lattice_hash: keccak256(encoded.as_slice()),
        nodes_evaluated: match nodes {
            Some(value) => value,
            None => u64::MAX,
        },
        node_limit: match limit {
            Some(value) => value,
            None => u64::MAX,
        },
        search_complete: first.search_complete && second.search_complete && nodes.is_some()
            && limit.is_some() && counters_complete,
        rejection_counts,
    }
}

/// The tranche of the optimal movement, within the unlocked budget; absent when the product
/// overflows.
pub open spec fn movement_limit_spec(
    optimal_movement: U256,
    unlocked_budget: U256,
    tranche_bps: u32,
) -> Option<U256> {
    match mul_div_down_spec(optimal_movement, u256(tranche_bps as nat), u256(10_000)) {
        Ok(tranche) => Some(smaller(tranche, unlocked_budget)),
        Err(_) => None,
    }
}

/// Takes the tranche of the optimal movement, never of raw capacity, within the unlocked budget.
pub fn constrained_movement_limit(
    optimal_movement: U256,
    unlocked_budget: U256,
    tranche_bps: u32,
) -> (r: Option<U256>)
    ensures
        r == movement_limit_spec(optimal_movement, unlocked_budget, tranche_bps),
{
    match mul_div_down(
        optimal_movement,
        U256::from_u64(tranche_bps as u64),
        U256::from_u64(10_000),
    ) {
        Ok(tranche) => Some(tranche.min(unlocked_budget)),
        Err(_) => None,
    }
}

/// Whether evidence supports execution: a complete search within its node limit.
pub open spec fn executable(certificate: CertificateView) -> bool {
    certificate.search_complete && certificate.nodes_evaluated <= certificate.node_limit
}

/// Full search, then a fresh search under the tranche of its optimal movement.
pub open spec fn rate_solve_spec(
    snapshot: ExactVaultSnapshot,
    projection: ProjectedVaultView,
    terminal: Option<&ProjectedVaultView>,
    vault: ValidatedVaultConfig,
    strategy: ValidatedStrategyConfig,
    solver: SolverConfigCanonical,
    episode: EpisodeView,
) -> RateResultView {
    match episode.remaining() {
        Err(_) => episode_rejection_spec(solver),
        Ok(full_budget) => {
            let full = rate_search_spec(
                snapshot,
                projection,
                terminal,
                vault,
                strategy,
                solver,
                episode,
                full_budget,
            );
            if !executable(full.certificate) {
                full
            } else {
                match full.best {
                    None => full,
                    Some(candidate) => {
                        let optimal = candidate.objective.movement_assets;
                        match episode.available() {
                            Err(_) => episode_rejection_spec(solver),
                            Ok(unlocked) => match movement_limit_spec(
                                optimal,
                                unlocked,
                                strategy.immediate_tranche_bps,
                            ) {
                                None => episode_rejection_spec(solver),
                                Some(limit) => if limit@ >= optimal@ {
                                    full
                                } else {
                                    let constrained = rate_search_spec(
                                        snapshot,
                                        projection,
                                        terminal,
                                        vault,
                                        strategy,
                                        solver,
                                        episode,
                                        limit,
                                    );
                                    RateResultView {
                                        certificate: combined_certificate(
                                            full.certificate,
                                            constrained.certificate,
                                            optimal,
                                            limit,
                                        ),
                                        ..constrained
                                    }
                                },
                            },
                        }
                    },
                }
            }
        },
    }
}

/// Finds the best full movement and then performs a fresh search under the configured tranche.
///
/// The percentage is applied to the solver's optimal total movement, never to raw market
/// capacity and never by scaling already-built actions. The second search rebuilds and simulates
/// complete multi-source/multi-destination action vectors under the smaller total limit.
/// `terminal` is the snapshot projected to exactly the benefit horizon without any action; without
/// one the search is incomplete.
pub fn solve_rate_rebalance(
    snapshot: &ExactVaultSnapshot,
    projection: &ProjectedVaultView,
    terminal: Option<&ProjectedVaultView>,
    vault: &ValidatedVaultConfig,
    strategy: &ValidatedStrategyConfig,
    solver: &SolverConfigCanonical,
    episode: &RateSignalEpisode,
) -> (r: RateSolveResult)
    ensures
        r@ == rate_solve_spec(
            *snapshot,
            *projection,
            terminal,
            *vault,
            *strategy,
            *solver,
            episode@,
        ),
{
    let full_budget = match episode.remaining_budget() {
        Ok(value) => value,
        Err(_) => return episode_rejection(solver),
    };
    let full = search_rate_rebalance(
        snapshot,
        projection,
        terminal,
        vault,
        strategy,
        solver,
        episode,
        full_budget,
    );
    if !full.certificate.executable_rate_search() {
        return full;
    }
    let optimal_movement = match &full.best {
        Some(candidate) => candidate.objective.movement_assets,
        None => return full,
    };
    let unlocked_budget = match episode.available_budget() {
        Ok(value) => value,
        Err(_) => return episode_rejection(solver),
    };
    let constrained_limit = match constrained_movement_limit(
        optimal_movement,
        unlocked_budget,
        strategy.immediate_tranche_bps,
    ) {
        Some(value) => value,
        None => return episode_rejection(solver),
    };
    if optimal_movement.le(constrained_limit) {
        return full;
    }
    let constrained = search_rate_rebalance(
        snapshot,
        projection,
        terminal,
        vault,
        strategy,
        solver,
        episode,
        constrained_limit,
    );
    let certificate = combine_search_certificates(
        &full.certificate,
        &constrained.certificate,
        optimal_movement,
        constrained_limit,
    );
    RateSolveResult {
        best: constrained.best,
        certificate,
        target_reachable: constrained.target_reachable,
    }
}

/// Whether a candidate passed every hard gate of its problem.
pub open spec fn rate_feasible(problem: RateProblem, candidate: RateCandidateView) -> bool {
    &&& simulation_spec(problem.snapshot, problem.projection, problem.vault, candidate.actions)
        == Ok::<SimulationView, crate::planner::simulator::SimulationError>(candidate.state)
    &&& service_constraints_spec(candidate.state, problem.snapshot, problem.vault) is Ok
    &&& candidate.state.immediate_loss_assets@
        <= problem.vault.maximum_immediate_rebalance_loss_assets@
    &&& !spread_unacceptable(
        problem.strategy,
        problem.episode.objective_branch,
        problem.before_spread,
        candidate.objective.applicable_spread,
    )
}

/// Whether progress respects the node limit and holds only feasible candidates whose movement is
/// one of the amounts searched.
spec fn rate_progress_sound(
    problem: RateProblem,
    amounts: Seq<U256>,
    progress: RateProgress,
) -> bool {
    &&& progress.certificate.nodes_evaluated <= progress.certificate.node_limit
    &&& forall|i: int|
        0 <= i < progress.candidates.len() ==> rate_feasible(
            problem,
            #[trigger] progress.candidates[i],
        ) && amounts.contains(progress.candidates[i].objective.movement_assets)
}

proof fn lemma_rate_pairs(
    problem: RateProblem,
    amounts: Seq<U256>,
    amount: U256,
    source_rows: Seq<Seq<U256>>,
    destination_rows: Seq<Seq<U256>>,
    i: int,
    j: int,
    progress: RateProgress,
)
    requires
        0 <= i <= source_rows.len(),
        0 <= j <= destination_rows.len(),
        amounts.contains(amount),
        rate_progress_sound(problem, amounts, progress),
    ensures
        rate_progress_sound(
            problem,
            amounts,
            rate_pairs_from(
                problem,
                amount,
                source_rows,
                destination_rows,
                i,
                j,
                progress,
            ).0,
        ),
        rate_pairs_from(
            problem,
            amount,
            source_rows,
            destination_rows,
            i,
            j,
            progress,
        ).0.certificate.node_limit == progress.certificate.node_limit,
        rate_pairs_from(problem, amount, source_rows, destination_rows, i, j, progress).1
            ==> !rate_pairs_from(
            problem,
            amount,
            source_rows,
            destination_rows,
            i,
            j,
            progress,
        ).0.certificate.search_complete,
    decreases source_rows.len() - i, destination_rows.len() - j,
{
    if i < source_rows.len() {
        if j >= destination_rows.len() {
            lemma_rate_pairs(
                problem,
                amounts,
                amount,
                source_rows,
                destination_rows,
                i + 1,
                0,
                progress,
            );
        } else if progress.certificate.nodes_evaluated < progress.certificate.node_limit {
            let next = rate_evaluated(
                problem,
                amount,
                source_rows[i],
                destination_rows[j],
                progress,
            );
            assert forall|k: int| 0 <= k < next.candidates.len() implies rate_feasible(
                problem,
                #[trigger] next.candidates[k],
            ) && amounts.contains(next.candidates[k].objective.movement_assets) by {
                if k < progress.candidates.len() {
                    assert(next.candidates[k] == progress.candidates[k]);
                }
            }
            lemma_rate_pairs(
                problem,
                amounts,
                amount,
                source_rows,
                destination_rows,
                i,
                j + 1,
                next,
            );
        }
    }
}

proof fn lemma_rate_amounts(
    problem: RateProblem,
    amounts: Seq<U256>,
    from: int,
    progress: RateProgress,
)
    requires
        0 <= from <= amounts.len(),
        rate_progress_sound(problem, amounts, progress),
    ensures
        rate_progress_sound(
            problem,
            amounts,
            rate_amounts_from(problem, amounts, from, progress),
        ),
        rate_amounts_from(problem, amounts, from, progress).certificate.node_limit
            == progress.certificate.node_limit,
    decreases amounts.len() - from,
{
    if from < amounts.len() {
        if amounts[from]@ < problem.vault.minimum_action_assets@ {
            lemma_rate_amounts(problem, amounts, from + 1, progress);
        } else {
            let source_rows = bounded_distributions_spec(
                endpoint_maximums(problem.sources),
                problem.source_lattices,
                amounts[from],
                problem.vault.minimum_action_assets,
                enumeration_limit(progress.certificate, problem.solver.maximum_source_sets),
            );
            let destination_rows = bounded_distributions_spec(
                endpoint_maximums(problem.destinations),
                problem.destination_lattices,
                amounts[from],
                problem.vault.minimum_action_assets,
                enumeration_limit(progress.certificate, problem.solver.maximum_destination_sets),
            );
            if source_rows is Some && destination_rows is Some {
                assert(amounts.contains(amounts[from]));
                lemma_rate_pairs(
                    problem,
                    amounts,
                    amounts[from],
                    source_rows->0,
                    destination_rows->0,
                    0,
                    0,
                    progress,
                );
                let (next, stopped) = rate_pairs_from(
                    problem,
                    amounts[from],
                    source_rows->0,
                    destination_rows->0,
                    0,
                    0,
                    progress,
                );
                if !stopped {
                    lemma_rate_amounts(problem, amounts, from + 1, next);
                }
            }
        }
    }
}

proof fn lemma_best_candidate(
    candidates: Seq<RateCandidateView>,
    target: U256,
    reachable: bool,
    from: int,
    best: Option<int>,
)
    requires
        0 <= from <= candidates.len(),
        from > 0 ==> best is Some,
        match best {
            Some(index) => 0 <= index < from && forall|i: int|
                0 <= i < from ==> !ranks_before_spec(
                    PlanReason::RateRebalance,
                    (#[trigger] candidates[i]).objective,
                    candidates[index].objective,
                    target,
                    reachable,
                ),
            None => true,
        },
    ensures
        match best_candidate_from(candidates, target, reachable, from, best) {
            Some(index) => 0 <= index < candidates.len() && forall|i: int|
                0 <= i < candidates.len() ==> !ranks_before_spec(
                    PlanReason::RateRebalance,
                    (#[trigger] candidates[i]).objective,
                    candidates[index].objective,
                    target,
                    reachable,
                ),
            None => candidates.len() == 0,
        },
    decreases candidates.len() - from,
{
    if from < candidates.len() {
        let next = match best {
            None => Some(from),
            Some(index) => if ranks_before_spec(
                PlanReason::RateRebalance,
                candidates[from].objective,
                candidates[index].objective,
                target,
                reachable,
            ) {
                Some(from)
            } else {
                best
            },
        };
        let at = next->0;
        assert forall|i: int| 0 <= i < from + 1 implies !ranks_before_spec(
            PlanReason::RateRebalance,
            (#[trigger] candidates[i]).objective,
            candidates[at].objective,
            target,
            reachable,
        ) by {
            if at == from {
                let index = match best {
                    Some(index) => index,
                    None => from,
                };
                crate::planner::objective::ranking_is_a_strict_order(
                    PlanReason::RateRebalance,
                    candidates[i].objective,
                    candidates[from].objective,
                    candidates[index].objective,
                    target,
                    reachable,
                );
            }
        }
        lemma_best_candidate(candidates, target, reachable, from + 1, next);
    }
}

/// A bounded rate search evaluates at most the configured nodes, and its best candidate passed
/// every hard gate, moves no more than the budget and is preceded by no other feasible candidate.
pub proof fn rate_search_is_bounded_feasible_and_optimal(
    snapshot: ExactVaultSnapshot,
    projection: ProjectedVaultView,
    terminal: Option<&ProjectedVaultView>,
    vault: ValidatedVaultConfig,
    strategy: ValidatedStrategyConfig,
    solver: SolverConfigCanonical,
    episode: EpisodeView,
    budget: U256,
)
    ensures
        ({
            let result = rate_search_spec(
                snapshot,
                projection,
                terminal,
                vault,
                strategy,
                solver,
                episode,
                budget,
            );
            let setup = rate_setup(
                snapshot,
                projection,
                terminal,
                vault,
                strategy,
                solver,
                episode,
                budget,
            );
            &&& result.certificate.nodes_evaluated <= solver.maximum_nodes
            &&& result.certificate.node_limit == solver.maximum_nodes
            &&& setup is None ==> !result.certificate.search_complete && result.best is None
            &&& result.best is Some ==> {
                let (problem, amounts, _) = setup->0;
                let candidates = rate_amounts_from(
                    problem,
                    amounts,
                    0,
                    RateProgress {
                        certificate: CertificateView::begun(solver.maximum_nodes),
                        candidates: Seq::empty(),
                    },
                ).candidates;
                &&& rate_feasible(problem, result.best->0)
                &&& result.best->0.objective.movement_assets@ <= budget@
                &&& forall|i: int|
                    0 <= i < candidates.len() ==> !ranks_before_spec(
                        PlanReason::RateRebalance,
                        (#[trigger] candidates[i]).objective,
                        result.best->0.objective,
                        strategy.convergence_spread_spec(),
                        result.target_reachable,
                    )
            }
        }),
{
    let setup = rate_setup(
        snapshot,
        projection,
        terminal,
        vault,
        strategy,
        solver,
        episode,
        budget,
    );
    if setup is Some {
        let (problem, amounts, _) = setup->0;
        let first = RateProgress {
            certificate: CertificateView::begun(solver.maximum_nodes),
            candidates: Seq::empty(),
        };
        lemma_rate_amounts(problem, amounts, 0, first);
        let searched = rate_amounts_from(problem, amounts, 0, first);
        let target = strategy.convergence_spread_spec();
        let reachable = reaches_target(searched.candidates, target);
        lemma_best_candidate(searched.candidates, target, reachable, 0, None);
        let source_total = endpoint_total_from(problem.sources, 0, u256(0))->0;
        let destination_total = endpoint_total_from(problem.destinations, 0, u256(0))->0;
        crate::planner::candidates::lattice_keeps_exact_boundaries(
            vault.minimum_action_assets,
            smaller(smaller(source_total, destination_total), budget),
            seq![budget, source_total, destination_total],
            solver.maximum_amount_candidates_per_position,
        );
        if let Some(index) = best_candidate_from(
            searched.candidates,
            target,
            reachable,
            0,
            None,
        ) {
            let movement = searched.candidates[index].objective.movement_assets;
            assert(amounts.contains(movement));
            let k = choose|k: int| 0 <= k < amounts.len() && amounts[k] == movement;
            assert(amounts[k]@ <= budget@);
        }
    }
}

/// The tranche never exceeds the optimal movement or the unlocked budget.
pub proof fn tranche_stays_within_optimum_and_budget(
    optimal_movement: U256,
    unlocked_budget: U256,
    tranche_bps: u32,
)
    requires
        tranche_bps <= 10_000,
        movement_limit_spec(optimal_movement, unlocked_budget, tranche_bps) is Some,
    ensures
        ({
            let limit = movement_limit_spec(optimal_movement, unlocked_budget, tranche_bps)->0;
            limit@ <= optimal_movement@ && limit@ <= unlocked_budget@ && limit@ * 10_000
                <= optimal_movement@ * tranche_bps
        }),
{
    broadcast use group_u256;

    let product = optimal_movement@ * (tranche_bps as nat);
    assert(product / 10_000 <= optimal_movement@ && (product / 10_000) * 10_000 <= product)
        by (nonlinear_arith)
        requires
            product == optimal_movement@ * (tranche_bps as nat),
            tranche_bps <= 10_000,
    ;
}

} // verus!
