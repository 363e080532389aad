//! Pure deterministic planning and sequential simulation.

use std::sync::Arc;

use vstd::prelude::*;

use crate::collections::{value_of, OrderedMap};
use crate::config::{
    SolverConfigCanonical, StrategyObjective, ValidatedStrategyConfig, ValidatedVaultConfig,
};
use crate::domain::{actions_view, ActionView, BlockRef, ExactVaultSnapshot, ProjectedVaultView, V2Action};
use crate::planner::capital::{
    capital_solve_spec, solve_capital_deployment, CapitalResultView, CapitalSolveResult,
    PendingDeployment,
};
use crate::planner::episodes::RateSignalEpisode;
use crate::planner::liquidity::{
    maintenance_solve_spec, solve_liquidity_maintenance, LiquidityResultView, LiquiditySolveResult,
};
use crate::planner::rate::{
    executable, rate_solve_spec, solve_rate_rebalance, RateResultView, RateSolveResult,
};
use crate::planner::scheduler::ResourceReservations;
use crate::planner::simulator::{simulate_actions, simulation_spec};
use crate::primitives::B256;

pub mod candidates;
pub mod cap_order;
pub mod capital;
pub mod capital_laws;
pub mod certificate;
pub mod distributions;
pub mod endpoint_laws;
pub mod episodes;
pub mod liquidity;
pub mod maintenance_laws;
pub mod moves;
pub mod objective;
pub mod rate;
pub mod rate_laws;
pub mod scheduler;
pub mod search_laws;
pub mod service_laws;
pub mod simulation_laws;
pub mod simulator;
pub mod top_k_apy;
pub mod top_k_laws;
pub mod top_k_plan_laws;

verus! {

/// One deterministic inclusion-time scenario identity and head.
#[derive(Clone, Copy, Debug, PartialEq, Eq, Structural)]
pub struct InclusionScenario {
    /// Stable scenario identifier.
    pub id: B256,
    /// Inclusion head context.
    pub head: BlockRef,
}

/// Complete immutable input to a pure plan builder.
pub struct PlanningInput {
    /// Latest exact authoritative snapshot.
    pub exact: ExactVaultSnapshot,
    /// Frozen inclusion scenarios.
    pub inclusion_scenarios: Vec<InclusionScenario>,
    /// Exact projection for every scenario ID.
    pub projected: OrderedMap<B256, ProjectedVaultView>,
    /// Snapshot projected without any action, by the benefit horizon timestamp it is projected to.
    pub terminal: OrderedMap<u64, ProjectedVaultView>,
    /// Validated per-vault configuration.
    pub config: Arc<ValidatedVaultConfig>,
    /// Active frozen-direction rate episode.
    pub active_episode: Option<RateSignalEpisode>,
    /// Partial verified-idle deployment continuation.
    pub pending_deployment: Option<PendingDeployment>,
    /// Resources already reserved by unresolved work.
    pub reservations: ResourceReservations,
}

/// Candidate sets produced by one plan-class builder.
pub enum CandidatePlanSet {
    /// Liquidity-maintenance result.
    Liquidity(LiquiditySolveResult),
    /// Strict capital-deployment result.
    Capital(CapitalSolveResult),
    /// Frozen-episode rate-rebalance result.
    Rate(RateSolveResult),
}

/// What a candidate set holds.
pub ghost enum PlanSetView {
    /// Liquidity-maintenance result.
    Liquidity(LiquidityResultView),
    /// Capital-deployment result.
    Capital(CapitalResultView),
    /// Rate-rebalance result.
    Rate(RateResultView),
}

impl View for CandidatePlanSet {
    type V = PlanSetView;

    open spec fn view(&self) -> PlanSetView {
        match *self {
            CandidatePlanSet::Liquidity(result) => PlanSetView::Liquidity(result@),
            CandidatePlanSet::Capital(result) => PlanSetView::Capital(result@),
            CandidatePlanSet::Rate(result) => PlanSetView::Rate(result@),
        }
    }
}

/// Pure planning failure before candidate feasibility ranking.
#[derive(Clone, Copy, Debug, PartialEq, Eq, Structural)]
pub enum PlanningError {
    /// No projection exists for every frozen inclusion scenario.
    MissingProjection,
    /// Required active rate episode is absent or incompatible.
    MissingEpisode,
}

/// Closed pure interface implemented by plan-class builders.
pub trait PlanBuilder {
    /// The candidate set of an input.
    spec fn plan(&self, input: PlanningInput) -> Result<Option<PlanSetView>, PlanningError>;

    /// Builds a deterministic candidate set without RPC, storage, time, signer, or telemetry access.
    fn build(&self, input: &PlanningInput) -> (r: Result<Option<CandidatePlanSet>, PlanningError>)
        ensures
            match self.plan(*input) {
                Err(error) => r is Err && r->Err_0 == error,
                Ok(None) => r is Ok && r->Ok_0 is None,
                Ok(Some(set)) => r is Ok && r->Ok_0 is Some && r->Ok_0->0@ == set,
            },
    ;
}

/// Whether an action sequence simulates under every projected scenario.
pub open spec fn simulates_everywhere(input: PlanningInput, actions: Seq<ActionView>) -> bool {
    forall|i: int|
        0 <= i < input.projected@.len() ==> simulation_spec(
            input.exact,
            (#[trigger] input.projected@[i]).1,
            *input.config,
            actions,
        ) is Ok
}

fn holds_in_every_scenario(input: &PlanningInput, actions: &Vec<V2Action>) -> (r: bool)
    ensures
        r == simulates_everywhere(*input, actions_view(actions@)),
{
    let mut i: usize = 0;
    while i < input.projected.len()
        invariant
            i <= input.projected@.len(),
            forall|k: int|
                0 <= k < i ==> simulation_spec(
                    input.exact,
                    (#[trigger] input.projected@[k]).1,
                    *input.config,
                    actions_view(actions@),
                ) is Ok,
        decreases input.projected@.len() - i,
    {
        let scenario = input.projected.entry(i);
        match simulate_actions(&input.exact, &scenario.1, &input.config, actions) {
            Ok(_) => {},
            Err(_) => {
                assert(simulation_spec(
                    input.exact,
                    input.projected@[i as int].1,
                    *input.config,
                    actions_view(actions@),
                ) is Err);
                return false;
            },
        }
        i = i + 1;
    }
    true
}

/// Terminal projection of an input at a benefit horizon after the first scenario's head.
pub open spec fn terminal_of(input: PlanningInput, benefit_horizon_seconds: u64) -> Option<
    &'static ProjectedVaultView,
> {
    let horizon = input.projected@[0].1.head.timestamp + benefit_horizon_seconds;
    if horizon > u64::MAX {
        None
    } else {
        match value_of(input.terminal@, horizon as u64) {
            Some(view) => Some(&view),
            None => None,
        }
    }
}

fn terminal_ref(input: &PlanningInput, benefit_horizon_seconds: u64) -> (r: Option<
    &ProjectedVaultView,
>)
    requires
        input.projected@.len() > 0,
    ensures
        r == terminal_of(*input, benefit_horizon_seconds),
{
    let first = input.projected.entry(0);
    let horizon: u64 = first.1.head.timestamp.checked_add(benefit_horizon_seconds)?;
    input.terminal.get_ref(horizon)
}

/// Pure service-maintenance builder configured with bounded search policy.
#[derive(Clone, Copy, Debug)]
pub struct LiquidityPlanBuilder {
    /// Frozen bounded-search policy.
    pub solver: SolverConfigCanonical,
    /// Closed transaction action-count bound.
    pub maximum_actions: usize,
}

impl PlanBuilder for LiquidityPlanBuilder {
    open spec fn plan(&self, input: PlanningInput) -> Result<Option<PlanSetView>, PlanningError> {
        if input.projected@.len() == 0 {
            Err(PlanningError::MissingProjection)
        } else {
            let result = maintenance_solve_spec(
                input.exact,
                input.projected@[0].1,
                *input.config,
                self.solver,
                self.maximum_actions,
            );
            if result.actions.len() == 0 || !simulates_everywhere(input, result.actions) {
                Ok(None)
            } else {
                Ok(Some(PlanSetView::Liquidity(result)))
            }
        }
    }

    fn build(&self, input: &PlanningInput) -> (r: Result<Option<CandidatePlanSet>, PlanningError>) {
        if input.projected.len() == 0 {
            return Err(PlanningError::MissingProjection);
        }
        let first = input.projected.entry(0);
        let result = solve_liquidity_maintenance(
            &input.exact,
            &first.1,
            &input.config,
            &self.solver,
            self.maximum_actions,
        );
        assert(result@.actions.len() == result.actions.len());
        if result.actions.len() == 0 || !holds_in_every_scenario(input, &result.actions) {
            Ok(None)
        } else {
            Ok(Some(CandidatePlanSet::Liquidity(result)))
        }
    }
}

/// Pure capital builder configured with bounded solver policy.
#[derive(Clone, Copy, Debug)]
pub struct CapitalPlanBuilder {
    /// Frozen bounded-search policy.
    pub solver: SolverConfigCanonical,
    /// Exact terminal-value benefit horizon in seconds.
    pub benefit_horizon_seconds: u64,
    /// Spread objective used to rank otherwise equivalent idle deployment plans.
    pub objective: StrategyObjective,
}

impl PlanBuilder for CapitalPlanBuilder {
    open spec fn plan(&self, input: PlanningInput) -> Result<Option<PlanSetView>, PlanningError> {
        if input.projected@.len() == 0 {
            Err(PlanningError::MissingProjection)
        } else {
            let result = capital_solve_spec(
                input.exact,
                input.projected@[0].1,
                terminal_of(input, self.benefit_horizon_seconds),
                *input.config,
                self.solver,
                self.benefit_horizon_seconds,
                self.objective,
            );
            if result.actions.len() == 0 || !result.certificate.search_complete
                || !simulates_everywhere(input, result.actions) {
                Ok(None)
            } else {
                Ok(Some(PlanSetView::Capital(result)))
            }
        }
    }

    fn build(&self, input: &PlanningInput) -> (r: Result<Option<CandidatePlanSet>, PlanningError>) {
        if input.projected.len() == 0 {
            return Err(PlanningError::MissingProjection);
        }
        let first = input.projected.entry(0);
        let result = solve_capital_deployment(
            &input.exact,
            &first.1,
            terminal_ref(input, self.benefit_horizon_seconds),
            &input.config,
            &self.solver,
            self.benefit_horizon_seconds,
            self.objective,
        );
        assert(result@.actions.len() == result.actions.len());
        if result.actions.len() == 0 || !result.certificate.search_complete
            || !holds_in_every_scenario(input, &result.actions) {
            Ok(None)
        } else {
            Ok(Some(CandidatePlanSet::Capital(result)))
        }
    }
}

/// Pure spread builder configured with an exact selected objective and bounded solver policy.
pub struct RatePlanBuilder {
    /// Frozen exact strategy policy.
    pub strategy: ValidatedStrategyConfig,
    /// Frozen bounded-search policy.
    pub solver: SolverConfigCanonical,
}

impl PlanBuilder for RatePlanBuilder {
    open spec fn plan(&self, input: PlanningInput) -> Result<Option<PlanSetView>, PlanningError> {
        match input.active_episode {
            None => Err(PlanningError::MissingEpisode),
            Some(episode) => if input.projected@.len() == 0 {
                Err(PlanningError::MissingProjection)
            } else {
                let result = rate_solve_spec(
                    input.exact,
                    input.projected@[0].1,
                    terminal_of(input, self.strategy.benefit_horizon_seconds),
                    *input.config,
                    self.strategy,
                    self.solver,
                    episode@,
                );
                match result.best {
                    None => Ok(None),
                    Some(best) => if !executable(result.certificate) || !simulates_everywhere(
                        input,
                        best.actions,
                    ) {
                        Ok(None)
                    } else {
                        Ok(Some(PlanSetView::Rate(result)))
                    },
                }
            },
        }
    }

    fn build(&self, input: &PlanningInput) -> (r: Result<Option<CandidatePlanSet>, PlanningError>) {
        let episode = match &input.active_episode {
            Some(episode) => episode,
            None => return Err(PlanningError::MissingEpisode),
        };
        if input.projected.len() == 0 {
            return Err(PlanningError::MissingProjection);
        }
        let first = input.projected.entry(0);
        let result = solve_rate_rebalance(
            &input.exact,
            &first.1,
            terminal_ref(input, self.strategy.benefit_horizon_seconds),
            &input.config,
            &self.strategy,
            &self.solver,
            episode,
        );
        if !result.certificate.executable_rate_search() {
            return Ok(None);
        }
        let feasible = match &result.best {
            Some(best) => holds_in_every_scenario(input, &best.actions),
            None => false,
        };
        if feasible {
            Ok(Some(CandidatePlanSet::Rate(result)))
        } else {
            Ok(None)
        }
    }
}

} // verus!
