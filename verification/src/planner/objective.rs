//! Lexicographic objective ranking.

use vstd::prelude::*;

use crate::collections::{value_of, OrderedMap, OrderedSet};
use crate::config::StrategyObjective;
use crate::domain::{MarketId, MarketMode, PlanReason, ProjectedMarketState};
use crate::primitives::{group_u256, u256, I256, U256};

verus! {

/// Whether a mode takes part in portfolio strategy measurements.
pub open spec fn mode_measured(mode: MarketMode) -> bool {
    mode != MarketMode::Disabled && mode != MarketMode::SyncRequired
}

/// Whether one configured market belongs to portfolio strategy measurements.
///
/// Disabled and synchronization-blocked markets remain visible to exact accounting but are not
/// optimization targets and therefore cannot define a rate or utilization spread.
#[must_use]
pub fn strategy_market_mode_included(mode: MarketMode) -> (r: bool)
    ensures
        r == mode_measured(mode),
{
    match mode {
        MarketMode::Disabled | MarketMode::SyncRequired => false,
        _ => true,
    }
}

/// Exact objective tuple calculated after hard feasibility.
#[derive(Clone, Copy, Debug, PartialEq, Eq, Structural)]
pub struct ObjectiveMetrics {
    /// Final verified unreserved idle assets.
    pub final_unreserved_idle: U256,
    /// Total assets deployed from idle.
    pub deployed_assets: U256,
    /// Applicable post-action rate spread.
    pub applicable_spread: U256,
    /// Secondary portfolio/controllable spread.
    pub secondary_spread: U256,
    /// Existing-shareholder terminal value delta.
    pub terminal_value_delta: I256,
    /// Total requested movement.
    pub movement_assets: U256,
    /// Nonzero action count.
    pub action_count: usize,
}

/// Strict lexicographic order of two tuples of one length.
pub open spec fn lexicographically_before(left: Seq<int>, right: Seq<int>) -> bool
    decreases left.len(),
{
    if left.len() == 0 || right.len() == 0 {
        false
    } else if left[0] != right[0] {
        left[0] < right[0]
    } else {
        lexicographically_before(left.drop_first(), right.drop_first())
    }
}

/// Ranking tuple of a plan class, smaller first; quantities to be maximized enter negated.
///
/// `within_target` selects the rate tuple used once the target band is reachable and reached.
pub open spec fn ranking(
    reason: PlanReason,
    metrics: ObjectiveMetrics,
    within_target: bool,
) -> Seq<int> {
    match reason {
        PlanReason::CapitalDeployment => seq![
            metrics.final_unreserved_idle@ as int,
            -(metrics.deployed_assets@ as int),
            metrics.applicable_spread@ as int,
            -metrics.terminal_value_delta@,
            metrics.movement_assets@ as int,
            metrics.action_count as int,
        ],
        PlanReason::RateRebalance => if within_target {
            seq![
                metrics.movement_assets@ as int,
                metrics.applicable_spread@ as int,
                metrics.secondary_spread@ as int,
                -metrics.terminal_value_delta@,
                metrics.action_count as int,
            ]
        } else {
            seq![
                metrics.applicable_spread@ as int,
                metrics.secondary_spread@ as int,
                -metrics.terminal_value_delta@,
                metrics.action_count as int,
                metrics.movement_assets@ as int,
            ]
        },
        PlanReason::LiquidityMaintenance => seq![
            metrics.final_unreserved_idle@ as int,
            metrics.applicable_spread@ as int,
            metrics.movement_assets@ as int,
            metrics.action_count as int,
        ],
        PlanReason::TopKApyRebalance | PlanReason::PositionSyncRequired => seq![],
    }
}

/// Whether `candidate` ranks strictly ahead of `current`. With a reachable target band, a rate
/// candidate inside it precedes every one outside.
pub open spec fn ranks_before_spec(
    reason: PlanReason,
    candidate: ObjectiveMetrics,
    current: ObjectiveMetrics,
    target_spread: U256,
    target_reachable: bool,
) -> bool {
    let candidate_reaches = candidate.applicable_spread@ <= target_spread@;
    let current_reaches = current.applicable_spread@ <= target_spread@;
    if reason == PlanReason::RateRebalance && target_reachable && candidate_reaches
        != current_reaches {
        candidate_reaches
    } else {
        let within = target_reachable && candidate_reaches;
        lexicographically_before(
            ranking(reason, candidate, within),
            ranking(reason, current, within),
        )
    }
}

/// Three-way outcome of comparing one component.
#[derive(Clone, Copy, PartialEq, Eq, Structural)]
enum Side {
    Ahead,
    Tied,
    Behind,
}

spec fn side(left: int, right: int) -> Side {
    if left < right {
        Side::Ahead
    } else if left == right {
        Side::Tied
    } else {
        Side::Behind
    }
}

fn side_of(left: U256, right: U256) -> (r: Side)
    ensures
        r == side(left@ as int, right@ as int),
{
    if left.lt(right) {
        Side::Ahead
    } else if right.lt(left) {
        Side::Behind
    } else {
        Side::Tied
    }
}

fn side_of_delta(left: I256, right: I256) -> (r: Side)
    ensures
        r == side(-left@, -right@),
{
    if right.lt(left) {
        Side::Ahead
    } else if left.lt(right) {
        Side::Behind
    } else {
        Side::Tied
    }
}

fn side_of_count(left: usize, right: usize) -> (r: Side)
    ensures
        r == side(left as int, right as int),
{
    if left < right {
        Side::Ahead
    } else if right < left {
        Side::Behind
    } else {
        Side::Tied
    }
}

spec fn first_decided(sides: Seq<Side>) -> bool
    decreases sides.len(),
{
    if sides.len() == 0 {
        false
    } else if sides[0] != Side::Tied {
        sides[0] == Side::Ahead
    } else {
        first_decided(sides.drop_first())
    }
}

spec fn sides(left: Seq<int>, right: Seq<int>) -> Seq<Side> {
    Seq::new(left.len(), |i: int| side(left[i], right[i]))
}

proof fn lemma_first_decided(left: Seq<int>, right: Seq<int>)
    requires
        left.len() == right.len(),
    ensures
        first_decided(sides(left, right)) == lexicographically_before(left, right),
    decreases left.len(),
{
    if left.len() > 0 && left[0] == right[0] {
        lemma_first_decided(left.drop_first(), right.drop_first());
        assert(sides(left, right).drop_first() =~= sides(left.drop_first(), right.drop_first()));
    }
}

fn decides(outcomes: &Vec<Side>) -> (r: bool)
    ensures
        r == first_decided(outcomes@),
{
    let mut i: usize = 0;
    assert(outcomes@.skip(0) =~= outcomes@);
    while i < outcomes.len()
        invariant
            i <= outcomes.len(),
            first_decided(outcomes@) == first_decided(outcomes@.skip(i as int)),
        decreases outcomes.len() - i,
    {
        assert(outcomes@.skip(i as int).drop_first() =~= outcomes@.skip(i + 1));
        match outcomes[i] {
            Side::Ahead => {
                return true;
            },
            Side::Behind => {
                return false;
            },
            Side::Tied => {},
        }
        i = i + 1;
    }
    false
}

/// Returns whether `candidate` ranks strictly ahead of `current` for a plan class.
#[must_use]
pub fn ranks_before(
    reason: PlanReason,
    candidate: &ObjectiveMetrics,
    current: &ObjectiveMetrics,
    target_spread: U256,
    target_reachable: bool,
) -> (r: bool)
    ensures
        r == ranks_before_spec(reason, *candidate, *current, target_spread, target_reachable),
{
    let idle = side_of(candidate.final_unreserved_idle, current.final_unreserved_idle);
    let deployed = side_of(current.deployed_assets, candidate.deployed_assets);
    let applicable = side_of(candidate.applicable_spread, current.applicable_spread);
    let secondary = side_of(candidate.secondary_spread, current.secondary_spread);
    let terminal = side_of_delta(candidate.terminal_value_delta, current.terminal_value_delta);
    let movement = side_of(candidate.movement_assets, current.movement_assets);
    let count = side_of_count(candidate.action_count, current.action_count);
    let candidate_reaches = candidate.applicable_spread.le(target_spread);
    let current_reaches = current.applicable_spread.le(target_spread);
    let within = target_reachable && candidate_reaches;
    if reason == PlanReason::RateRebalance && target_reachable && candidate_reaches
        != current_reaches {
        return candidate_reaches;
    }
    let outcomes: Vec<Side> = match reason {
        PlanReason::CapitalDeployment => vec![
            idle,
            deployed,
            applicable,
            terminal,
            movement,
            count,
        ],
        PlanReason::RateRebalance => if within {
            vec![movement, applicable, secondary, terminal, count]
        } else {
            vec![applicable, secondary, terminal, count, movement]
        },
        PlanReason::LiquidityMaintenance => vec![idle, applicable, movement, count],
        PlanReason::TopKApyRebalance | PlanReason::PositionSyncRequired => Vec::new(),
    };
    proof {
        let left = ranking(reason, *candidate, within);
        let right = ranking(reason, *current, within);
        lemma_first_decided(left, right);
        assert(outcomes@ =~= sides(left, right));
    }
    decides(&outcomes)
}

/// Lexicographic order is irreflexive.
pub proof fn lemma_lexicographic_irreflexive(tuple: Seq<int>)
    ensures
        !lexicographically_before(tuple, tuple),
    decreases tuple.len(),
{
    if tuple.len() > 0 {
        lemma_lexicographic_irreflexive(tuple.drop_first());
    }
}

/// Lexicographic order on tuples of one length is transitive.
pub proof fn lemma_lexicographic_transitive(a: Seq<int>, b: Seq<int>, c: Seq<int>)
    requires
        a.len() == b.len() == c.len(),
        lexicographically_before(a, b),
        lexicographically_before(b, c),
    ensures
        lexicographically_before(a, c),
    decreases a.len(),
{
    if a[0] == b[0] && b[0] == c[0] {
        lemma_lexicographic_transitive(a.drop_first(), b.drop_first(), c.drop_first());
    }
}

/// Ranking is a strict order: no candidate precedes itself, and precedence is transitive.
pub proof fn ranking_is_a_strict_order(
    reason: PlanReason,
    a: ObjectiveMetrics,
    b: ObjectiveMetrics,
    c: ObjectiveMetrics,
    target_spread: U256,
    target_reachable: bool,
)
    ensures
        !ranks_before_spec(reason, a, a, target_spread, target_reachable),
        ranks_before_spec(reason, a, b, target_spread, target_reachable) && ranks_before_spec(
            reason,
            b,
            c,
            target_spread,
            target_reachable,
        ) ==> ranks_before_spec(reason, a, c, target_spread, target_reachable),
{
    lemma_lexicographic_irreflexive(ranking(reason, a, true));
    lemma_lexicographic_irreflexive(ranking(reason, a, false));
    if ranks_before_spec(reason, a, b, target_spread, target_reachable) && ranks_before_spec(
        reason,
        b,
        c,
        target_spread,
        target_reachable,
    ) {
        let within = target_reachable && a.applicable_spread@ <= target_spread@;
        let ra = ranking(reason, a, within);
        let rb = ranking(reason, b, within);
        let rc = ranking(reason, c, within);
        if lexicographically_before(ra, rb) && lexicographically_before(rb, rc) {
            lemma_lexicographic_transitive(ra, rb, rc);
        }
    }
}

/// Smallest of the values from index `from` on and `least`.
pub open spec fn least_from(values: Seq<U256>, from: int, least: U256) -> U256
    decreases values.len() - from,
{
    if from >= values.len() {
        least
    } else {
        least_from(values, from + 1, crate::primitives::smaller(least, values[from]))
    }
}

/// Largest of the values from index `from` on and `greatest`.
pub open spec fn greatest_from(values: Seq<U256>, from: int, greatest: U256) -> U256
    decreases values.len() - from,
{
    if from >= values.len() {
        greatest
    } else {
        greatest_from(values, from + 1, crate::primitives::larger(greatest, values[from]))
    }
}

/// Largest less smallest value; zero for an empty set.
pub open spec fn spread_of(values: Seq<U256>) -> U256 {
    if values.len() == 0 {
        u256(0)
    } else {
        crate::primitives::saturating_difference(
            greatest_from(values, 1, values[0]),
            least_from(values, 1, values[0]),
        )
    }
}

/// Returns max-minus-min over one frozen rate set; empty/singleton sets have zero spread.
#[must_use]
pub fn rate_spread(rates: &Vec<U256>) -> (r: U256)
    ensures
        r == spread_of(rates@),
{
    if rates.len() == 0 {
        return U256::zero();
    }
    let mut minimum = rates[0];
    let mut maximum = rates[0];
    let mut i: usize = 1;
    while i < rates.len()
        invariant
            1 <= i <= rates.len(),
            least_from(rates@, 1, rates@[0]) == least_from(rates@, i as int, minimum),
            greatest_from(rates@, 1, rates@[0]) == greatest_from(rates@, i as int, maximum),
        decreases rates.len() - i,
    {
        minimum = minimum.min(rates[i]);
        maximum = maximum.max(rates[i]);
        i = i + 1;
    }
    maximum.saturating_sub(minimum)
}

proof fn lemma_extremes(values: Seq<U256>, from: int, least: U256, greatest: U256)
    requires
        0 <= from <= values.len(),
    ensures
        least_from(values, from, least)@ <= least@,
        greatest_from(values, from, greatest)@ >= greatest@,
        forall|i: int|
            from <= i < values.len() ==> least_from(values, from, least)@ <= (
            #[trigger] values[i])@ <= greatest_from(values, from, greatest)@,
        least_from(values, from, least) == least || exists|i: int|
            from <= i < values.len() && least_from(values, from, least) == #[trigger] values[i],
        greatest_from(values, from, greatest) == greatest || exists|i: int|
            from <= i < values.len() && greatest_from(values, from, greatest)
                == #[trigger] values[i],
    decreases values.len() - from,
{
    if from < values.len() {
        lemma_extremes(
            values,
            from + 1,
            crate::primitives::smaller(least, values[from]),
            crate::primitives::larger(greatest, values[from]),
        );
    }
}

/// The spread bounds the distance of any two values, and two of the values are that far apart.
pub proof fn spread_is_the_largest_distance(values: Seq<U256>)
    requires
        values.len() > 0,
    ensures
        forall|i: int, j: int|
            0 <= i < values.len() && 0 <= j < values.len() ==> (#[trigger] values[i])@ - (
            #[trigger] values[j])@ <= spread_of(values)@,
        exists|i: int, j: int|
            0 <= i < values.len() && 0 <= j < values.len() && (#[trigger] values[i])@ - (
            #[trigger] values[j])@ == spread_of(values)@,
{
    broadcast use group_u256;

    lemma_extremes(values, 1, values[0], values[0]);
    let least = least_from(values, 1, values[0]);
    let greatest = greatest_from(values, 1, values[0]);
    let j = choose|j: int| 0 <= j < values.len() && least == values[j];
    let i = choose|i: int| 0 <= i < values.len() && greatest == values[i];
    assert(values[0] == values[0]);
    assert(0 <= j < values.len() && least == values[j]);
    assert(0 <= i < values.len() && greatest == values[i]);
    assert(values[i]@ - values[j]@ == spread_of(values)@);
}

/// One market's value in the selected spread-objective domain.
pub open spec fn strategy_value_spec(
    state: ProjectedMarketState,
    objective: StrategyObjective,
) -> U256 {
    match objective {
        StrategyObjective::SpotBorrowRateSpread => state.spot_borrow_rate,
        StrategyObjective::UtilizationSpread => state.utilization,
    }
}

/// Returns one market's exact value in the selected spread-objective domain.
#[must_use]
pub fn strategy_value(state: &ProjectedMarketState, objective: StrategyObjective) -> (r: U256)
    ensures
        r == strategy_value_spec(*state, objective),
{
    match objective {
        StrategyObjective::SpotBorrowRateSpread => state.spot_borrow_rate,
        StrategyObjective::UtilizationSpread => state.utilization,
    }
}

/// Values of the markets from index `from` on appended to `done`, when every state is present.
pub open spec fn strategy_values_from(
    markets: Seq<MarketId>,
    states: Seq<(MarketId, ProjectedMarketState)>,
    objective: StrategyObjective,
    from: int,
    done: Seq<U256>,
) -> Option<Seq<U256>>
    decreases markets.len() - from,
{
    if from >= markets.len() {
        Some(done)
    } else {
        match value_of(states, markets[from]) {
            None => None,
            Some(state) => strategy_values_from(
                markets,
                states,
                objective,
                from + 1,
                done.push(strategy_value_spec(state, objective)),
            ),
        }
    }
}

/// Spread over named markets, absent when none is named or one has no projected state.
pub open spec fn complete_spread_spec(
    markets: Seq<MarketId>,
    states: Seq<(MarketId, ProjectedMarketState)>,
    objective: StrategyObjective,
) -> Option<U256> {
    match strategy_values_from(markets, states, objective, 0, Seq::empty()) {
        None => None,
        Some(values) => if values.len() == 0 {
            None
        } else {
            Some(spread_of(values))
        },
    }
}

/// Returns max-minus-min for the selected strategy only when all market states are present.
#[must_use]
pub fn complete_strategy_spread(
    markets: &OrderedSet<MarketId>,
    states: &OrderedMap<MarketId, ProjectedMarketState>,
    objective: StrategyObjective,
) -> (r: Option<U256>)
    ensures
        r == complete_spread_spec(markets@, states@, objective),
{
    let mut values: Vec<U256> = Vec::new();
    let mut i: usize = 0;
    while i < markets.len()
        invariant
            i <= markets@.len(),
            strategy_values_from(markets@, states@, objective, 0, Seq::empty())
                == strategy_values_from(markets@, states@, objective, i as int, values@),
        decreases markets@.len() - i,
    {
        let state = states.get(markets.at(i))?;
        values.push(strategy_value(&state, objective));
        i = i + 1;
    }
    if values.len() == 0 {
        None
    } else {
        Some(rate_spread(&values))
    }
}

/// Returns max-minus-min only when every named market has an exact projected state.
#[must_use]
pub fn complete_rate_spread(
    markets: &OrderedSet<MarketId>,
    states: &OrderedMap<MarketId, ProjectedMarketState>,
) -> (r: Option<U256>)
    ensures
        r == complete_spread_spec(markets@, states@, StrategyObjective::SpotBorrowRateSpread),
{
    complete_strategy_spread(markets, states, StrategyObjective::SpotBorrowRateSpread)
}

proof fn lemma_first_difference(left: Seq<int>, right: Seq<int>, at: int)
    requires
        0 <= at < left.len(),
        left.len() == right.len(),
        forall|i: int| 0 <= i < at ==> left[i] == right[i],
        left[at] != right[at],
    ensures
        lexicographically_before(left, right) == (left[at] < right[at]),
    decreases at,
{
    if at > 0 {
        assert(left[0] == right[0]);
        lemma_first_difference(left.drop_first(), right.drop_first(), at - 1);
    }
}

/// With a reachable target band, a rate plan inside the band precedes every plan outside it. Of two
/// plans inside, the one that moves less comes first; only equal movement lets the spread, then the
/// secondary spread, then the larger terminal value, then fewer actions decide.
pub proof fn rate_plans_in_the_band_move_least(
    candidate: ObjectiveMetrics,
    current: ObjectiveMetrics,
    target_spread: U256,
)
    requires
        candidate.applicable_spread@ <= target_spread@,
    ensures
        ({
            let before = ranks_before_spec(
                PlanReason::RateRebalance,
                candidate,
                current,
                target_spread,
                true,
            );
            let after = ranks_before_spec(
                PlanReason::RateRebalance,
                current,
                candidate,
                target_spread,
                true,
            );
            let moved = candidate.movement_assets@ == current.movement_assets@;
            let spread = moved && candidate.applicable_spread@ == current.applicable_spread@;
            let secondary = spread && candidate.secondary_spread@ == current.secondary_spread@;
            let terminal = secondary && candidate.terminal_value_delta@
                == current.terminal_value_delta@;
            &&& current.applicable_spread@ > target_spread@ ==> before && !after
            &&& current.applicable_spread@ <= target_spread@ ==> {
                &&& candidate.movement_assets@ < current.movement_assets@ ==> before && !after
                &&& moved && candidate.applicable_spread@ < current.applicable_spread@ ==> before
                    && !after
                &&& spread && candidate.secondary_spread@ < current.secondary_spread@ ==> before
                    && !after
                &&& secondary && candidate.terminal_value_delta@ > current.terminal_value_delta@
                    ==> before && !after
                &&& terminal && candidate.action_count < current.action_count ==> before && !after
                &&& terminal && candidate.action_count == current.action_count ==> !before && !after
            }
        }),
{
    let left = ranking(PlanReason::RateRebalance, candidate, true);
    let right = ranking(PlanReason::RateRebalance, current, true);
    lemma_decided(left, right);
}

/// Without a reachable band, or outside it, the smaller spread comes first; only equal spreads let
/// the secondary spread, then the larger terminal value, then fewer actions, then less movement
/// decide.
pub proof fn rate_plans_outside_the_band_spread_least(
    candidate: ObjectiveMetrics,
    current: ObjectiveMetrics,
    target_spread: U256,
    target_reachable: bool,
)
    requires
        !target_reachable || (candidate.applicable_spread@ > target_spread@
            && current.applicable_spread@ > target_spread@),
    ensures
        ({
            let before = ranks_before_spec(
                PlanReason::RateRebalance,
                candidate,
                current,
                target_spread,
                target_reachable,
            );
            let after = ranks_before_spec(
                PlanReason::RateRebalance,
                current,
                candidate,
                target_spread,
                target_reachable,
            );
            let spread = candidate.applicable_spread@ == current.applicable_spread@;
            let secondary = spread && candidate.secondary_spread@ == current.secondary_spread@;
            let terminal = secondary && candidate.terminal_value_delta@
                == current.terminal_value_delta@;
            let count = terminal && candidate.action_count == current.action_count;
            &&& candidate.applicable_spread@ < current.applicable_spread@ ==> before && !after
            &&& spread && candidate.secondary_spread@ < current.secondary_spread@ ==> before
                && !after
            &&& secondary && candidate.terminal_value_delta@ > current.terminal_value_delta@
                ==> before && !after
            &&& terminal && candidate.action_count < current.action_count ==> before && !after
            &&& count && candidate.movement_assets@ < current.movement_assets@ ==> before && !after
            &&& count && candidate.movement_assets@ == current.movement_assets@ ==> !before
                && !after
        }),
{
    let left = ranking(PlanReason::RateRebalance, candidate, false);
    let right = ranking(PlanReason::RateRebalance, current, false);
    lemma_decided(left, right);
}

/// Of two deployments, the one that leaves less idle comes first; only equal idle lets the larger
/// deployment, then the smaller spread, then the larger terminal value, then less movement, then
/// fewer actions decide. Target band and secondary spread play no part.
pub proof fn deployments_leave_least_idle(
    candidate: ObjectiveMetrics,
    current: ObjectiveMetrics,
    target_spread: U256,
    target_reachable: bool,
)
    ensures
        ({
            let before = ranks_before_spec(
                PlanReason::CapitalDeployment,
                candidate,
                current,
                target_spread,
                target_reachable,
            );
            let after = ranks_before_spec(
                PlanReason::CapitalDeployment,
                current,
                candidate,
                target_spread,
                target_reachable,
            );
            let idle = candidate.final_unreserved_idle@ == current.final_unreserved_idle@;
            let deployed = idle && candidate.deployed_assets@ == current.deployed_assets@;
            let spread = deployed && candidate.applicable_spread@ == current.applicable_spread@;
            let terminal = spread && candidate.terminal_value_delta@
                == current.terminal_value_delta@;
            let moved = terminal && candidate.movement_assets@ == current.movement_assets@;
            &&& candidate.final_unreserved_idle@ < current.final_unreserved_idle@ ==> before
                && !after
            &&& idle && candidate.deployed_assets@ > current.deployed_assets@ ==> before && !after
            &&& deployed && candidate.applicable_spread@ < current.applicable_spread@ ==> before
                && !after
            &&& spread && candidate.terminal_value_delta@ > current.terminal_value_delta@
                ==> before && !after
            &&& terminal && candidate.movement_assets@ < current.movement_assets@ ==> before
                && !after
            &&& moved && candidate.action_count < current.action_count ==> before && !after
            &&& moved && candidate.action_count == current.action_count ==> !before && !after
        }),
{
    let left = ranking(PlanReason::CapitalDeployment, candidate, false);
    let right = ranking(PlanReason::CapitalDeployment, current, false);
    assert(ranking(PlanReason::CapitalDeployment, candidate, true) == left);
    assert(ranking(PlanReason::CapitalDeployment, current, true) == right);
    lemma_decided(left, right);
}

/// Of two maintenance plans, the one that leaves less idle comes first; only equal idle lets the
/// smaller shortfall, then less movement, then fewer actions decide.
pub proof fn maintenance_leaves_least_idle(
    candidate: ObjectiveMetrics,
    current: ObjectiveMetrics,
    target_spread: U256,
    target_reachable: bool,
)
    ensures
        ({
            let before = ranks_before_spec(
                PlanReason::LiquidityMaintenance,
                candidate,
                current,
                target_spread,
                target_reachable,
            );
            let after = ranks_before_spec(
                PlanReason::LiquidityMaintenance,
                current,
                candidate,
                target_spread,
                target_reachable,
            );
            let idle = candidate.final_unreserved_idle@ == current.final_unreserved_idle@;
            let spread = idle && candidate.applicable_spread@ == current.applicable_spread@;
            let moved = spread && candidate.movement_assets@ == current.movement_assets@;
            &&& candidate.final_unreserved_idle@ < current.final_unreserved_idle@ ==> before
                && !after
            &&& idle && candidate.applicable_spread@ < current.applicable_spread@ ==> before
                && !after
            &&& spread && candidate.movement_assets@ < current.movement_assets@ ==> before && !after
            &&& moved && candidate.action_count < current.action_count ==> before && !after
            &&& moved && candidate.action_count == current.action_count ==> !before && !after
        }),
{
    let left = ranking(PlanReason::LiquidityMaintenance, candidate, false);
    let right = ranking(PlanReason::LiquidityMaintenance, current, false);
    assert(ranking(PlanReason::LiquidityMaintenance, candidate, true) == left);
    assert(ranking(PlanReason::LiquidityMaintenance, current, true) == right);
    lemma_decided(left, right);
}

/// Plan classes without an objective of their own rank nothing ahead of anything.
pub proof fn other_plans_are_unranked(
    candidate: ObjectiveMetrics,
    current: ObjectiveMetrics,
    target_spread: U256,
    target_reachable: bool,
)
    ensures
        !ranks_before_spec(
            PlanReason::TopKApyRebalance,
            candidate,
            current,
            target_spread,
            target_reachable,
        ),
        !ranks_before_spec(
            PlanReason::PositionSyncRequired,
            candidate,
            current,
            target_spread,
            target_reachable,
        ),
{
}

proof fn lemma_decided(left: Seq<int>, right: Seq<int>)
    requires
        left.len() == right.len(),
    ensures
        forall|at: int|
            0 <= at < left.len() && (forall|i: int| 0 <= i < at ==> left[i] == right[i])
                && #[trigger] left[at] != right[at] ==> lexicographically_before(left, right) == (
            left[at] < right[at]) && lexicographically_before(right, left) == (right[at] < left[at]),
        left =~= right ==> !lexicographically_before(left, right) && !lexicographically_before(
            right,
            left,
        ),
{
    assert forall|at: int|
        0 <= at < left.len() && (forall|i: int| 0 <= i < at ==> left[i] == right[i])
            && #[trigger] left[at] != right[at] implies lexicographically_before(left, right) == (
    left[at] < right[at]) && lexicographically_before(right, left) == (right[at] < left[at]) by {
        lemma_first_difference(left, right, at);
        lemma_first_difference(right, left, at);
    }
    if left =~= right {
        lemma_lexicographic_irreflexive(left);
    }
}

proof fn lemma_strategy_values(
    markets: Seq<MarketId>,
    states: Seq<(MarketId, ProjectedMarketState)>,
    objective: StrategyObjective,
    from: int,
    done: Seq<U256>,
)
    requires
        0 <= from <= markets.len(),
        done.len() == from,
    ensures
        ({
            let values = strategy_values_from(markets, states, objective, from, done);
            &&& values is Some <==> forall|i: int|
                from <= i < markets.len() ==> value_of(states, #[trigger] markets[i]) is Some
            &&& values is Some ==> {
                &&& values->Some_0.len() == markets.len()
                &&& forall|i: int| 0 <= i < from ==> #[trigger] values->Some_0[i] == done[i]
                &&& forall|i: int|
                    from <= i < markets.len() ==> #[trigger] values->Some_0[i]
                        == strategy_value_spec(
                        value_of(states, markets[i])->Some_0,
                        objective,
                    )
            }
        }),
    decreases markets.len() - from,
{
    if from < markets.len() {
        match value_of(states, markets[from]) {
            None => {},
            Some(state) => {
                let next = done.push(strategy_value_spec(state, objective));
                lemma_strategy_values(markets, states, objective, from + 1, next);
                let values = strategy_values_from(markets, states, objective, from, done);
                if values is Some {
                    assert(values->Some_0[from] == next[from]);
                    assert forall|i: int| 0 <= i < from implies #[trigger] values->Some_0[i]
                        == done[i] by {
                        assert(values->Some_0[i] == next[i]);
                    }
                }
            },
        }
    }
}

/// What a strategy compares of a market: the spot borrow rate or the utilization.
pub open spec fn compared_value(state: ProjectedMarketState, by_rate: bool) -> int {
    if by_rate {
        state.spot_borrow_rate@ as int
    } else {
        state.utilization@ as int
    }
}

/// A spread over named markets exists exactly where at least one is named and all have a state. No
/// two of them are further apart than the spread in what the strategy compares, and some two are
/// exactly that far apart.
pub proof fn complete_spread_covers_every_market(
    markets: Seq<MarketId>,
    states: Seq<(MarketId, ProjectedMarketState)>,
    objective: StrategyObjective,
)
    ensures
        complete_spread_spec(markets, states, objective) is Some <==> markets.len() > 0 && forall|
            i: int,
        |
            0 <= i < markets.len() ==> value_of(states, #[trigger] markets[i]) is Some,
        complete_spread_spec(markets, states, objective) is Some ==> {
            let by_rate = objective == StrategyObjective::SpotBorrowRateSpread;
            let spread = complete_spread_spec(markets, states, objective)->Some_0@;
            &&& forall|i: int, j: int|
                0 <= i < markets.len() && 0 <= j < markets.len() ==> compared_value(
                    value_of(states, #[trigger] markets[i])->Some_0,
                    by_rate,
                ) - compared_value(value_of(states, #[trigger] markets[j])->Some_0, by_rate)
                    <= spread
            &&& exists|i: int, j: int|
                0 <= i < markets.len() && 0 <= j < markets.len() && compared_value(
                    value_of(states, #[trigger] markets[i])->Some_0,
                    by_rate,
                ) - compared_value(value_of(states, #[trigger] markets[j])->Some_0, by_rate)
                    == spread
        },
{
    lemma_strategy_values(markets, states, objective, 0, Seq::empty());
    if complete_spread_spec(markets, states, objective) is Some {
        let by_rate = objective == StrategyObjective::SpotBorrowRateSpread;
        let values = strategy_values_from(markets, states, objective, 0, Seq::empty())->Some_0;
        spread_is_the_largest_distance(values);
        assert forall|i: int| 0 <= i < markets.len() implies compared_value(
            value_of(states, #[trigger] markets[i])->Some_0,
            by_rate,
        ) == values[i]@ by {}
        let (i, j) = choose|i: int, j: int|
            0 <= i < values.len() && 0 <= j < values.len() && (#[trigger] values[i])@ - (
            #[trigger] values[j])@ == spread_of(values)@;
        let a = markets[i];
        let b = markets[j];
        assert forall|i: int, j: int|
            0 <= i < markets.len() && 0 <= j < markets.len() implies compared_value(
            value_of(states, #[trigger] markets[i])->Some_0,
            by_rate,
        ) - compared_value(value_of(states, #[trigger] markets[j])->Some_0, by_rate)
            <= spread_of(values)@ by {
            assert(values[i]@ - values[j]@ <= spread_of(values)@);
        }
    }
}

} // verus!
