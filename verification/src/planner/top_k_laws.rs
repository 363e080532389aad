//! What the top-K yield strategy promises, stated on what it observes and returns.

use vstd::prelude::*;

use crate::collections::{
    ordered_entries, strictly_increasing, value_of, value_of_with_value, with_key,
    with_key_is_insertion, with_value, OrderedKey,
};
use crate::config::{ValidatedPositionConfig, ValidatedTopKApyConfig, ValidatedVaultConfig};
use crate::domain::{
    ExactVaultSnapshot, MarketId, MarketMode, PositionKey, ProjectedMarketState, ProjectedVaultView,
};
use crate::morpho::blue_math::{mul_div_down_spec, w_taylor_compounded_spec};
use crate::morpho::laws::{division_rounds_down, is_floor};
use crate::morpho::market_adapter::allocate_spec;
use crate::planner::distributions::row_total_from;
use crate::planner::moves::{checked_total_from, market_position_from};
use crate::planner::top_k_apy::{
    annualized_spec, boost_required_spec, boosted_from, boosted_weights_spec, distances,
    effective_weights_spec, entries_total, entry_values, evidence_entries_from, evidence_from,
    fourth_joins, keys_added_from, leading_markets, market_evidence, markets_of_either,
    observe_spec, observed_target, portfolio_rate_spec, probe_spec, ranked_from, ranked_place_from,
    ranking_orders_evidence, remembered, score_spec, shares_from, smoothed_rate_spec, stored_from,
    target_allocations_spec, target_shares_conserve_direct_assets, target_shares_spec,
    transition_spec, weighted_from, ObservationProblem, TopKApyError, TopKApyMemory,
    TopKMarketEvidence,
};
use crate::primitives::{difference, group_u256, sum, u256, U256};

verus! {

/// Whether the ranking rate is the least of the three rates observed.
pub open spec fn ranks_by_the_least_rate(item: TopKMarketEvidence) -> bool {
    &&& item.ranking_rate@ <= item.current_rate@
    &&& item.ranking_rate@ <= item.post_probe_rate@
    &&& item.ranking_rate@ <= item.smoothed_rate@
    &&& item.ranking_rate == item.current_rate || item.ranking_rate == item.post_probe_rate
        || item.ranking_rate == item.smoothed_rate
}

/// Whether a configured position carries the evidence: it is active, its market and its dead shares
/// are large enough, its current rate is the projected supply rate, and its capacity is what both
/// the position maximum and the reallocation limit leave and lets it reach the position minimum.
pub open spec fn carries(
    problem: ObservationProblem,
    configured: ValidatedPositionConfig,
    item: TopKMarketEvidence,
) -> bool {
    let position = value_of(problem.snapshot.positions@, configured.position_key);
    let market = value_of(problem.projection.markets@, configured.market_id);
    let current = value_of(problem.current_assets, configured.market_id);
    let limit = value_of(problem.reallocation_limits, configured.position_key);
    let capacity = item.destination_capacity@;
    let most = configured.maximum_position_assets@;
    &&& configured.mode == MarketMode::Active
    &&& item.market == configured.market_id
    &&& position is Some && market is Some && current is Some && limit is Some
    &&& item.current_rate == market->Some_0.spot_supply_rate
    &&& market->Some_0.total_supply_assets@ >= configured.minimum_destination_market_supply_assets@
    &&& market->Some_0.total_supply_shares@ >= configured.minimum_destination_market_supply_shares@
    &&& position->Some_0.market_dead_supply_shares@
        >= problem.vault.minimum_market_dead_supply_shares@
    &&& capacity <= limit->Some_0@
    &&& current->Some_0@ <= most ==> current->Some_0@ + capacity <= most
    &&& current->Some_0@ > most ==> capacity == 0
    &&& capacity == limit->Some_0@ || current->Some_0@ + capacity >= most
    &&& current->Some_0@ + capacity >= configured.minimum_position_assets@
    &&& probe_spec(
        problem.target_direct_assets,
        problem.settings.probe_allocation_bps,
        configured.minimum_position_assets,
        item.destination_capacity,
    ) is Ok
    &&& {
        let probe = probe_spec(
            problem.target_direct_assets,
            problem.settings.probe_allocation_bps,
            configured.minimum_position_assets,
            item.destination_capacity,
        )->Ok_0;
        let stored = value_of(problem.snapshot.markets@, configured.market_id);
        let supplied = allocate_spec(
            market->Some_0,
            position->Some_0.internal_supply_shares,
            probe,
            position->Some_0.parent_recorded_market_allocation,
            stored->Some_0.fee,
            position->Some_0.affected_caps,
        );
        &&& probe@ == 0 ==> item.post_probe_rate == item.current_rate
        &&& probe@ > 0 ==> stored is Some && supplied is Ok && item.post_probe_rate
            == supplied->Ok_0.market.spot_supply_rate
    }
}

/// The probe deposit is the configured share of the direct assets, raised to the position minimum
/// and never above the capacity.
pub proof fn probe_is_a_bounded_share(
    target_direct_assets: U256,
    probe_bps: u32,
    minimum_position_assets: U256,
    capacity: U256,
)
    requires
        probe_spec(target_direct_assets, probe_bps, minimum_position_assets, capacity) is Ok,
    ensures
        ({
            let probe = probe_spec(
                target_direct_assets,
                probe_bps,
                minimum_position_assets,
                capacity,
            )->Ok_0@;
            &&& probe <= capacity@
            &&& probe >= minimum_position_assets@ || probe == capacity@
            &&& probe == capacity@ || probe == minimum_position_assets@ || is_floor(
                probe as int,
                target_direct_assets@ * probe_bps,
                10_000,
            )
            &&& probe == capacity@ || (probe + 1) * 10_000 > target_direct_assets@ * probe_bps
        }),
{
    broadcast use group_u256;

    division_rounds_down(target_direct_assets, u256(probe_bps as nat), u256(10_000));
    let share = mul_div_down_spec(
        target_direct_assets,
        u256(probe_bps as nat),
        u256(10_000),
    )->Ok_0;
    assert(is_floor(share@ as int, target_direct_assets@ * probe_bps, 10_000));
    let probe = probe_spec(
        target_direct_assets,
        probe_bps,
        minimum_position_assets,
        capacity,
    )->Ok_0;
    assert(probe == capacity || probe@ >= share@);
}

/// Whether the item was observed at one of the configured positions.
spec fn observed(problem: ObservationProblem, item: TopKMarketEvidence) -> bool {
    exists|p: int|
        0 <= p < problem.vault.positions@.len() && carries(
            problem,
            #[trigger] problem.vault.positions@[p],
            item,
        )
}

proof fn lemma_market_evidence(
    problem: ObservationProblem,
    configured: ValidatedPositionConfig,
    smoothed: Seq<(MarketId, U256)>,
)
    requires
        configured.mode == MarketMode::Active,
        market_evidence(problem, configured, smoothed) is Ok,
        market_evidence(problem, configured, smoothed)->Ok_0 is Some,
    ensures
        ranks_by_the_least_rate(market_evidence(problem, configured, smoothed)->Ok_0->Some_0),
        carries(problem, configured, market_evidence(problem, configured, smoothed)->Ok_0->Some_0),
{
    broadcast use group_u256;

}

proof fn lemma_evidence(
    problem: ObservationProblem,
    from: int,
    smoothed: Seq<(MarketId, U256)>,
    done: Seq<TopKMarketEvidence>,
)
    requires
        0 <= from <= problem.vault.positions@.len(),
        evidence_from(problem, from, smoothed, done) is Ok,
        forall|i: int|
            0 <= i < done.len() ==> ranks_by_the_least_rate(#[trigger] done[i]) && observed(
                problem,
                done[i],
            ),
    ensures
        ({
            let all = evidence_from(problem, from, smoothed, done)->Ok_0.1;
            forall|i: int|
                0 <= i < all.len() ==> ranks_by_the_least_rate(#[trigger] all[i]) && observed(
                    problem,
                    all[i],
                )
        }),
    decreases problem.vault.positions@.len() - from,
{
    if from < problem.vault.positions@.len() {
        let configured = problem.vault.positions@[from];
        if configured.mode != MarketMode::Active {
            lemma_evidence(problem, from + 1, smoothed, done);
        } else {
            match market_evidence(problem, configured, smoothed) {
                Ok(Some(item)) => {
                    lemma_market_evidence(problem, configured, smoothed);
                    let next = done.push(item);
                    assert(observed(problem, item)) by {
                        assert(carries(problem, problem.vault.positions@[from], item));
                    }
                    assert forall|i: int| 0 <= i < next.len() implies ranks_by_the_least_rate(
                        #[trigger] next[i],
                    ) && observed(problem, next[i]) by {
                        if i < done.len() {
                            assert(next[i] == done[i]);
                        }
                    }
                    lemma_evidence(
                        problem,
                        from + 1,
                        with_value(smoothed, item.market, item.smoothed_rate),
                        next,
                    );
                },
                _ => {
                    lemma_evidence(problem, from + 1, smoothed, done);
                },
            }
        }
    }
}

proof fn lemma_place(ranked: Seq<TopKMarketEvidence>, item: TopKMarketEvidence, from: int)
    requires
        0 <= from <= ranked.len(),
    ensures
        from <= ranked_place_from(ranked, item, from) <= ranked.len(),
    decreases ranked.len() - from,
{
    if from < ranked.len() {
        lemma_place(ranked, item, from + 1);
    }
}

proof fn lemma_ranked_members(
    evidence: Seq<TopKMarketEvidence>,
    from: int,
    ranked: Seq<TopKMarketEvidence>,
)
    requires
        0 <= from <= evidence.len(),
    ensures
        ranked_from(evidence, from, ranked).to_multiset() == ranked.to_multiset().add(
            evidence.skip(from).to_multiset(),
        ),
    decreases evidence.len() - from,
{
    broadcast use vstd::seq_lib::group_to_multiset_ensures;

    if from < evidence.len() {
        let item = evidence[from];
        lemma_place(ranked, item, 0);
        let at = ranked_place_from(ranked, item, 0);
        let next = ranked.insert(at, item);
        lemma_ranked_members(evidence, from + 1, next);
        vstd::seq_lib::to_multiset_insert(ranked, at, item);
        let rest = evidence.skip(from + 1);
        assert(evidence.skip(from) =~= rest.insert(0, item));
        vstd::seq_lib::to_multiset_insert(rest, 0, item);
        assert(ranked_from(evidence, from, ranked).to_multiset()
            =~= ranked.to_multiset().add(evidence.skip(from).to_multiset()));
    } else {
        assert(evidence.skip(from) =~= Seq::<TopKMarketEvidence>::empty());
        assert(ranked.to_multiset().add(evidence.skip(from).to_multiset())
            =~= ranked.to_multiset());
    }
}

/// Ranking rearranges the evidence without adding or losing any: a market with a larger ranking
/// rate comes first, and equal rates stand in market order.
pub proof fn ranking_sorts_the_evidence(evidence: Seq<TopKMarketEvidence>)
    ensures
        ranked_from(evidence, 0, Seq::empty()).to_multiset() == evidence.to_multiset(),
        forall|i: int, j: int|
            #![trigger ranked_from(evidence, 0, Seq::empty())[i], ranked_from(evidence, 0, Seq::empty())[j]]
            0 <= i < j < ranked_from(evidence, 0, Seq::empty()).len() ==> {
                let first = ranked_from(evidence, 0, Seq::empty())[i];
                let second = ranked_from(evidence, 0, Seq::empty())[j];
                &&& first.ranking_rate@ >= second.ranking_rate@
                &&& first.ranking_rate@ == second.ranking_rate@ ==> first.market.rank()
                    <= second.market.rank()
            },
{
    lemma_ranked_members(evidence, 0, Seq::empty());
    ranking_orders_evidence(evidence);
    assert(evidence.skip(0) =~= evidence);
    assert(Seq::<TopKMarketEvidence>::empty().to_multiset().add(evidence.to_multiset())
        =~= evidence.to_multiset()) by {
        broadcast use vstd::seq_lib::group_to_multiset_ensures;

        assert(Seq::<TopKMarketEvidence>::empty().to_multiset().len() == 0);
    }
}

proof fn lemma_evidence_entries(
    ranked: Seq<TopKMarketEvidence>,
    from: int,
    done: Seq<(MarketId, TopKMarketEvidence)>,
    market: MarketId,
)
    requires
        0 <= from <= ranked.len(),
        ordered_entries(done),
    ensures
        ({
            let all = evidence_entries_from(ranked, from, done);
            &&& ordered_entries(all)
            &&& value_of(all, market) is Some ==> value_of(all, market) == value_of(done, market)
                || exists|i: int|
                from <= i < ranked.len() && (#[trigger] ranked[i]).market == market && value_of(
                    all,
                    market,
                ) == Some(ranked[i])
            &&& forall|i: int|
                from <= i < ranked.len() && (#[trigger] ranked[i]).market == market ==> value_of(
                    all,
                    market,
                ) is Some
            &&& value_of(done, market) is Some ==> value_of(all, market) is Some
        }),
    decreases ranked.len() - from,
{
    if from < ranked.len() {
        let item = ranked[from];
        value_of_with_value(done, item.market, item, market);
        lemma_evidence_entries(ranked, from + 1, with_value(done, item.market, item), market);
    }
}

/// Frozen inputs of an observation.
pub open spec fn observation_problem(
    snapshot: ExactVaultSnapshot,
    projection: ProjectedVaultView,
    vault: ValidatedVaultConfig,
    settings: ValidatedTopKApyConfig,
    reallocation_limits: Seq<(PositionKey, U256)>,
    memory: Option<&TopKApyMemory>,
    current_assets: Seq<(MarketId, U256)>,
    target_direct_assets: U256,
) -> ObservationProblem {
    ObservationProblem {
        snapshot,
        projection,
        vault,
        settings,
        reallocation_limits,
        current_assets,
        target_direct_assets,
        first_observation: remembered(memory).last_observed_block != projection.head.number,
    }
}

/// Every piece of evidence in an observed target stands under its own market, ranks by the least of
/// the current, the post-probe and the smoothed rate, and is carried by an active configured
/// position.
pub proof fn evidence_is_conservative(
    snapshot: ExactVaultSnapshot,
    projection: ProjectedVaultView,
    vault: ValidatedVaultConfig,
    settings: ValidatedTopKApyConfig,
    reallocation_limits: Seq<(PositionKey, U256)>,
    memory: Option<&TopKApyMemory>,
    additional_direct_assets: U256,
    market: MarketId,
)
    requires
        observe_spec(
            snapshot,
            projection,
            vault,
            settings,
            reallocation_limits,
            memory,
            additional_direct_assets,
        ) is Ok,
        observe_spec(
            snapshot,
            projection,
            vault,
            settings,
            reallocation_limits,
            memory,
            additional_direct_assets,
        )->Ok_0.target is Some,
    ensures
        ({
            let target = observe_spec(
                snapshot,
                projection,
                vault,
                settings,
                reallocation_limits,
                memory,
                additional_direct_assets,
            )->Ok_0.target->Some_0;
            let held = value_of(target.evidence_by_market, market);
            let item = held->Some_0;
            let problem = observation_problem(
                snapshot,
                projection,
                vault,
                settings,
                reallocation_limits,
                memory,
                target.current_assets_by_market,
                target.target_direct_assets,
            );
            &&& ordered_entries(target.evidence_by_market)
            &&& held is Some ==> {
                &&& item.market == market
                &&& item.ranking_rate@ <= item.current_rate@
                &&& item.ranking_rate@ <= item.post_probe_rate@
                &&& item.ranking_rate@ <= item.smoothed_rate@
                &&& item.ranking_rate == item.current_rate || item.ranking_rate
                    == item.post_probe_rate || item.ranking_rate == item.smoothed_rate
                &&& exists|p: int|
                    0 <= p < vault.positions@.len() && carries(
                        problem,
                        #[trigger] vault.positions@[p],
                        item,
                    )
            }
        }),
{
    let target = observe_spec(
        snapshot,
        projection,
        vault,
        settings,
        reallocation_limits,
        memory,
        additional_direct_assets,
    )->Ok_0.target->Some_0;
    let known = remembered(memory);
    let problem = observation_problem(
        snapshot,
        projection,
        vault,
        settings,
        reallocation_limits,
        memory,
        target.current_assets_by_market,
        target.target_direct_assets,
    );
    assert(observed_target(problem, known) is Ok);
    let evidence = evidence_from(problem, 0, known.smoothed_rate_by_market, Seq::empty())->Ok_0.1;
    let ranked = ranked_from(evidence, 0, Seq::empty());
    lemma_evidence(problem, 0, known.smoothed_rate_by_market, Seq::empty());
    ranking_sorts_the_evidence(evidence);
    let none = Seq::<(MarketId, TopKMarketEvidence)>::empty();
    assert(target.evidence_by_market == evidence_entries_from(ranked, 0, none));
    lemma_evidence_entries(ranked, 0, none, market);
    if value_of(target.evidence_by_market, market) is Some {
        assert(value_of(none, market) is None);
        let i = choose|i: int|
            0 <= i < ranked.len() && (#[trigger] ranked[i]).market == market && value_of(
                target.evidence_by_market,
                market,
            ) == Some(ranked[i]);
        let item = ranked[i];
        assert(evidence.contains(item)) by {
            broadcast use vstd::seq_lib::group_to_multiset_ensures;

            assert(ranked.contains(item));
            assert(ranked.to_multiset().count(item) > 0);
        }
        let e = choose|e: int| 0 <= e < evidence.len() && evidence[e] == item;
        assert(ranks_by_the_least_rate(evidence[e]) && observed(problem, evidence[e]));
    }
}

/// A first or smaller rate is taken at once; of an increase exactly the configured share is taken,
/// rounded down.
pub proof fn smoothing_takes_decreases_at_once(
    previous: Option<U256>,
    current: U256,
    alpha_bps: u32,
)
    requires
        smoothed_rate_spec(previous, current, alpha_bps) is Some,
    ensures
        ({
            let rate = smoothed_rate_spec(previous, current, alpha_bps)->Some_0@;
            &&& previous is None ==> rate == current@
            &&& previous is Some && current@ <= previous->Some_0@ ==> rate == current@
            &&& previous is Some && current@ > previous->Some_0@ ==> rate >= previous->Some_0@
                && is_floor(
                rate - previous->Some_0@,
                (current@ - previous->Some_0@) * alpha_bps,
                10_000,
            )
        }),
{
    broadcast use group_u256;

    if previous is Some && current@ > previous->Some_0@ {
        let increase = u256((current@ - previous->Some_0@) as nat);
        division_rounds_down(increase, u256(alpha_bps as nat), u256(10_000));
    }
}

/// The best market is boosted exactly where its yield exceeds the average of the others, rounded
/// down, by more than the threshold.
pub proof fn boost_needs_a_lead_over_the_average(
    top_apy: U256,
    other_apy_sum: U256,
    other_count: u32,
    threshold: U256,
    average: int,
)
    requires
        is_floor(average, other_apy_sum@ as int, other_count as int),
        other_count > 0,
    ensures
        boost_required_spec(top_apy, other_apy_sum, other_count, threshold) == Ok::<
            bool,
            TopKApyError,
        >(top_apy@ > average + threshold@),
{
    broadcast use group_u256;

    let total = other_apy_sum@ as int;
    let count = other_count as int;
    vstd::arithmetic::div_mod::lemma_fundamental_div_mod(total, count);
    let q = total / count;
    assert(q == average) by (nonlinear_arith)
        requires
            total == count * q + total % count,
            0 <= total % count < count,
            average * count <= total < (average + 1) * count,
            count > 0,
    ;
    assert(u256(other_count as nat)@ == other_count);
    assert(0 <= q <= total) by (nonlinear_arith)
        requires
            total == count * q + total % count,
            0 <= total % count < count,
            total >= 0,
            count > 0,
    ;
}

proof fn lemma_boosted_floors(
    base: Seq<u32>,
    boosted_remainder: u32,
    base_remainder: u32,
    from: int,
    assigned: u32,
    done: Seq<u32>,
)
    requires
        0 <= from <= base.len(),
        done.len() == from,
        boosted_from(base, boosted_remainder, base_remainder, from, assigned, done) is Ok,
    ensures
        ({
            let weights = boosted_from(
                base,
                boosted_remainder,
                base_remainder,
                from,
                assigned,
                done,
            )->Ok_0;
            &&& weights.len() == base.len()
            &&& forall|i: int| 0 <= i < from ==> #[trigger] weights[i] == done[i]
            &&& forall|i: int|
                from <= i < base.len() - 1 ==> is_floor(
                    #[trigger] weights[i] as int,
                    boosted_remainder * base[i],
                    base_remainder as int,
                )
        }),
    decreases base.len() - from,
{
    if from < base.len() {
        let weight: u32 = if from + 1 == base.len() {
            (10_000 - assigned) as u32
        } else {
            ((boosted_remainder * base[from]) / (base_remainder as int)) as u32
        };
        let next = done.push(weight);
        lemma_boosted_floors(
            base,
            boosted_remainder,
            base_remainder,
            from + 1,
            (assigned + weight) as u32,
            next,
        );
        let weights = boosted_from(
            base,
            boosted_remainder,
            base_remainder,
            from,
            assigned,
            done,
        )->Ok_0;
        assert(weights[from] == next[from]);
        assert forall|i: int| 0 <= i < from implies #[trigger] weights[i] == done[i] by {
            assert(weights[i] == next[i]);
        }
        if from + 1 < base.len() {
            let n = boosted_remainder * base[from];
            let d = base_remainder as int;
            vstd::arithmetic::div_mod::lemma_fundamental_div_mod(n, d);
            let q = n / d;
            assert(0 <= n) by (nonlinear_arith)
                requires
                    n == boosted_remainder * base[from],
            ;
            assert(q * d <= n < (q + 1) * d && 0 <= q <= n) by (nonlinear_arith)
                requires
                    n == d * q + n % d,
                    0 <= n % d < d,
                    0 <= n,
                    d > 0,
            ;
        }
    }
}

/// Boosting keeps the other markets in proportion: each but the last gets its base share of what the
/// boost leaves, rounded down.
pub proof fn boosted_weights_keep_proportion(base: Seq<u32>, boost: u32)
    requires
        base.len() >= 2,
        boosted_weights_spec(base, boost) is Ok,
    ensures
        ({
            let weights = boosted_weights_spec(base, boost)->Ok_0;
            &&& boost <= 10_000
            &&& weights.len() == base.len()
            &&& weights[0] == boost
            &&& forall|i: int|
                1 <= i < base.len() - 1 ==> is_floor(
                    #[trigger] weights[i] as int,
                    (10_000 - boost) * base[i],
                    10_000 - base[0],
                )
        }),
{
    lemma_boosted_floors(
        base,
        (10_000 - boost) as u32,
        (10_000 - base[0]) as u32,
        1,
        boost,
        seq![boost],
    );
}

proof fn lemma_share_floors(
    direct_assets: U256,
    weights: Seq<u32>,
    from: int,
    assigned: U256,
    done: Seq<U256>,
)
    requires
        0 <= from <= weights.len(),
        done.len() == from,
        shares_from(direct_assets, weights, from, assigned, done) is Ok,
    ensures
        ({
            let shares = shares_from(direct_assets, weights, from, assigned, done)->Ok_0;
            &&& shares.len() == weights.len()
            &&& forall|i: int| 0 <= i < from ==> #[trigger] shares[i] == done[i]
            &&& forall|i: int|
                from <= i < weights.len() - 1 ==> is_floor(
                    (#[trigger] shares[i])@ as int,
                    direct_assets@ * weights[i],
                    10_000,
                )
        }),
    decreases weights.len() - from,
{
    broadcast use group_u256;

    if from < weights.len() {
        let amount = if from + 1 == weights.len() {
            difference(direct_assets, assigned)->0
        } else {
            mul_div_down_spec(direct_assets, u256(weights[from] as nat), u256(10_000))->Ok_0
        };
        let next = done.push(amount);
        lemma_share_floors(
            direct_assets,
            weights,
            from + 1,
            sum(assigned, amount)->0,
            next,
        );
        let shares = shares_from(direct_assets, weights, from, assigned, done)->Ok_0;
        assert(shares[from] == next[from]);
        assert forall|i: int| 0 <= i < from implies #[trigger] shares[i] == done[i] by {
            assert(shares[i] == next[i]);
        }
        if from + 1 < weights.len() {
            division_rounds_down(direct_assets, u256(weights[from] as nat), u256(10_000));
        }
    }
}

proof fn lemma_stored(
    markets: Seq<MarketId>,
    amounts: Seq<U256>,
    from: int,
    done: Seq<(MarketId, U256)>,
    at: int,
)
    requires
        0 <= from <= markets.len(),
        0 <= at < markets.len(),
        markets.no_duplicates(),
        ordered_entries(done),
        at < from ==> value_of(done, markets[at]) == Some(amounts[at]),
    ensures
        ordered_entries(stored_from(markets, amounts, from, done)),
        value_of(stored_from(markets, amounts, from, done), markets[at]) == Some(amounts[at]),
    decreases markets.len() - from,
{
    if from < markets.len() {
        value_of_with_value(done, markets[from], amounts[from], markets[at]);
        lemma_stored(
            markets,
            amounts,
            from + 1,
            with_value(done, markets[from], amounts[from]),
            at,
        );
    }
}

/// Each selected market but the last is given its weighted share of the direct assets, rounded down,
/// under its own name; the last takes what is left.
pub proof fn targets_follow_the_weights(
    selected: Seq<MarketId>,
    direct_assets: U256,
    weights: Seq<u32>,
    at: int,
)
    requires
        selected.no_duplicates(),
        0 <= at < selected.len(),
        target_allocations_spec(selected, direct_assets, weights) is Ok,
    ensures
        ({
            let targets = target_allocations_spec(selected, direct_assets, weights)->Ok_0;
            let held = value_of(targets, selected[at]);
            &&& selected.len() == weights.len()
            &&& held is Some
            &&& at < selected.len() - 1 ==> is_floor(
                held->Some_0@ as int,
                direct_assets@ * weights[at],
                10_000,
            )
            &&& at == selected.len() - 1 ==> held->Some_0@ + row_total_from(
                target_shares_spec(selected, direct_assets, weights)->Ok_0.drop_last(),
                0,
            ) == direct_assets@
        }),
{
    let shares = target_shares_spec(selected, direct_assets, weights)->Ok_0;
    lemma_share_floors(direct_assets, weights, 0, u256(0), Seq::empty());
    lemma_stored(selected, shares, 0, Seq::empty(), at);
    target_shares_conserve_direct_assets(selected, direct_assets, weights);
    lemma_total_without_last(shares, 0);
}

proof fn lemma_total_without_last(row: Seq<U256>, from: int)
    requires
        0 <= from < row.len(),
    ensures
        row_total_from(row, from) == row_total_from(row.drop_last(), from) + row.last()@,
    decreases row.len() - from,
{
    if from + 1 < row.len() {
        lemma_total_without_last(row, from + 1);
        assert(row.drop_last()[from] == row[from]);
    } else {
        assert(row_total_from(row, from + 1) == 0);
    }
}

/// Summed distance of current and target amounts over the first `count` markets.
pub open spec fn distance_sum(
    markets: Seq<MarketId>,
    current: Seq<(MarketId, U256)>,
    targets: Seq<(MarketId, U256)>,
    count: int,
) -> int
    decreases count,
{
    if count <= 0 {
        0
    } else {
        let held = value_of(current, markets[count - 1]);
        let wanted = value_of(targets, markets[count - 1]);
        let a: int = if held is Some {
            held->Some_0@ as int
        } else {
            0
        };
        let b: int = if wanted is Some {
            wanted->Some_0@ as int
        } else {
            0
        };
        distance_sum(markets, current, targets, count - 1) + if a >= b {
            a - b
        } else {
            b - a
        }
    }
}

proof fn lemma_distance_total(
    markets: Seq<MarketId>,
    current: Seq<(MarketId, U256)>,
    targets: Seq<(MarketId, U256)>,
    from: int,
    total: U256,
)
    requires
        0 <= from <= markets.len(),
        total@ == distance_sum(markets, current, targets, from),
        checked_total_from(distances(markets, current, targets), from, total) is Some,
    ensures
        checked_total_from(distances(markets, current, targets), from, total)->Some_0@
            == distance_sum(markets, current, targets, markets.len() as int),
    decreases markets.len() - from,
{
    broadcast use group_u256;

    if from < markets.len() {
        let values = distances(markets, current, targets);
        let next = sum(total, values[from])->Some_0;
        lemma_distance_total(markets, current, targets, from + 1, next);
    }
}

proof fn lemma_keys_added<V>(entries: Seq<(MarketId, V)>, from: int, keys: Seq<MarketId>)
    requires
        0 <= from <= entries.len(),
        strictly_increasing(keys),
    ensures
        ({
            let all = keys_added_from(entries, from, keys);
            &&& strictly_increasing(all)
            &&& forall|key: MarketId|
                all.contains(key) <==> keys.contains(key) || exists|i: int|
                    from <= i < entries.len() && (#[trigger] entries[i]).0 == key
        }),
    decreases entries.len() - from,
{
    if from < entries.len() {
        let key = entries[from].0;
        let next = with_key(keys, key);
        with_key_is_insertion(keys, key);
        lemma_keys_added(entries, from + 1, next);
        assert forall|other: MarketId| next.contains(other) == (keys.contains(other) || other
            == key) by {
            assert(next.to_set().contains(other) == keys.to_set().insert(key).contains(other));
        }
        let all = keys_added_from(entries, from, keys);
        assert forall|other: MarketId|
            all.contains(other) <==> keys.contains(other) || exists|i: int|
                from <= i < entries.len() && (#[trigger] entries[i]).0 == other by {
            if other == key {
                assert(entries[from].0 == other);
            }
            if exists|i: int| from <= i < entries.len() && (#[trigger] entries[i]).0 == other {
                let i = choose|i: int|
                    from <= i < entries.len() && (#[trigger] entries[i]).0 == other;
                if i > from {
                    assert(from + 1 <= i < entries.len() && entries[i].0 == other);
                }
            }
        }
    }
}

/// The distance of an allocation to its target is the summed difference over every market of either
/// side, each once, as a share of twice the direct assets, rounded down.
pub proof fn score_is_the_normalized_distance(
    current: Seq<(MarketId, U256)>,
    targets: Seq<(MarketId, U256)>,
    direct_assets: U256,
)
    requires
        score_spec(current, targets, direct_assets) is Ok,
    ensures
        ({
            let markets = markets_of_either(current, targets);
            let score = score_spec(current, targets, direct_assets)->Ok_0@;
            &&& strictly_increasing(markets)
            &&& forall|key: MarketId|
                markets.contains(key) <==> (exists|i: int|
                    0 <= i < current.len() && (#[trigger] current[i]).0 == key) || (exists|i: int|
                    0 <= i < targets.len() && (#[trigger] targets[i]).0 == key)
            &&& direct_assets@ == 0 ==> score == 0
            &&& direct_assets@ > 0 ==> is_floor(
                score as int,
                distance_sum(markets, current, targets, markets.len() as int)
                    * 1_000_000_000_000_000_000,
                2int * direct_assets@,
            )
        }),
{
    broadcast use group_u256;

    let none = Seq::<MarketId>::empty();
    let held = keys_added_from(current, 0, none);
    lemma_keys_added(current, 0, none);
    lemma_keys_added(targets, 0, held);
    if direct_assets@ > 0 {
        let markets = markets_of_either(current, targets);
        lemma_distance_total(markets, current, targets, 0, u256(0));
        let distance = checked_total_from(
            distances(markets, current, targets),
            0,
            u256(0),
        )->Some_0;
        let denominator = u256((direct_assets@ * 2) as nat);
        division_rounds_down(distance, u256(1_000_000_000_000_000_000), denominator);
    }
}

/// Assets times supply rate over the first `count` markets.
pub open spec fn weighted_rates(
    current: Seq<(MarketId, U256)>,
    markets: Seq<(MarketId, ProjectedMarketState)>,
    count: int,
) -> int
    decreases count,
{
    if count <= 0 {
        0
    } else {
        weighted_rates(current, markets, count - 1) + current[count - 1].1@ * value_of(
            markets,
            current[count - 1].0,
        )->Some_0.spot_supply_rate@
    }
}

/// Assets of the first `count` markets.
pub open spec fn assets_sum(current: Seq<(MarketId, U256)>, count: int) -> int
    decreases count,
{
    if count <= 0 {
        0
    } else {
        assets_sum(current, count - 1) + current[count - 1].1@
    }
}

proof fn lemma_weighted(
    current: Seq<(MarketId, U256)>,
    markets: Seq<(MarketId, ProjectedMarketState)>,
    from: int,
    total: U256,
)
    requires
        0 <= from <= current.len(),
        total@ == weighted_rates(current, markets, from),
        weighted_from(current, markets, from, total) is Ok,
    ensures
        weighted_from(current, markets, from, total)->Ok_0@ == weighted_rates(
            current,
            markets,
            current.len() as int,
        ),
        forall|i: int|
            from <= i < current.len() ==> value_of(markets, (#[trigger] current[i]).0) is Some,
    decreases current.len() - from,
{
    broadcast use group_u256;

    if from < current.len() {
        let market = value_of(markets, current[from].0)->Some_0;
        let value = crate::primitives::product(current[from].1, market.spot_supply_rate)->Some_0;
        let next = sum(total, value)->Some_0;
        lemma_weighted(current, markets, from + 1, next);
    }
}

proof fn lemma_entries_total(current: Seq<(MarketId, U256)>, from: int, total: U256)
    requires
        0 <= from <= current.len(),
        total@ == assets_sum(current, from),
        checked_total_from(entry_values(current), from, total) is Some,
    ensures
        checked_total_from(entry_values(current), from, total)->Some_0@ == assets_sum(
            current,
            current.len() as int,
        ),
    decreases current.len() - from,
{
    broadcast use group_u256;

    if from < current.len() {
        let values = entry_values(current);
        assert(values[from] == current[from].1);
        let next = sum(total, values[from])->Some_0;
        lemma_entries_total(current, from + 1, next);
    }
}

/// The rate of a portfolio is the supply rate of its markets weighted by the assets in them, rounded
/// down; an empty portfolio earns nothing.
pub proof fn portfolio_rate_is_asset_weighted(
    current: Seq<(MarketId, U256)>,
    markets: Seq<(MarketId, ProjectedMarketState)>,
)
    requires
        portfolio_rate_spec(current, markets) is Ok,
    ensures
        ({
            let rate = portfolio_rate_spec(current, markets)->Ok_0@;
            let assets = assets_sum(current, current.len() as int);
            &&& assets == 0 ==> rate == 0
            &&& assets > 0 ==> is_floor(
                rate as int,
                weighted_rates(current, markets, current.len() as int),
                assets,
            )
            &&& assets > 0 ==> forall|i: int|
                0 <= i < current.len() ==> value_of(markets, (#[trigger] current[i]).0) is Some
        }),
{
    broadcast use group_u256;

    lemma_entries_total(current, 0, u256(0));
    let total = entries_total(current)->Ok_0;
    if total@ > 0 {
        lemma_weighted(current, markets, 0, u256(0));
        let weighted = weighted_from(current, markets, 0, u256(0))->Ok_0;
        let n = weighted@ as int;
        let d = total@ as int;
        vstd::arithmetic::div_mod::lemma_fundamental_div_mod(n, d);
        let q = n / d;
        assert(q * d <= n < (q + 1) * d && 0 <= q <= n) by (nonlinear_arith)
            requires
                n == d * q + n % d,
                0 <= n % d < d,
                0 <= n,
                d > 0,
        ;
    }
}

/// A market takes another's place only where it leads by the entry margin in conservative yield, by
/// the exit margin in current yield and by the replacement margin after the probe.
pub proof fn transitions_need_every_margin(
    candidate: TopKMarketEvidence,
    incumbent: TopKMarketEvidence,
    settings: ValidatedTopKApyConfig,
)
    requires
        transition_spec(candidate, incumbent, settings) is Ok,
    ensures
        transition_spec(candidate, incumbent, settings)->Ok_0 <==> {
            &&& annualized_spec(candidate.ranking_rate)->Ok_0@ >= annualized_spec(
                incumbent.ranking_rate,
            )->Ok_0@ + settings.enter_apy_wad@
            &&& annualized_spec(candidate.current_rate)->Ok_0@ >= annualized_spec(
                incumbent.current_rate,
            )->Ok_0@ + settings.exit_apy_wad@
            &&& annualized_spec(candidate.post_probe_rate)->Ok_0@ >= annualized_spec(
                incumbent.post_probe_rate,
            )->Ok_0@ + settings.replacement_apy_wad@
        },
{
}

/// A yield is the per-second rate compounded over the seconds of a year.
pub proof fn yields_compound_over_a_year(rate: U256)
    ensures
        ({
            let compounded = w_taylor_compounded_spec(rate, u256(31_536_000));
            &&& annualized_spec(rate) is Ok <==> compounded is Ok
            &&& compounded is Ok ==> annualized_spec(rate)->Ok_0 == compounded->Ok_0
        }),
{
}

/// A fourth market joins only where its conservative yield is within the allowed gap of the best,
/// and its target would be at least its position minimum and within what it can hold.
pub proof fn fourth_market_is_close_and_reachable(
    ranked: Seq<TopKMarketEvidence>,
    direct_assets: U256,
    current_assets: Seq<(MarketId, U256)>,
    vault: ValidatedVaultConfig,
    settings: ValidatedTopKApyConfig,
)
    requires
        ranked.len() >= 4,
        fourth_joins(ranked, direct_assets, current_assets, vault, settings) == Ok::<
            bool,
            TopKApyError,
        >(true),
    ensures
        ({
            let fourth = ranked[3];
            let best = annualized_spec(ranked[0].ranking_rate);
            let last = annualized_spec(fourth.ranking_rate);
            let four = leading_markets(ranked, 4);
            let weights = effective_weights_spec(four, ranked, settings)->Ok_0;
            let targets = target_allocations_spec(four, direct_assets, weights)->Ok_0;
            let target = value_of(targets, fourth.market)->Some_0@;
            let current = value_of(current_assets, fourth.market)->Some_0@;
            let position = market_position_from(vault.positions@, fourth.market, 0)->Some_0;
            &&& best is Ok && last is Ok
            &&& best->Ok_0@ <= last->Ok_0@ + settings.fourth_market_max_gap_apy_wad@
            &&& target >= position.minimum_position_assets@
            &&& current + fourth.destination_capacity@ >= target
        }),
{
    broadcast use group_u256;

}

} // verus!
