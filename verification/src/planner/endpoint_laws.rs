//! What may give and what may take assets, stated on the positions and limits it comes from.

use vstd::prelude::*;

use crate::collections::{ordered_entries, value_of, value_of_with_value};
use crate::config::{
    SolverConfigCanonical, ValidatedPositionConfig, ValidatedStrategyConfig, ValidatedVaultConfig,
};
use crate::domain::{
    market_params_encoding, ActionKind, ExactVaultSnapshot, MarketId, MarketMode, PositionKey,
    ProjectedVaultView, RateObjectiveBranch, TokenAddress,
};
use crate::planner::candidates::lattice_keeps_exact_boundaries;
use crate::planner::certificate::CertificateView;
use crate::planner::episodes::EpisodeView;
use crate::planner::liquidity::{
    consumed, credited, direct_destinations_from, direct_endpoint, direct_endpoints_from,
    direct_sources_from, maintenance_destinations, maintenance_sources, native_path_from,
    registered, service_endpoint, EndpointView, SourceView,
};
use crate::planner::moves::{
    action_headroom, action_headroom_respects_position_limits, endpoint_total_from,
    market_position_from, Endpoint,
};
use crate::planner::objective::complete_spread_spec;
use crate::planner::rate::{combined_certificate, market_endpoints_from, rate_setup};
use crate::primitives::{group_u256, lemma_u256_injective, u256, U256};

verus! {

/// Whether a position's assets, less what may leave it, stay at its minimum.
pub open spec fn may_give(position: ValidatedPositionConfig, current: U256, maximum: U256) -> bool {
    &&& maximum@ <= position.maximum_action_assets@
    &&& maximum@ == 0 || current@ >= maximum@ + position.minimum_position_assets@
    &&& maximum@ == position.maximum_action_assets@ || current@ <= maximum@
        + position.minimum_position_assets@
}

/// Whether a position's assets with what may enter it stay at its maximum.
pub open spec fn may_take(position: ValidatedPositionConfig, current: U256, maximum: U256) -> bool {
    &&& maximum@ <= position.maximum_action_assets@
    &&& maximum@ == 0 || current@ + maximum@ <= position.maximum_position_assets@
    &&& maximum@ == position.maximum_action_assets@ || current@ + maximum@
        >= position.maximum_position_assets@
}

/// Whether a maximum is what an action of the direction may move.
pub open spec fn may_move(
    position: ValidatedPositionConfig,
    kind: ActionKind,
    current: U256,
    maximum: U256,
) -> bool {
    match kind {
        ActionKind::Deallocate => may_give(position, current, maximum),
        ActionKind::Allocate => may_take(position, current, maximum),
    }
}

/// Whether an endpoint stands for a market: its position serves the market and is the first that
/// does, and its amount is positive and what the position may give or take.
pub open spec fn serves_market(
    endpoint: Endpoint,
    market: MarketId,
    positions: Seq<ValidatedPositionConfig>,
    expected: Seq<(PositionKey, U256)>,
    kind: ActionKind,
) -> bool {
    &&& endpoint.0.market_id == market
    &&& positions.contains(endpoint.0)
    &&& endpoint.1@ > 0
    &&& value_of(expected, endpoint.0.position_key) is Some
    &&& may_move(
        endpoint.0,
        kind,
        value_of(expected, endpoint.0.position_key)->Some_0,
        endpoint.1,
    )
}

proof fn lemma_market_position(
    positions: Seq<ValidatedPositionConfig>,
    market: MarketId,
    from: int,
)
    requires
        0 <= from <= positions.len(),
    ensures
        match market_position_from(positions, market, from) {
            Some(position) => position.market_id == market && positions.contains(position),
            None => forall|i: int|
                from <= i < positions.len() ==> (#[trigger] positions[i]).market_id != market,
        },
    decreases positions.len() - from,
{
    if from < positions.len() {
        if positions[from].market_id == market {
            assert(positions.contains(positions[from]));
        } else {
            lemma_market_position(positions, market, from + 1);
        }
    }
}

proof fn lemma_may_move(position: ValidatedPositionConfig, kind: ActionKind, current: U256)
    ensures
        may_move(position, kind, current, action_headroom(position, kind, current)),
{
    action_headroom_respects_position_limits(position, current);
}

/// Whether some endpoint stands for the market.
pub open spec fn served(
    endpoints: Seq<Endpoint>,
    market: MarketId,
    positions: Seq<ValidatedPositionConfig>,
    expected: Seq<(PositionKey, U256)>,
    kind: ActionKind,
) -> bool {
    exists|j: int|
        0 <= j < endpoints.len() && serves_market(
            #[trigger] endpoints[j],
            market,
            positions,
            expected,
            kind,
        )
}

/// Whether the first position of the market can move nothing.
pub open spec fn exhausted_market(
    market: MarketId,
    positions: Seq<ValidatedPositionConfig>,
    expected: Seq<(PositionKey, U256)>,
    kind: ActionKind,
) -> bool {
    exists|i: int|
        0 <= i < positions.len() && (#[trigger] positions[i]).market_id == market && value_of(
            expected,
            positions[i].position_key,
        ) is Some && may_move(
            positions[i],
            kind,
            value_of(expected, positions[i].position_key)->Some_0,
            u256(0),
        )
}

proof fn lemma_market_endpoints(
    markets: Seq<MarketId>,
    positions: Seq<ValidatedPositionConfig>,
    expected: Seq<(PositionKey, U256)>,
    kind: ActionKind,
    from: int,
    done: Seq<Endpoint>,
)
    requires
        0 <= from <= markets.len(),
        market_endpoints_from(markets, positions, expected, kind, from, done) is Some,
    ensures
        ({
            let all = market_endpoints_from(markets, positions, expected, kind, from, done)->0;
            &&& done.len() <= all.len()
            &&& forall|j: int| 0 <= j < done.len() ==> #[trigger] all[j] == done[j]
            &&& forall|j: int|
                done.len() <= j < all.len() ==> exists|k: int|
                    from <= k < markets.len() && serves_market(
                        #[trigger] all[j],
                        #[trigger] markets[k],
                        positions,
                        expected,
                        kind,
                    )
            &&& forall|k: int|
                from <= k < markets.len() ==> served(
                    all,
                    #[trigger] markets[k],
                    positions,
                    expected,
                    kind,
                ) || exhausted_market(markets[k], positions, expected, kind)
        }),
    decreases markets.len() - from,
{
    broadcast use group_u256;

    if from < markets.len() {
        let position = market_position_from(positions, markets[from], 0)->0;
        let current = value_of(expected, position.position_key)->0;
        let maximum = action_headroom(position, kind, current);
        lemma_market_position(positions, markets[from], 0);
        lemma_may_move(position, kind, current);
        let next = if maximum@ == 0 {
            done
        } else {
            done.push((position, maximum))
        };
        lemma_market_endpoints(markets, positions, expected, kind, from + 1, next);
        let all = market_endpoints_from(markets, positions, expected, kind, from, done)->0;
        assert forall|j: int| 0 <= j < done.len() implies #[trigger] all[j] == done[j] by {
            assert(all[j] == next[j]);
        }
        let i = choose|i: int| 0 <= i < positions.len() && positions[i] == position;
        if maximum@ == 0 {
            lemma_u256_injective(maximum, u256(0));
            assert(positions[i].market_id == markets[from]);
            assert(exhausted_market(markets[from], positions, expected, kind));
        } else {
            assert(all[done.len() as int] == next[done.len() as int]);
            assert(serves_market(
                all[done.len() as int],
                markets[from],
                positions,
                expected,
                kind,
            ));
            assert(served(all, markets[from], positions, expected, kind));
        }
        assert forall|j: int| done.len() <= j < all.len() implies exists|k: int|
            from <= k < markets.len() && serves_market(
                #[trigger] all[j],
                #[trigger] markets[k],
                positions,
                expected,
                kind,
            ) by {
            if j < next.len() {
                assert(serves_market(all[j], markets[from], positions, expected, kind));
            } else {
                let k = choose|k: int|
                    from + 1 <= k < markets.len() && serves_market(
                        all[j],
                        #[trigger] markets[k],
                        positions,
                        expected,
                        kind,
                    );
                assert(serves_market(all[j], markets[k], positions, expected, kind));
            }
        }
    }
}

/// The endpoints of markets are positions that serve them, each with what it may move; a market is
/// left out only where its position may move nothing.
pub proof fn market_endpoints_serve_their_markets(
    markets: Seq<MarketId>,
    positions: Seq<ValidatedPositionConfig>,
    expected: Seq<(PositionKey, U256)>,
    kind: ActionKind,
)
    requires
        market_endpoints_from(markets, positions, expected, kind, 0, Seq::empty()) is Some,
    ensures
        ({
            let all = market_endpoints_from(
                markets,
                positions,
                expected,
                kind,
                0,
                Seq::empty(),
            )->0;
            &&& forall|j: int|
                0 <= j < all.len() ==> exists|k: int|
                    0 <= k < markets.len() && serves_market(
                        #[trigger] all[j],
                        #[trigger] markets[k],
                        positions,
                        expected,
                        kind,
                    )
            &&& forall|k: int|
                0 <= k < markets.len() ==> served(
                    all,
                    #[trigger] markets[k],
                    positions,
                    expected,
                    kind,
                ) || exhausted_market(markets[k], positions, expected, kind)
        }),
{
    lemma_market_endpoints(markets, positions, expected, kind, 0, Seq::empty());
}

/// A rate search withdraws from the frozen sources and supplies the frozen destinations, measures the
/// spread of the frozen branch before it moves, and tries no amount above the budget, what the
/// sources give or what the destinations take.
pub proof fn rate_searches_keep_the_frozen_direction(
    snapshot: ExactVaultSnapshot,
    projection: ProjectedVaultView,
    terminal: Option<&ProjectedVaultView>,
    vault: ValidatedVaultConfig,
    strategy: ValidatedStrategyConfig,
    solver: SolverConfigCanonical,
    episode: EpisodeView,
    budget: U256,
)
    requires
        rate_setup(
            snapshot,
            projection,
            terminal,
            vault,
            strategy,
            solver,
            episode,
            budget,
        ) is Some,
    ensures
        ({
            let (problem, amounts, _) = rate_setup(
                snapshot,
                projection,
                terminal,
                vault,
                strategy,
                solver,
                episode,
                budget,
            )->0;
            let expected = projection.vault.position_expected_assets@;
            let given = endpoint_total_from(problem.sources, 0, u256(0));
            let taken = endpoint_total_from(problem.destinations, 0, u256(0));
            &&& problem.horizon == projection.head.timestamp + strategy.benefit_horizon_seconds
            &&& problem.episode == episode && problem.vault == vault
            &&& given is Some && taken is Some
            &&& forall|k: int|
                0 <= k < amounts.len() ==> (#[trigger] amounts[k])@ <= budget@ && amounts[k]@
                    <= given->0@ && amounts[k]@ <= taken->0@
            &&& episode.objective_branch == RateObjectiveBranch::Portfolio ==> Some(
                problem.before_spread,
            ) == complete_spread_spec(
                episode.evaluation_markets,
                projection.markets@,
                strategy.objective,
            )
            &&& episode.objective_branch == RateObjectiveBranch::Controllable ==> Some(
                problem.before_spread,
            ) == complete_spread_spec(
                episode.controllable_markets,
                projection.markets@,
                strategy.objective,
            )
            &&& forall|j: int|
                0 <= j < problem.sources.len() ==> exists|k: int|
                    0 <= k < episode.source_markets.len() && serves_market(
                        #[trigger] problem.sources[j],
                        #[trigger] episode.source_markets[k],
                        vault.positions@,
                        expected,
                        ActionKind::Deallocate,
                    )
            &&& forall|j: int|
                0 <= j < problem.destinations.len() ==> exists|k: int|
                    0 <= k < episode.destination_markets.len() && serves_market(
                        #[trigger] problem.destinations[j],
                        #[trigger] episode.destination_markets[k],
                        vault.positions@,
                        expected,
                        ActionKind::Allocate,
                    )
        }),
{
    let expected = projection.vault.position_expected_assets@;
    let (problem, amounts, _) = rate_setup(
        snapshot,
        projection,
        terminal,
        vault,
        strategy,
        solver,
        episode,
        budget,
    )->0;
    market_endpoints_serve_their_markets(
        episode.source_markets,
        vault.positions@,
        expected,
        ActionKind::Deallocate,
    );
    market_endpoints_serve_their_markets(
        episode.destination_markets,
        vault.positions@,
        expected,
        ActionKind::Allocate,
    );
    let given = endpoint_total_from(problem.sources, 0, u256(0))->0;
    let taken = endpoint_total_from(problem.destinations, 0, u256(0))->0;
    lattice_keeps_exact_boundaries(
        vault.minimum_action_assets,
        crate::primitives::smaller(crate::primitives::smaller(given, taken), budget),
        seq![budget, given, taken],
        solver.maximum_amount_candidates_per_position,
    );
}

/// A combined search is complete only where both searches are, and counts the nodes of both.
pub proof fn combined_searches_count_both(
    first: CertificateView,
    second: CertificateView,
    optimal_movement: U256,
    tranche_limit: U256,
)
    ensures
        ({
            let both = combined_certificate(first, second, optimal_movement, tranche_limit);
            &&& both.search_complete ==> first.search_complete && second.search_complete
            &&& both.search_complete ==> both.nodes_evaluated == first.nodes_evaluated
                + second.nodes_evaluated
            &&& both.search_complete ==> both.node_limit == first.node_limit + second.node_limit
        }),
{
}

spec fn stands_for(
    endpoint: EndpointView,
    position: ValidatedPositionConfig,
    expected: Seq<(PositionKey, U256)>,
) -> bool {
    match value_of(expected, position.position_key) {
        Some(current) => endpoint == direct_endpoint(position, current),
        None => false,
    }
}

proof fn lemma_direct_endpoints(
    positions: Seq<ValidatedPositionConfig>,
    expected: Seq<(PositionKey, U256)>,
    from: int,
    done: Seq<EndpointView>,
)
    requires
        0 <= from <= positions.len(),
        done.len() == from,
        forall|i: int| 0 <= i < from ==> stands_for(#[trigger] done[i], positions[i], expected),
        direct_endpoints_from(positions, expected, from, done) is Some,
    ensures
        ({
            let all = direct_endpoints_from(positions, expected, from, done)->0;
            &&& all.len() == positions.len()
            &&& forall|i: int|
                0 <= i < positions.len() ==> stands_for(
                    #[trigger] all[i],
                    positions[i],
                    expected,
                )
        }),
    decreases positions.len() - from,
{
    if from < positions.len() {
        let current = value_of(expected, positions[from].position_key)->0;
        let next = done.push(direct_endpoint(positions[from], current));
        assert forall|i: int| 0 <= i < from + 1 implies stands_for(
            #[trigger] next[i],
            positions[i],
            expected,
        ) by {
            if i < from {
                assert(stands_for(done[i], positions[i], expected));
            }
        }
        lemma_direct_endpoints(positions, expected, from + 1, next);
    }
}

/// Maintenance knows every configured position by its own key, adapter and market, with what it may
/// give and take, and supplies only active ones.
pub proof fn maintenance_knows_every_position(
    positions: Seq<ValidatedPositionConfig>,
    expected: Seq<(PositionKey, U256)>,
    i: int,
)
    requires
        direct_endpoints_from(positions, expected, 0, Seq::empty()) is Some,
        0 <= i < positions.len(),
    ensures
        ({
            let all = direct_endpoints_from(positions, expected, 0, Seq::empty())->0;
            let current = value_of(expected, positions[i].position_key);
            &&& all.len() == positions.len()
            &&& current is Some
            &&& all[i].position == positions[i].position_key
            &&& all[i].adapter == positions[i].adapter
            &&& all[i].data == market_params_encoding(positions[i].market_params)
            &&& all[i].active_destination <==> positions[i].mode == MarketMode::Active
            &&& may_give(positions[i], current->0, all[i].deallocation_maximum)
            &&& may_take(positions[i], current->0, all[i].allocation_maximum)
        }),
{
    lemma_direct_endpoints(positions, expected, 0, Seq::empty());
    let current = value_of(expected, positions[i].position_key)->0;
    let all = direct_endpoints_from(positions, expected, 0, Seq::empty())->0;
    assert(stands_for(all[i], positions[i], expected));
    lemma_may_move(positions[i], ActionKind::Deallocate, current);
    lemma_may_move(positions[i], ActionKind::Allocate, current);
}

/// A liquidity-only adapter takes no more than it accepts and gives no more than it pays, neither
/// beyond the action limit, and keeps its minimum.
pub proof fn service_adapter_keeps_its_limits(
    snapshot: ExactVaultSnapshot,
    vault: ValidatedVaultConfig,
    direct: Seq<EndpointView>,
)
    requires
        vault.liquidity_adapter is Some,
        snapshot.liquidity_adapter is Some,
    ensures
        ({
            let endpoint = service_endpoint(snapshot, vault, direct);
            let configured = vault.liquidity_adapter->0;
            let current = snapshot.liquidity_adapter->0;
            let gives = endpoint->0.deallocation_maximum@;
            let takes = endpoint->0.allocation_maximum@;
            &&& endpoint is Some
            &&& endpoint->0.position == configured.position_key
            &&& endpoint->0.adapter == configured.address
            &&& endpoint->0.data.len() == 0
            &&& takes <= configured.maximum_action_assets@ && takes <= current.max_deposit@
            &&& takes == configured.maximum_action_assets@ || takes == current.max_deposit@
            &&& gives <= configured.maximum_action_assets@ && gives <= current.max_withdraw@
            &&& gives == 0 || gives + vault.minimum_liquidity_adapter_assets@
                <= current.real_assets@
            &&& gives == configured.maximum_action_assets@ || gives == current.max_withdraw@
                || gives + vault.minimum_liquidity_adapter_assets@ >= current.real_assets@
        }),
{
    broadcast use group_u256;

}

proof fn lemma_native_path(direct: Seq<EndpointView>, snapshot: ExactVaultSnapshot, from: int)
    requires
        0 <= from <= direct.len(),
    ensures
        match native_path_from(direct, snapshot, from) {
            Some(endpoint) => direct.contains(endpoint) && endpoint.adapter.0
                == snapshot.parent.liquidity_adapter && endpoint.data
                == snapshot.parent.liquidity_data@,
            None => forall|i: int|
                from <= i < direct.len() ==> (#[trigger] direct[i]).adapter.0
                    != snapshot.parent.liquidity_adapter || direct[i].data
                    != snapshot.parent.liquidity_data@,
        },
    decreases direct.len() - from,
{
    if from < direct.len() {
        assert(direct.contains(direct[from]));
        if direct[from].adapter.0 != snapshot.parent.liquidity_adapter || direct[from].data
            != snapshot.parent.liquidity_data@ {
            lemma_native_path(direct, snapshot, from + 1);
        }
    }
}

/// Without a liquidity-only adapter the service endpoint is a direct position on the parent's own
/// liquidity path, and is missing only where none is on it.
pub proof fn service_follows_the_native_path(
    snapshot: ExactVaultSnapshot,
    vault: ValidatedVaultConfig,
    direct: Seq<EndpointView>,
)
    requires
        vault.liquidity_adapter is None || snapshot.liquidity_adapter is None,
    ensures
        match service_endpoint(snapshot, vault, direct) {
            Some(endpoint) => direct.contains(endpoint) && endpoint.adapter.0
                == snapshot.parent.liquidity_adapter && endpoint.data
                == snapshot.parent.liquidity_data@,
            None => forall|i: int|
                0 <= i < direct.len() ==> (#[trigger] direct[i]).adapter.0
                    != snapshot.parent.liquidity_adapter || direct[i].data
                    != snapshot.parent.liquidity_data@,
        },
{
    lemma_native_path(direct, snapshot, 0);
}

proof fn lemma_direct_sources(
    direct: Seq<EndpointView>,
    from: int,
    done: Seq<SourceView>,
    source: SourceView,
)
    requires
        0 <= from <= direct.len(),
    ensures
        direct_sources_from(direct, from, done).contains(source) <==> done.contains(source)
            || exists|i: int|
            from <= i < direct.len() && source == (
                Some(#[trigger] direct[i]),
                direct[i].deallocation_maximum,
            ) && source.1@ > 0,
    decreases direct.len() - from,
{
    if from < direct.len() {
        let added: SourceView = (Some(direct[from]), direct[from].deallocation_maximum);
        let next = if direct[from].deallocation_maximum@ == 0 {
            done
        } else {
            done.push(added)
        };
        lemma_push(done, added, source);
        lemma_direct_sources(direct, from + 1, next, source);
    }
}

proof fn lemma_push<A>(items: Seq<A>, added: A, item: A)
    ensures
        items.push(added).contains(item) <==> items.contains(item) || item == added,
{
    let more = items.push(added);
    if items.contains(item) {
        let i = choose|i: int| 0 <= i < items.len() && items[i] == item;
        assert(more[i] == item);
    }
    assert(more[items.len() as int] == added);
    if more.contains(item) {
        let i = choose|i: int| 0 <= i < more.len() && more[i] == item;
        if i < items.len() {
            assert(items[i] == item);
        }
    }
}

/// Maintenance draws on idle, on every direct position that can give, and on the liquidity adapter
/// where it is none of them, each up to what it gives.
pub proof fn maintenance_draws_on_what_can_give(
    idle: U256,
    direct: Seq<EndpointView>,
    liquidity: EndpointView,
    source: SourceView,
)
    ensures
        maintenance_sources(idle, direct, liquidity).contains(source) <==> {
            &&& source.1@ > 0
            &&& match source.0 {
                None => source.1 == idle,
                Some(endpoint) => source.1 == endpoint.deallocation_maximum && (direct.contains(
                    endpoint,
                ) || (endpoint == liquidity && forall|i: int|
                    0 <= i < direct.len() ==> (#[trigger] direct[i]).position
                        != liquidity.position)),
            }
        },
{
    let first: Seq<SourceView> = if idle@ == 0 {
        Seq::empty()
    } else {
        seq![(None, idle)]
    };
    let none: Option<EndpointView> = None;
    assert(first.contains(source) <==> source == (none, idle) && idle@ > 0) by {
        if idle@ > 0 {
            assert(first[0] == (none, idle));
        }
    }
    let listed = direct_sources_from(direct, 0, first);
    let last: SourceView = (Some(liquidity), liquidity.deallocation_maximum);
    lemma_direct_sources(direct, 0, first, source);
    lemma_push(listed, last, source);
    if let Some(endpoint) = source.0 {
        if direct.contains(endpoint) {
            let i = choose|i: int| 0 <= i < direct.len() && direct[i] == endpoint;
            assert(direct[i] == endpoint);
        }
        if exists|i: int|
            0 <= i < direct.len() && source == (
                Some(#[trigger] direct[i]),
                direct[i].deallocation_maximum,
            ) && source.1@ > 0 {
            let i = choose|i: int|
                0 <= i < direct.len() && source == (
                    Some(#[trigger] direct[i]),
                    direct[i].deallocation_maximum,
                ) && source.1@ > 0;
            assert(direct.contains(direct[i]));
        }
    }
}

proof fn lemma_direct_destinations(
    direct: Seq<EndpointView>,
    liquidity: EndpointView,
    from: int,
    done: Seq<EndpointView>,
    endpoint: EndpointView,
)
    requires
        0 <= from <= direct.len(),
    ensures
        direct_destinations_from(direct, liquidity, from, done).contains(endpoint)
            <==> done.contains(endpoint) || exists|i: int|
            from <= i < direct.len() && #[trigger] direct[i] == endpoint
                && endpoint.active_destination && endpoint.position != liquidity.position
                && endpoint.allocation_maximum@ > 0,
    decreases direct.len() - from,
{
    if from < direct.len() {
        let next = if direct[from].active_destination && direct[from].position
            != liquidity.position && direct[from].allocation_maximum@ != 0 {
            done.push(direct[from])
        } else {
            done
        };
        lemma_push(done, direct[from], endpoint);
        lemma_direct_destinations(direct, liquidity, from + 1, next, endpoint);
    }
}

/// Maintenance supplies the service endpoint and every other active direct position, wherever it can
/// take anything.
pub proof fn maintenance_supplies_what_can_take(
    direct: Seq<EndpointView>,
    liquidity: EndpointView,
    endpoint: EndpointView,
)
    ensures
        maintenance_destinations(direct, liquidity).contains(endpoint) <==> {
            &&& endpoint.allocation_maximum@ > 0
            &&& endpoint == liquidity || direct.contains(endpoint) && endpoint.active_destination
                && endpoint.position != liquidity.position
        },
{
    let first = if liquidity.allocation_maximum@ == 0 {
        Seq::empty()
    } else {
        seq![liquidity]
    };
    assert(first.contains(endpoint) <==> endpoint == liquidity && liquidity.allocation_maximum@
        > 0) by {
        if liquidity.allocation_maximum@ > 0 {
            assert(first[0] == liquidity);
        }
    }
    lemma_direct_destinations(direct, liquidity, 0, first, endpoint);
    if direct.contains(endpoint) {
        let i = choose|i: int| 0 <= i < direct.len() && direct[i] == endpoint;
        assert(direct[i] == endpoint);
    }
}

/// A token balance is registered once and never contradicted; consuming takes exactly the assets off
/// a balance that covers them, and crediting adds exactly the assets.
pub proof fn token_balances_are_exact(
    ledger: Seq<(TokenAddress, U256)>,
    token: TokenAddress,
    assets: U256,
    other: TokenAddress,
)
    requires
        ordered_entries(ledger),
    ensures
        ({
            let held = value_of(ledger, token);
            let entered = registered(ledger, token, assets);
            let spent = consumed(ledger, token, assets);
            let added = credited(ledger, token, assets);
            &&& entered is Ok <==> held is None || held == Some(assets)
            &&& entered is Ok ==> value_of(entered->Ok_0, token) == Some(assets)
            &&& entered is Ok && other != token ==> value_of(entered->Ok_0, other) == value_of(
                ledger,
                other,
            )
            &&& spent is Ok <==> held is Some && held->0@ >= assets@
            &&& spent is Ok ==> spent->Ok_0@ + assets@ == held->0@
            &&& added is Ok ==> held is Some && added->Ok_0@ == held->0@ + assets@
            &&& held is None ==> added is Err
        }),
{
    broadcast use group_u256;

    value_of_with_value(ledger, token, assets, token);
    value_of_with_value(ledger, token, assets, other);
}

} // verus!
