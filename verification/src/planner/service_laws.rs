//! What the service floors and the terminal valuation promise, stated on the simulated state.

use vstd::prelude::*;

use crate::collections::{ordered_entries, value_of, value_of_with_value, with_value};
use crate::config::{ValidatedPositionConfig, ValidatedVaultConfig};
use crate::domain::{
    market_params_encoding, AdapterAddress, CapRef, CapState, DirectMarketPositionState,
    ExactVaultSnapshot, MarketId, MarketMode, ParentAccounting, PositionKey, ProjectedMarketState,
    ProjectedVaultView, StoredMarketState, TokenAddress,
};
use crate::morpho::fees::accrue_market_spec;
use crate::morpho::laws::{caps_bound_allocations, division_rounds_down, is_floor, one_wad};
use crate::morpho::market_adapter::{allocate_spec, expected_adapter_assets_spec};
use crate::morpho::vault_v1_adapter::v1_allocate_spec;
use crate::morpho::vault_v2::accrue_parent_spec;
use crate::planner::simulator::{
    adapter_real_assets_spec, adapter_totals_from, bisection, caps_admit_from,
    direct_deposit_admitted, exit_coverage_spec, exit_executable, liquidity_deposit_admitted,
    liquidity_exit_spec, liquidity_path_from, maximum_deposit_spec, parent_total_assets_at,
    retained_active_from, service_constraints_spec, service_positions_from, service_step,
    terminal_adapters_from, terminal_assets_spec, terminal_markets_from, PositionSimulation,
    SimulationError, SimulationView,
};
use crate::primitives::{group_i256, group_u256, u256, word_modulus, I256, U256};

verus! {

/// Number of active configured positions among the first `count` that hold shares.
pub open spec fn retained_count(
    positions: Seq<ValidatedPositionConfig>,
    simulated: Seq<(PositionKey, PositionSimulation)>,
    count: int,
) -> int
    decreases count,
{
    if count <= 0 {
        0
    } else {
        let held = value_of(simulated, positions[count - 1].position_key);
        retained_count(positions, simulated, count - 1) + if positions[count - 1].mode
            == MarketMode::Active && held is Some && held->Some_0.internal_shares@ > 0 {
            1int
        } else {
            0
        }
    }
}

proof fn lemma_retained(
    positions: Seq<ValidatedPositionConfig>,
    simulated: Seq<(PositionKey, PositionSimulation)>,
    from: int,
)
    requires
        0 <= from <= positions.len(),
    ensures
        retained_count(positions, simulated, from) + retained_active_from(
            positions,
            simulated,
            from,
        ) == retained_count(positions, simulated, positions.len() as int),
    decreases positions.len() - from,
{
    if from < positions.len() {
        lemma_retained(positions, simulated, from + 1);
        assert(retained_count(positions, simulated, from + 1) == retained_count(
            positions,
            simulated,
            from,
        ) + retained_active_from(positions, simulated, from) - retained_active_from(
            positions,
            simulated,
            from + 1,
        ));
    }
}

/// Whether the position may be left entirely: it is only a source or disabled, or was dust and does
/// not serve the parent's liquidity, or is active, allowed to leave, and leaves enough active
/// positions behind.
pub open spec fn may_leave(
    state: SimulationView,
    snapshot: ExactVaultSnapshot,
    config: ValidatedVaultConfig,
    configured: ValidatedPositionConfig,
) -> bool {
    let initial = value_of(state.initial_position_assets, configured.position_key);
    let serves_liquidity = configured.adapter.0 == snapshot.parent.liquidity_adapter
        && market_params_encoding(configured.market_params) == snapshot.parent.liquidity_data@;
    ||| configured.mode == MarketMode::SourceOnly
    ||| configured.mode == MarketMode::Disabled
    ||| !serves_liquidity && initial is Some && initial->Some_0@
        <= configured.complete_exit_dust_threshold_assets@
    ||| configured.mode == MarketMode::Active && configured.allow_active_complete_exit
        && retained_count(config.positions@, state.positions, config.positions@.len() as int)
        >= config.minimum_active_positions_after_economic_exit
}

/// Whether a configured position keeps its floors: it is either empty or within its size limits, is
/// left entirely only where that is allowed and nothing stays recorded, and while it serves as a
/// source its market and token keep their liquidity.
pub open spec fn position_served(
    state: SimulationView,
    snapshot: ExactVaultSnapshot,
    config: ValidatedVaultConfig,
    configured: ValidatedPositionConfig,
) -> bool {
    let position = value_of(state.positions, configured.position_key)->Some_0;
    let previous = value_of(snapshot.positions@, configured.position_key)->Some_0;
    let market = value_of(state.markets, configured.market_id)->Some_0;
    let stored = value_of(snapshot.markets@, configured.market_id)->Some_0;
    let shared = value_of(
        state.shared_liquidity,
        TokenAddress(stored.params.loan_token),
    )->Some_0;
    let assets = position.expected_assets@;
    &&& assets == 0 || assets >= configured.minimum_position_assets@
    &&& assets <= configured.maximum_position_assets@
    &&& previous.internal_supply_shares@ > 0 && position.internal_shares@ == 0 ==> assets == 0
        && position.recorded_market_allocation@ == 0 && may_leave(
        state,
        snapshot,
        config,
        configured,
    )
    &&& position.internal_shares@ > 0 && (configured.mode == MarketMode::Active || configured.mode
        == MarketMode::SourceOnly) ==> {
        &&& market.accounting_liquidity@ >= configured.minimum_source_liquidity_assets@
        &&& market.utilization@ <= configured.maximum_source_utilization_wad@
        &&& shared@ >= config.minimum_source_token_liquidity_assets@
    }
}

/// Whether everything a configured position is judged by is known.
pub open spec fn position_known(
    state: SimulationView,
    snapshot: ExactVaultSnapshot,
    configured: ValidatedPositionConfig,
) -> bool {
    let stored = value_of(snapshot.markets@, configured.market_id);
    &&& value_of(state.positions, configured.position_key) is Some
    &&& value_of(snapshot.positions@, configured.position_key) is Some
    &&& value_of(state.markets, configured.market_id) is Some
    &&& stored is Some
    &&& value_of(state.shared_liquidity, TokenAddress(stored->Some_0.params.loan_token)) is Some
}

/// Assets of the first `count` configured positions, all of them or those at the parent's liquidity
/// adapter.
pub open spec fn served_assets(
    state: SimulationView,
    snapshot: ExactVaultSnapshot,
    positions: Seq<ValidatedPositionConfig>,
    liquidity_only: bool,
    count: int,
) -> int
    decreases count,
{
    if count <= 0 {
        0
    } else {
        let configured = positions[count - 1];
        served_assets(state, snapshot, positions, liquidity_only, count - 1)
            + if !liquidity_only || configured.adapter.0 == snapshot.parent.liquidity_adapter {
            value_of(state.positions, configured.position_key)->Some_0.expected_assets@ as int
        } else {
            0
        }
    }
}

proof fn lemma_service_step(
    state: SimulationView,
    snapshot: ExactVaultSnapshot,
    config: ValidatedVaultConfig,
    configured: ValidatedPositionConfig,
    group: U256,
    liquidity: U256,
)
    ensures
        ({
            let retained = retained_active_from(config.positions@, state.positions, 0);
            let step = service_step(
                state,
                snapshot,
                config,
                retained,
                configured,
                group,
                liquidity,
            );
            let assets = value_of(
                state.positions,
                configured.position_key,
            )->Some_0.expected_assets@;
            let serves = configured.adapter.0 == snapshot.parent.liquidity_adapter;
            &&& step is Ok ==> {
                &&& position_known(state, snapshot, configured)
                &&& position_served(state, snapshot, config, configured)
                &&& step->Ok_0.0@ == group@ + assets
                &&& step->Ok_0.1@ == liquidity@ + if serves {
                    assets
                } else {
                    0
                }
            }
            &&& step == Err::<(U256, U256), SimulationError>(SimulationError::ServiceConstraint)
                && position_known(state, snapshot, configured) ==> !position_served(
                state,
                snapshot,
                config,
                configured,
            )
        }),
{
    broadcast use group_u256;

    lemma_retained(config.positions@, state.positions, 0);
}

proof fn lemma_service_positions(
    state: SimulationView,
    snapshot: ExactVaultSnapshot,
    config: ValidatedVaultConfig,
    from: int,
    group: U256,
    liquidity: U256,
    base: int,
)
    requires
        0 <= from <= config.positions@.len(),
        group@ == served_assets(state, snapshot, config.positions@, false, from),
        liquidity@ == base + served_assets(state, snapshot, config.positions@, true, from),
    ensures
        ({
            let retained = retained_active_from(config.positions@, state.positions, 0);
            let all = service_positions_from(
                state,
                snapshot,
                config,
                retained,
                from,
                group,
                liquidity,
            );
            let count = config.positions@.len() as int;
            &&& all is Ok ==> {
                &&& forall|i: int|
                    from <= i < count ==> position_known(
                        state,
                        snapshot,
                        #[trigger] config.positions@[i],
                    ) && position_served(state, snapshot, config, config.positions@[i])
                &&& all->Ok_0.0@ == served_assets(
                    state,
                    snapshot,
                    config.positions@,
                    false,
                    count,
                )
                &&& all->Ok_0.1@ == base + served_assets(
                    state,
                    snapshot,
                    config.positions@,
                    true,
                    count,
                )
            }
            &&& all == Err::<(U256, U256), SimulationError>(SimulationError::ServiceConstraint)
                ==> exists|i: int|
                from <= i < count && !(position_known(
                    state,
                    snapshot,
                    #[trigger] config.positions@[i],
                ) && position_served(state, snapshot, config, config.positions@[i]))
        }),
    decreases config.positions@.len() - from,
{
    if from < config.positions@.len() {
        let retained = retained_active_from(config.positions@, state.positions, 0);
        let configured = config.positions@[from];
        lemma_service_step(state, snapshot, config, configured, group, liquidity);
        let step = service_step(
            state,
            snapshot,
            config,
            retained,
            configured,
            group,
            liquidity,
        );
        if step is Ok {
            assert(served_assets(state, snapshot, config.positions@, false, from + 1)
                == served_assets(state, snapshot, config.positions@, false, from) + value_of(
                state.positions,
                configured.position_key,
            )->Some_0.expected_assets@);
            lemma_service_positions(
                state,
                snapshot,
                config,
                from + 1,
                step->Ok_0.0,
                step->Ok_0.1,
                base,
            );
        }
    }
}

/// Whether every service floor holds of the state: every configured position keeps its own, the
/// rate group and the liquidity adapter hold enough, and deposits and exits stay served.
pub open spec fn floors_hold(
    state: SimulationView,
    snapshot: ExactVaultSnapshot,
    config: ValidatedVaultConfig,
) -> bool {
    let count = config.positions@.len() as int;
    let group = served_assets(state, snapshot, config.positions@, false, count);
    let adapter: int = if state.liquidity_adapter is Some {
        state.liquidity_adapter->Some_0.real_assets@ as int
    } else {
        0
    };
    let liquidity = adapter + served_assets(state, snapshot, config.positions@, true, count);
    let total = parent_total_assets_at(state, snapshot, state.projection_timestamp);
    let deposit = maximum_deposit_spec(state, snapshot, config, total->Ok_0);
    let exit = liquidity_exit_spec(state, snapshot, config);
    &&& forall|i: int|
        0 <= i < count ==> position_known(state, snapshot, #[trigger] config.positions@[i])
            && position_served(state, snapshot, config, config.positions@[i])
    &&& config.rate_group.minimum_assets@ <= group <= config.rate_group.maximum_assets@
    &&& liquidity >= config.minimum_liquidity_adapter_assets@
    &&& total is Ok && deposit is Ok && exit is Ok
    &&& deposit->Ok_0@ >= config.minimum_deposit_headroom_assets@
    &&& state.vault_idle@ + exit->Ok_0@ >= config.minimum_atomic_exit_coverage_assets@
}

/// A state passes the service check only where every floor holds, and is refused for a service
/// constraint only where one does not.
pub proof fn service_check_holds_every_floor(
    state: SimulationView,
    snapshot: ExactVaultSnapshot,
    config: ValidatedVaultConfig,
)
    ensures
        service_constraints_spec(state, snapshot, config) is Ok ==> floors_hold(
            state,
            snapshot,
            config,
        ),
        service_constraints_spec(state, snapshot, config) == Err::<(), SimulationError>(
            SimulationError::ServiceConstraint,
        ) ==> !floors_hold(state, snapshot, config),
{
    broadcast use group_u256;

    let adapter = if state.liquidity_adapter is Some {
        state.liquidity_adapter->Some_0.real_assets
    } else {
        u256(0)
    };
    lemma_service_positions(state, snapshot, config, 0, u256(0), adapter, adapter@ as int);
}

/// Bisection stays within its bounds, returns its floor or an amount that passes the test, and stops
/// only at its ceiling or below an amount that fails.
pub proof fn bisection_result_passes(
    low: nat,
    high: nat,
    test: spec_fn(U256) -> Result<bool, SimulationError>,
)
    requires
        low <= high < word_modulus(),
        bisection(low, high, test) is Ok,
    ensures
        ({
            let found = bisection(low, high, test)->Ok_0;
            &&& low <= found@ <= high
            &&& found@ > low ==> test(found) == Ok::<bool, SimulationError>(true)
            &&& found@ < high ==> test(u256(found@ + 1)) == Ok::<bool, SimulationError>(false)
        }),
    decreases high - low,
{
    broadcast use group_u256;

    if low < high {
        let midpoint = (low + (high - low + 1) / 2) as nat;
        assert(low < midpoint <= high);
        if test(u256(midpoint)) == Ok::<bool, SimulationError>(true) {
            bisection_result_passes(midpoint, high, test);
        } else {
            bisection_result_passes(low, (midpoint - 1) as nat, test);
        }
    }
}

/// Whether the caps of a position admit a change on top of what is recorded, at the given total.
pub open spec fn caps_take(
    ledger: Seq<(CapRef, U256)>,
    caps: Seq<(CapRef, CapState)>,
    reference: CapRef,
    change: int,
    total_assets: int,
) -> bool {
    let recorded = value_of(ledger, reference);
    let cap = value_of(caps, reference);
    let held = recorded->Some_0@ + change;
    &&& recorded is Some && cap is Some
    &&& 0 <= held <= cap->Some_0.absolute_cap@
    &&& 0 < cap->Some_0.absolute_cap@
    &&& cap->Some_0.relative_cap@ <= one_wad()
    &&& cap->Some_0.relative_cap@ == one_wad() || held * one_wad() <= total_assets
        * cap->Some_0.relative_cap@
}

proof fn lemma_caps_admit(
    ledger: Seq<(CapRef, U256)>,
    caps: Seq<(CapRef, CapState)>,
    affected: [CapRef; 3],
    change: I256,
    total_assets: U256,
    from: int,
)
    requires
        0 <= from <= 3,
        caps_admit_from(ledger, caps, affected, change, total_assets, from) == Ok::<
            bool,
            SimulationError,
        >(true),
    ensures
        forall|k: int|
            from <= k < 3 ==> caps_take(
                ledger,
                caps,
                #[trigger] affected@[k],
                change@,
                total_assets@ as int,
            ),
    decreases 3 - from,
{
    broadcast use group_u256, group_i256;

    if from < 3 {
        let cap = value_of(caps, affected@[from])->Some_0;
        let recorded = value_of(ledger, affected@[from])->Some_0;
        let held = crate::planner::simulator::delta_applied(recorded, change)->Ok_0;
        if cap.relative_cap@ < one_wad() {
            division_rounds_down(total_assets, cap.relative_cap, u256(one_wad() as nat));
            caps_bound_allocations(cap, total_assets, held);
        }
        lemma_caps_admit(ledger, caps, affected, change, total_assets, from + 1);
    }
}

/// The largest deposit stays within the search bound and is zero where a gate is set. Without a
/// liquidity adapter it is what 128-bit accounting leaves; through the liquidity-only adapter or a
/// direct liquidity position a nonzero deposit is one that the protocol executes, that keeps the
/// parent within 128 bits and that the caps take.
pub proof fn deposits_are_bounded_by_gates_and_caps(
    state: SimulationView,
    snapshot: ExactVaultSnapshot,
    config: ValidatedVaultConfig,
    parent_total_assets: U256,
)
    requires
        maximum_deposit_spec(state, snapshot, config, parent_total_assets) is Ok,
    ensures
        ({
            let deposit = maximum_deposit_spec(
                state,
                snapshot,
                config,
                parent_total_assets,
            )->Ok_0;
            let upper = config.deposit_headroom_search_upper_bound_assets@;
            let gated = snapshot.parent.receive_shares_gate@ != 0
                || snapshot.parent.send_assets_gate@ != 0;
            let total = parent_total_assets@ + deposit@;
            let room: int = if parent_total_assets@ <= u128::MAX {
                u128::MAX - parent_total_assets@
            } else {
                0
            };
            &&& deposit@ <= upper
            &&& gated ==> deposit@ == 0
            &&& !gated && snapshot.parent.liquidity_adapter@ == 0 ==> deposit@ == (if upper
                <= room {
                upper as int
            } else {
                room
            })
            &&& deposit@ > 0 ==> total <= u128::MAX
            &&& deposit@ > 0 && snapshot.parent.liquidity_adapter@ != 0 && state.liquidity_adapter
                is Some ==> {
                let liquidity = state.liquidity_adapter->Some_0;
                let answer = v1_allocate_spec(liquidity, deposit);
                let reference = CapRef { vault: config.address, id: liquidity.adapter_id };
                &&& deposit@ <= liquidity.max_deposit@
                &&& answer is Ok
                &&& caps_take(
                    state.cap_ledger,
                    snapshot.caps@,
                    reference,
                    answer->Ok_0.allocation_change@,
                    total as int,
                )
            }
            &&& deposit@ > 0 && snapshot.parent.liquidity_adapter@ != 0 && state.liquidity_adapter
                is None ==> {
                let configured = liquidity_path_from(snapshot, config.positions@, 0);
                let position = value_of(state.positions, configured->Some_0.position_key);
                let market = value_of(state.markets, position->Some_0.market);
                let stored = value_of(snapshot.markets@, position->Some_0.market);
                let answer = allocate_spec(
                    market->Some_0,
                    position->Some_0.internal_shares,
                    deposit,
                    position->Some_0.recorded_market_allocation,
                    stored->Some_0.fee,
                    position->Some_0.affected_caps,
                );
                &&& configured is Some && position is Some && market is Some && stored is Some
                &&& configured->Some_0.adapter.0 == snapshot.parent.liquidity_adapter
                &&& market_params_encoding(configured->Some_0.market_params)
                    == snapshot.parent.liquidity_data@
                &&& answer is Ok
                &&& forall|k: int|
                    0 <= k < 3 ==> caps_take(
                        state.cap_ledger,
                        snapshot.caps@,
                        #[trigger] position->Some_0.affected_caps@[k],
                        answer->Ok_0.allocation_change@,
                        total as int,
                    )
            }
        }),
{
    broadcast use group_u256, group_i256;

    let deposit = maximum_deposit_spec(state, snapshot, config, parent_total_assets)->Ok_0;
    let upper = config.deposit_headroom_search_upper_bound_assets;
    crate::primitives::lemma_u256_range(upper);
    let gated = upper@ == 0 || snapshot.parent.receive_shares_gate@ != 0
        || snapshot.parent.send_assets_gate@ != 0;
    if !gated && snapshot.parent.liquidity_adapter@ != 0 {
        if state.liquidity_adapter is Some {
            let liquidity = state.liquidity_adapter->Some_0;
            let reference = CapRef { vault: config.address, id: liquidity.adapter_id };
            let recorded = value_of(state.cap_ledger, reference)->Some_0;
            let cap = value_of(snapshot.caps@, reference)->Some_0;
            let test = |assets: U256|
                liquidity_deposit_admitted(parent_total_assets, liquidity, recorded, cap, assets);
            let most = crate::primitives::smaller(upper, liquidity.max_deposit);
            crate::primitives::lemma_u256_range(most);
            bisection_result_passes(0, most@, test);
            if deposit@ > 0 {
                assert(test(deposit) == Ok::<bool, SimulationError>(true));
                let total = u256(parent_total_assets@ + deposit@);
                let answer = v1_allocate_spec(liquidity, deposit)->Ok_0;
                let held = crate::planner::simulator::delta_applied(
                    recorded,
                    answer.allocation_change,
                )->Ok_0;
                if cap.relative_cap@ < one_wad() {
                    division_rounds_down(total, cap.relative_cap, u256(one_wad() as nat));
                    caps_bound_allocations(cap, total, held);
                }
            }
        } else {
            let configured = liquidity_path_from(snapshot, config.positions@, 0)->Some_0;
            lemma_liquidity_path(snapshot, config.positions@, 0);
            let position = value_of(state.positions, configured.position_key)->Some_0;
            let market = value_of(state.markets, position.market)->Some_0;
            let stored = value_of(snapshot.markets@, position.market)->Some_0;
            let test = |assets: U256|
                direct_deposit_admitted(
                    state.cap_ledger,
                    snapshot.caps@,
                    parent_total_assets,
                    market,
                    position,
                    stored.fee,
                    assets,
                );
            bisection_result_passes(0, upper@, test);
            if deposit@ > 0 {
                assert(test(deposit) == Ok::<bool, SimulationError>(true));
                let total = u256(parent_total_assets@ + deposit@);
                let answer = allocate_spec(
                    market,
                    position.internal_shares,
                    deposit,
                    position.recorded_market_allocation,
                    stored.fee,
                    position.affected_caps,
                )->Ok_0;
                lemma_caps_admit(
                    state.cap_ledger,
                    snapshot.caps@,
                    position.affected_caps,
                    answer.allocation_change,
                    total,
                    0,
                );
            }
        }
    }
}

proof fn lemma_liquidity_path(
    snapshot: ExactVaultSnapshot,
    positions: Seq<ValidatedPositionConfig>,
    from: int,
)
    requires
        0 <= from,
        liquidity_path_from(snapshot, positions, from) is Some,
    ensures
        ({
            let configured = liquidity_path_from(snapshot, positions, from)->Some_0;
            &&& configured.adapter.0 == snapshot.parent.liquidity_adapter
            &&& market_params_encoding(configured.market_params) == snapshot.parent.liquidity_data@
            &&& positions.contains(configured)
        }),
    decreases positions.len() - from,
{
    let configured = positions[from];
    if configured.adapter.0 == snapshot.parent.liquidity_adapter && market_params_encoding(
        configured.market_params,
    ) == snapshot.parent.liquidity_data@ {
        assert(positions.contains(configured));
    } else {
        lemma_liquidity_path(snapshot, positions, from + 1);
    }
}

/// What the liquidity path pays out at once: of the liquidity-only adapter the lesser of what it may
/// withdraw and what it is worth; of a direct position the largest withdrawal that its assets, its
/// market and the token balance cover and that the protocol executes; nothing where the parent has
/// no liquidity adapter.
pub proof fn exits_are_what_the_liquidity_path_pays(
    state: SimulationView,
    snapshot: ExactVaultSnapshot,
    config: ValidatedVaultConfig,
)
    requires
        liquidity_exit_spec(state, snapshot, config) is Ok,
    ensures
        ({
            let exit = liquidity_exit_spec(state, snapshot, config)->Ok_0;
            let coverage = exit_coverage_spec(state, snapshot, config);
            let liquidity = state.liquidity_adapter->Some_0;
            &&& coverage is Ok ==> coverage->Ok_0@ == state.vault_idle@ + exit@
            &&& state.liquidity_adapter is Some ==> {
                &&& exit@ <= liquidity.max_withdraw@
                &&& exit@ <= liquidity.real_assets@
                &&& exit@ == liquidity.max_withdraw@ || exit@ == liquidity.real_assets@
            }
            &&& state.liquidity_adapter is None && snapshot.parent.liquidity_adapter@ == 0
                ==> exit@ == 0
            &&& state.liquidity_adapter is None && snapshot.parent.liquidity_adapter@ != 0 ==> {
                let configured = liquidity_path_from(snapshot, config.positions@, 0)->Some_0;
                let position = value_of(state.positions, configured.position_key)->Some_0;
                let market = value_of(state.markets, position.market)->Some_0;
                let stored = value_of(snapshot.markets@, position.market)->Some_0;
                let balance = value_of(
                    state.shared_liquidity,
                    TokenAddress(stored.params.loan_token),
                )->Some_0;
                let more = exit@ + 1;
                &&& configured.adapter.0 == snapshot.parent.liquidity_adapter
                &&& exit@ <= position.expected_assets@
                &&& exit@ <= market.accounting_liquidity@
                &&& exit@ <= balance@
                &&& exit@ > 0 ==> exit_executable(market, position, balance, stored.fee, exit)
                &&& more <= position.expected_assets@ && more <= market.accounting_liquidity@
                    && more <= balance@ ==> !exit_executable(
                    market,
                    position,
                    balance,
                    stored.fee,
                    u256(more),
                )
            }
        }),
{
    broadcast use group_u256;

    if state.liquidity_adapter is None && snapshot.parent.liquidity_adapter@ != 0 {
        let configured = liquidity_path_from(snapshot, config.positions@, 0)->Some_0;
        lemma_liquidity_path(snapshot, config.positions@, 0);
        let position = value_of(state.positions, configured.position_key)->Some_0;
        let market = value_of(state.markets, position.market)->Some_0;
        let stored = value_of(snapshot.markets@, position.market)->Some_0;
        let balance = value_of(
            state.shared_liquidity,
            TokenAddress(stored.params.loan_token),
        )->Some_0;
        let most = crate::primitives::smaller(
            crate::primitives::smaller(position.expected_assets, market.accounting_liquidity),
            balance,
        );
        crate::primitives::lemma_u256_range(most);
        let test = |assets: U256|
            Ok::<bool, SimulationError>(
                exit_executable(market, position, balance, stored.fee, assets),
            );
        bisection_result_passes(0, most@, test);
        let exit = liquidity_exit_spec(state, snapshot, config)->Ok_0;
        assert(exit@ > 0 ==> test(exit) == Ok::<bool, SimulationError>(true));
        assert(exit@ < most@ ==> test(u256(exit@ + 1)) == Ok::<bool, SimulationError>(false));
    }
}

/// Assets of the first `count` current positions of one adapter.
pub open spec fn adapter_holdings(
    positions: Seq<(PositionKey, PositionSimulation)>,
    adapter: AdapterAddress,
    count: int,
) -> int
    decreases count,
{
    if count <= 0 {
        0
    } else {
        let position = positions[count - 1].1;
        adapter_holdings(positions, adapter, count - 1) + if position.current && position.adapter
            == adapter {
            position.expected_assets@ as int
        } else {
            0
        }
    }
}

proof fn lemma_adapter_totals(
    positions: Seq<(PositionKey, PositionSimulation)>,
    known: Seq<(PositionKey, DirectMarketPositionState)>,
    from: int,
    totals: Seq<(AdapterAddress, U256)>,
    adapter: AdapterAddress,
)
    requires
        0 <= from <= positions.len(),
        ordered_entries(totals),
        value_of(totals, adapter) is Some ==> value_of(totals, adapter)->Some_0@
            == adapter_holdings(positions, adapter, from),
        value_of(totals, adapter) is None ==> adapter_holdings(positions, adapter, from) == 0,
        adapter_totals_from(positions, known, from, totals) is Ok,
    ensures
        ({
            let all = adapter_totals_from(positions, known, from, totals)->Ok_0;
            let held = adapter_holdings(positions, adapter, positions.len() as int);
            &&& ordered_entries(all)
            &&& value_of(all, adapter) is Some ==> value_of(all, adapter)->Some_0@ == held
            &&& value_of(all, adapter) is None ==> held == 0
        }),
    decreases positions.len() - from,
{
    broadcast use group_u256;

    if from < positions.len() {
        let position = positions[from].1;
        if position.current {
            let current = match value_of(totals, position.adapter) {
                Some(value) => value,
                None => u256(0),
            };
            let total = crate::primitives::sum(current, position.expected_assets)->Some_0;
            value_of_with_value(totals, position.adapter, total, adapter);
            lemma_adapter_totals(
                positions,
                known,
                from + 1,
                with_value(totals, position.adapter, total),
                adapter,
            );
        } else {
            lemma_adapter_totals(positions, known, from + 1, totals, adapter);
        }
    }
}

/// Each adapter is credited with the expected assets of its current positions and no others; the
/// liquidity-only adapter with its own real assets.
pub proof fn adapters_are_worth_their_current_positions(
    state: SimulationView,
    snapshot: ExactVaultSnapshot,
    adapter: AdapterAddress,
)
    requires
        adapter_real_assets_spec(state, snapshot) is Ok,
    ensures
        ({
            let totals = adapter_real_assets_spec(state, snapshot)->Ok_0;
            let worth = value_of(totals, adapter);
            let liquidity = state.liquidity_adapter;
            let held = adapter_holdings(state.positions, adapter, state.positions.len() as int);
            &&& liquidity is Some && liquidity->Some_0.adapter == adapter ==> worth == Some(
                liquidity->Some_0.real_assets,
            )
            &&& liquidity is None || liquidity->Some_0.adapter != adapter ==> {
                &&& worth is Some ==> worth->Some_0@ == held
                &&& worth is None ==> held == 0
            }
        }),
{
    let none = Seq::<(AdapterAddress, U256)>::empty();
    assert(value_of(none, adapter) is None);
    lemma_adapter_totals(state.positions, snapshot.positions@, 0, none, adapter);
    if state.liquidity_adapter is Some {
        let liquidity = state.liquidity_adapter->Some_0;
        value_of_with_value(
            adapter_totals_from(state.positions, snapshot.positions@, 0, none)->Ok_0,
            liquidity.adapter,
            liquidity.real_assets,
            adapter,
        );
    }
}

/// The parent is worth what accrual makes of its idle assets and its adapters at the timestamp.
pub proof fn parent_total_accrues_idle_and_adapters(
    state: SimulationView,
    snapshot: ExactVaultSnapshot,
    timestamp: u64,
)
    requires
        parent_total_assets_at(state, snapshot, timestamp) is Ok,
    ensures
        ({
            let adapters = adapter_real_assets_spec(state, snapshot);
            let parent = snapshot.parent.accounting_spec();
            let accrued = accrue_parent_spec(
                ParentAccounting { idle_assets: state.vault_idle, ..parent },
                adapters->Ok_0,
                timestamp,
            );
            &&& adapters is Ok && accrued is Ok
            &&& parent_total_assets_at(state, snapshot, timestamp)->Ok_0
                == accrued->Ok_0.total_assets
        }),
{
}

proof fn lemma_terminal_markets(
    state: SimulationView,
    snapshot: ExactVaultSnapshot,
    head_timestamp: u64,
    horizon: u64,
    from: int,
    done: Seq<(MarketId, ProjectedMarketState)>,
    id: MarketId,
)
    requires
        0 <= from <= state.markets.len(),
        ordered_entries(state.markets),
        ordered_entries(done),
        forall|j: int|
            from <= j < state.markets.len() ==> value_of(
                done,
                (#[trigger] state.markets[j]).0,
            ) is None,
        terminal_markets_from(state, snapshot, head_timestamp, horizon, from, done) is Ok,
    ensures
        ({
            let all = terminal_markets_from(
                state,
                snapshot,
                head_timestamp,
                horizon,
                from,
                done,
            )->Ok_0;
            &&& ordered_entries(all)
            &&& value_of(done, id) is Some ==> value_of(all, id) == value_of(done, id)
            &&& value_of(all, id) is Some ==> value_of(done, id) is Some || exists|j: int|
                from <= j < state.markets.len() && (#[trigger] state.markets[j]).0 == id
            &&& forall|j: int|
                from <= j < state.markets.len() && (#[trigger] state.markets[j]).0 == id
                    ==> accrues_to_horizon(
                    state,
                    snapshot,
                    head_timestamp,
                    horizon,
                    id,
                    state.markets[j].1,
                    value_of(all, id),
                )
        }),
    decreases state.markets.len() - from,
{
    if from < state.markets.len() {
        let (at, market) = state.markets[from];
        let source = value_of(snapshot.markets@, at)->Some_0;
        let balance = value_of(
            state.shared_liquidity,
            TokenAddress(source.params.loan_token),
        )->Some_0;
        let accrued = accrue_market_spec(
            crate::planner::simulator::head_market(at, source, market, head_timestamp, balance),
            horizon,
            market.ending_rate_at_target,
        )->Ok_0.market;
        let next = with_value(done, at, accrued);
        value_of_with_value(done, at, accrued, id);
        value_of_with_value(done, at, accrued, at);
        assert forall|j: int| from + 1 <= j < state.markets.len() implies value_of(
            next,
            (#[trigger] state.markets[j]).0,
        ) is None by {
            assert(crate::collections::OrderedKey::rank(state.markets[from].0)
                < crate::collections::OrderedKey::rank(state.markets[j].0));
            value_of_with_value(done, at, accrued, state.markets[j].0);
        }
        lemma_terminal_markets(
            state,
            snapshot,
            head_timestamp,
            horizon,
            from + 1,
            next,
            id,
        );
        if value_of(done, id) is Some {
            assert(state.markets[from].0 != id);
        }
        assert forall|j: int|
            from <= j < state.markets.len() && (#[trigger] state.markets[j]).0
                == id implies accrues_to_horizon(
            state,
            snapshot,
            head_timestamp,
            horizon,
            id,
            state.markets[j].1,
            value_of(
                terminal_markets_from(
                    state,
                    snapshot,
                    head_timestamp,
                    horizon,
                    from,
                    done,
                )->Ok_0,
                id,
            ),
        ) by {
            if j > from {
                assert(crate::collections::OrderedKey::rank(state.markets[from].0)
                    < crate::collections::OrderedKey::rank(state.markets[j].0));
            }
        }
    }
}

/// Whether the terminal market is what accrual from the head to the horizon makes of the simulated
/// market with the stored fee and parameters.
pub open spec fn accrues_to_horizon(
    state: SimulationView,
    snapshot: ExactVaultSnapshot,
    head_timestamp: u64,
    horizon: u64,
    id: MarketId,
    market: ProjectedMarketState,
    terminal: Option<ProjectedMarketState>,
) -> bool {
    let source = value_of(snapshot.markets@, id);
    let balance = value_of(
        state.shared_liquidity,
        TokenAddress(source->Some_0.params.loan_token),
    );
    let accrued = accrue_market_spec(
        StoredMarketState {
            market_id: id,
            params: source->Some_0.params,
            total_supply_assets: market.total_supply_assets,
            total_supply_shares: market.total_supply_shares,
            total_borrow_assets: market.total_borrow_assets,
            total_borrow_shares: market.total_borrow_shares,
            last_update: head_timestamp,
            fee: source->Some_0.fee,
            irm: source->Some_0.irm,
            stored_rate_at_target: market.ending_rate_at_target,
            morpho_loan_token_balance: balance->Some_0,
        },
        horizon,
        market.ending_rate_at_target,
    );
    &&& source is Some && balance is Some && accrued is Ok
    &&& terminal == Some(accrued->Ok_0.market)
}

/// Assets the first `count` current positions of one adapter are worth in the given markets.
pub open spec fn terminal_holdings(
    positions: Seq<(PositionKey, PositionSimulation)>,
    markets: Seq<(MarketId, ProjectedMarketState)>,
    adapter: AdapterAddress,
    count: int,
) -> int
    decreases count,
{
    if count <= 0 {
        0
    } else {
        let position = positions[count - 1].1;
        terminal_holdings(positions, markets, adapter, count - 1) + if position.current
            && position.adapter == adapter {
            expected_adapter_assets_spec(
                position.internal_shares,
                value_of(markets, position.market)->Some_0,
            )->Ok_0@ as int
        } else {
            0
        }
    }
}

proof fn lemma_terminal_adapters(
    positions: Seq<(PositionKey, PositionSimulation)>,
    markets: Seq<(MarketId, ProjectedMarketState)>,
    from: int,
    totals: Seq<(AdapterAddress, U256)>,
    adapter: AdapterAddress,
)
    requires
        0 <= from <= positions.len(),
        ordered_entries(totals),
        value_of(totals, adapter) is Some ==> value_of(totals, adapter)->Some_0@
            == terminal_holdings(positions, markets, adapter, from),
        value_of(totals, adapter) is None ==> terminal_holdings(positions, markets, adapter, from)
            == 0,
        terminal_adapters_from(positions, markets, from, totals) is Ok,
    ensures
        ({
            let all = terminal_adapters_from(positions, markets, from, totals)->Ok_0;
            let held = terminal_holdings(positions, markets, adapter, positions.len() as int);
            &&& ordered_entries(all)
            &&& value_of(all, adapter) is Some ==> value_of(all, adapter)->Some_0@ == held
            &&& value_of(all, adapter) is None ==> held == 0
        }),
    decreases positions.len() - from,
{
    broadcast use group_u256;

    if from < positions.len() {
        let position = positions[from].1;
        if position.current {
            let market = value_of(markets, position.market)->Some_0;
            let assets = expected_adapter_assets_spec(position.internal_shares, market)->Ok_0;
            let current = match value_of(totals, position.adapter) {
                Some(value) => value,
                None => u256(0),
            };
            let total = crate::primitives::sum(current, assets)->Some_0;
            value_of_with_value(totals, position.adapter, total, adapter);
            lemma_terminal_adapters(
                positions,
                markets,
                from + 1,
                with_value(totals, position.adapter, total),
                adapter,
            );
        } else {
            lemma_terminal_adapters(positions, markets, from + 1, totals, adapter);
        }
    }
}

/// The value of the existing shares at the horizon: every market accrues from the head to the
/// horizon, every adapter is worth its current positions there, the parent accrues from the total it
/// was fixed or projected at, and the shares existing before the plan are valued at the resulting
/// share price, rounded down. A horizon before the head has no value.
pub proof fn terminal_value_is_the_accrued_share_price(
    state: SimulationView,
    snapshot: ExactVaultSnapshot,
    projection: ProjectedVaultView,
    horizon: u64,
) -> (w: (Seq<(MarketId, ProjectedMarketState)>, Seq<(AdapterAddress, U256)>))
    requires
        ordered_entries(state.markets),
        terminal_assets_spec(state, snapshot, projection, horizon) is Ok,
    ensures
        horizon >= projection.head.timestamp,
        ({
            let (markets, adapters) = w;
            let parent = snapshot.parent.accounting_spec();
            let accrued = accrue_parent_spec(
                ParentAccounting {
                    idle_assets: state.vault_idle,
                    stored_total_assets: if state.first_total_assets is Some {
                        state.first_total_assets->Some_0
                    } else {
                        projection.vault.parent_total_assets
                    },
                    total_supply: projection.vault.projected_total_supply,
                    last_update: projection.head.timestamp,
                    ..parent
                },
                adapters,
                horizon,
            );
            let value = terminal_assets_spec(state, snapshot, projection, horizon)->Ok_0@;
            &&& accrued is Ok
            &&& is_floor(
                value as int,
                snapshot.parent.total_supply@ * (accrued->Ok_0.total_assets@ + 1int),
                accrued->Ok_0.projected_total_supply@ + snapshot.parent.virtual_shares@ as int,
            )
            &&& forall|j: int|
                0 <= j < state.markets.len() ==> accrues_to_horizon(
                    state,
                    snapshot,
                    projection.head.timestamp,
                    horizon,
                    (#[trigger] state.markets[j]).0,
                    state.markets[j].1,
                    value_of(markets, state.markets[j].0),
                )
            &&& forall|adapter: AdapterAddress|
                ({
                    let worth = #[trigger] value_of(adapters, adapter);
                    let liquidity = state.liquidity_adapter;
                    let held = terminal_holdings(
                        state.positions,
                        markets,
                        adapter,
                        state.positions.len() as int,
                    );
                    &&& liquidity is Some && liquidity->Some_0.adapter == adapter ==> worth == Some(
                        liquidity->Some_0.real_assets,
                    )
                    &&& liquidity is None || liquidity->Some_0.adapter != adapter ==> {
                        &&& worth is Some ==> worth->Some_0@ == held
                        &&& worth is None ==> held == 0
                    }
                })
        }),
{
    broadcast use group_u256;

    let no_markets = Seq::<(MarketId, ProjectedMarketState)>::empty();
    let no_adapters = Seq::<(AdapterAddress, U256)>::empty();
    let head = projection.head.timestamp;
    let markets = terminal_markets_from(state, snapshot, head, horizon, 0, no_markets)->Ok_0;
    let totals = terminal_adapters_from(state.positions, markets, 0, no_adapters)->Ok_0;
    let adapters = match state.liquidity_adapter {
        Some(liquidity) => with_value(totals, liquidity.adapter, liquidity.real_assets),
        None => totals,
    };
    assert forall|id: MarketId| #[trigger] value_of(no_markets, id) is None by {}
    assert forall|id: AdapterAddress| #[trigger] value_of(no_adapters, id) is None by {}
    assert forall|j: int| 0 <= j < state.markets.len() implies accrues_to_horizon(
        state,
        snapshot,
        head,
        horizon,
        (#[trigger] state.markets[j]).0,
        state.markets[j].1,
        value_of(markets, state.markets[j].0),
    ) by {
        lemma_terminal_markets(
            state,
            snapshot,
            head,
            horizon,
            0,
            no_markets,
            state.markets[j].0,
        );
    }
    assert forall|adapter: AdapterAddress| true implies ({
        let worth = #[trigger] value_of(adapters, adapter);
        let liquidity = state.liquidity_adapter;
        let held = terminal_holdings(
            state.positions,
            markets,
            adapter,
            state.positions.len() as int,
        );
        &&& liquidity is Some && liquidity->Some_0.adapter == adapter ==> worth == Some(
            liquidity->Some_0.real_assets,
        )
        &&& liquidity is None || liquidity->Some_0.adapter != adapter ==> {
            &&& worth is Some ==> worth->Some_0@ == held
            &&& worth is None ==> held == 0
        }
    }) by {
        lemma_terminal_adapters(state.positions, markets, 0, no_adapters, adapter);
        if state.liquidity_adapter is Some {
            let liquidity = state.liquidity_adapter->Some_0;
            value_of_with_value(totals, liquidity.adapter, liquidity.real_assets, adapter);
        }
    }
    let parent = ParentAccounting {
        idle_assets: state.vault_idle,
        stored_total_assets: match state.first_total_assets {
            Some(value) => value,
            None => projection.vault.parent_total_assets,
        },
        total_supply: projection.vault.projected_total_supply,
        last_update: head,
        ..snapshot.parent.accounting_spec()
    };
    let accrued = accrue_parent_spec(parent, adapters, horizon)->Ok_0;
    let assets = u256((accrued.total_assets@ + 1) as nat);
    let supply = u256(
        (accrued.projected_total_supply@ + snapshot.parent.virtual_shares@) as nat,
    );
    division_rounds_down(snapshot.parent.total_supply, assets, supply);
    (markets, adapters)
}

} // verus!
