//! What an accepted simulated action promises, stated on the fields it reads and writes.

use vstd::pervasive::arbitrary;
use vstd::prelude::*;

use crate::collections::{
    entry_bound_from, lemma_entry_bound, lemma_entry_bound_unique, ordered_entries, value_of,
    value_of_with_value, with_key, with_value, OrderedKey,
};
use crate::config::{ValidatedPositionConfig, ValidatedVaultConfig};
use crate::domain::{
    market_params_encoding, ActionKind, ActionView, CapRef, CapState, DirectMarketPositionState,
    ExactVaultSnapshot, IdleLockSnapshot, MarketId, MarketMode, PositionKey, ProjectedVaultView,
    StoredMarketState, TokenAddress, VaultV1LiquidityAdapterState,
};
use crate::morpho::laws::{
    caps_bound_allocations, division_rounds_down, liquidity_deposit_is_exact,
    liquidity_withdrawal_is_exact, one_wad,
};
use crate::morpho::market_adapter::{allocate_spec, deallocate_spec};
use crate::morpho::vault_v1_adapter::{v1_allocate_spec, v1_deallocate_spec};
use crate::planner::liquidity::{consumed, credited, registered};
use crate::planner::simulator::{
    action_spec, actions_from, cap_charged, caps_charged_from, caps_released_from, configured_from,
    delta_applied, direct_entry_transition, direct_exit_transition, initial_position,
    initial_positions_from, initial_state, locks_sum_from, parent_total_assets_at,
    recorded_allocations_from, shared_balances_from, simulation_spec, PositionSimulation,
    SimulationError, SimulationView,
};
use crate::primitives::{group_i256, group_u256, sum, u256, I256, U256};

verus! {

/// Every map of the state holds its entries in key order.
pub open spec fn ordered_state(state: SimulationView) -> bool {
    &&& ordered_entries(state.markets)
    &&& ordered_entries(state.positions)
    &&& ordered_entries(state.cap_ledger)
    &&& ordered_entries(state.shared_liquidity)
}

/// Whether the action is addressed to the liquidity-only adapter.
pub open spec fn addresses_liquidity_adapter(
    config: ValidatedVaultConfig,
    action: ActionView,
) -> bool {
    config.liquidity_adapter is Some && config.liquidity_adapter->Some_0.position_key
        == action.position
}

/// Whether some configured position is the one the action names, acted on through its adapter with
/// its market parameters as data.
pub open spec fn names_configured_position(
    positions: Seq<ValidatedPositionConfig>,
    action: ActionView,
) -> bool {
    exists|i: int|
        0 <= i < positions.len() && (#[trigger] positions[i]).position_key == action.position
            && positions[i].adapter == action.adapter && action.data == market_params_encoding(
            positions[i].market_params,
        )
}

/// Whether the three caps are different caps.
pub open spec fn distinct_caps(affected: [CapRef; 3]) -> bool {
    affected@[0] != affected@[1] && affected@[0] != affected@[2] && affected@[1] != affected@[2]
}

/// Value lost between what went in and what is held afterwards.
pub open spec fn shortfall(held: nat, kept: nat) -> int {
    if held > kept {
        held - kept
    } else {
        0
    }
}

proof fn lemma_configured(positions: Seq<ValidatedPositionConfig>, key: PositionKey, from: int)
    requires
        0 <= from,
        configured_from(positions, key, from) is Some,
    ensures
        exists|i: int|
            from <= i < positions.len() && #[trigger] positions[i] == configured_from(
                positions,
                key,
                from,
            )->Some_0 && positions[i].position_key == key,
    decreases positions.len() - from,
{
    if positions[from].position_key == key {
        assert(positions[from] == configured_from(positions, key, from)->Some_0);
    } else {
        lemma_configured(positions, key, from + 1);
    }
}

proof fn lemma_caps_charged(
    recorded: Seq<(CapRef, U256)>,
    caps: Seq<(CapRef, CapState)>,
    affected: [CapRef; 3],
    change: I256,
    total_assets: U256,
    from: int,
    other: CapRef,
)
    requires
        0 <= from <= 3,
        ordered_entries(recorded),
        caps_charged_from(recorded, caps, affected, change, total_assets, from).1 is Ok,
    ensures
        ({
            let after = caps_charged_from(recorded, caps, affected, change, total_assets, from).0;
            &&& ordered_entries(after)
            &&& (forall|k: int| from <= k < 3 ==> other != #[trigger] affected@[k]) ==> value_of(
                after,
                other,
            ) == value_of(recorded, other)
            &&& distinct_caps(affected) ==> forall|k: int|
                from <= k < 3 ==> {
                    let before = value_of(recorded, #[trigger] affected@[k]);
                    let held = value_of(after, affected@[k]);
                    let cap = value_of(caps, affected@[k]);
                    &&& before is Some && held is Some && cap is Some
                    &&& held->Some_0@ == before->Some_0@ + change@
                    &&& 0 < cap->Some_0.absolute_cap@
                    &&& held->Some_0@ <= cap->Some_0.absolute_cap@
                    &&& cap->Some_0.relative_cap@ <= one_wad()
                    &&& cap->Some_0.relative_cap@ == one_wad() || held->Some_0@ * one_wad()
                        <= total_assets@ * cap->Some_0.relative_cap@
                }
        }),
    decreases 3 - from,
{
    broadcast use group_u256, group_i256;

    if from < 3 {
        let key = affected@[from];
        let held = cap_charged(
            recorded,
            caps,
            key,
            change,
            total_assets,
        )->Ok_0;
        let next = with_value(recorded, key, held);
        value_of_with_value(recorded, key, held, other);
        lemma_caps_charged(next, caps, affected, change, total_assets, from + 1, other);
        let cap = value_of(caps, key)->Some_0;
        if cap.relative_cap@ < one_wad() {
            division_rounds_down(total_assets, cap.relative_cap, u256(one_wad() as nat));
            caps_bound_allocations(cap, total_assets, held);
        }
        if distinct_caps(affected) {
            lemma_caps_charged(next, caps, affected, change, total_assets, from + 1, key);
            value_of_with_value(recorded, key, held, key);
            assert forall|k: int| from < k < 3 implies #[trigger] value_of(next, affected@[k])
                == value_of(recorded, affected@[k]) by {
                value_of_with_value(recorded, key, held, affected@[k]);
            }
        }
    }
}

proof fn lemma_caps_released(
    recorded: Seq<(CapRef, U256)>,
    affected: [CapRef; 3],
    change: I256,
    from: int,
    other: CapRef,
)
    requires
        0 <= from <= 3,
        ordered_entries(recorded),
        caps_released_from(recorded, affected, change, from).1 is Ok,
    ensures
        ({
            let after = caps_released_from(recorded, affected, change, from).0;
            &&& ordered_entries(after)
            &&& (forall|k: int| from <= k < 3 ==> other != #[trigger] affected@[k]) ==> value_of(
                after,
                other,
            ) == value_of(recorded, other)
            &&& distinct_caps(affected) ==> forall|k: int|
                from <= k < 3 ==> {
                    let before = value_of(recorded, #[trigger] affected@[k]);
                    let held = value_of(after, affected@[k]);
                    &&& before is Some && held is Some
                    &&& before->Some_0@ > 0
                    &&& held->Some_0@ == before->Some_0@ + change@
                }
        }),
    decreases 3 - from,
{
    broadcast use group_u256, group_i256;

    if from < 3 {
        let key = affected@[from];
        let held = delta_applied(
            value_of(recorded, key)->Some_0,
            change,
        )->Ok_0;
        let next = with_value(recorded, key, held);
        value_of_with_value(recorded, key, held, other);
        lemma_caps_released(next, affected, change, from + 1, other);
        if distinct_caps(affected) {
            lemma_caps_released(next, affected, change, from + 1, key);
            value_of_with_value(recorded, key, held, key);
            assert forall|k: int| from < k < 3 implies #[trigger] value_of(next, affected@[k])
                == value_of(recorded, affected@[k]) by {
                value_of_with_value(recorded, key, held, affected@[k]);
            }
        }
    }
}

/// An accepted supply into a direct position addresses a configured position in active mode whose
/// adapter is known, and spends no locked idle. It hands the position's market, shares and recorded
/// allocation to the protocol; the position, its market, its loan token and its three caps move by
/// what the protocol answers, and nothing else moves. Every cap it touches admits what it then
/// holds against the parent total fixed before the first supply.
pub proof fn direct_supply_needs_an_active_position(
    state: SimulationView,
    snapshot: ExactVaultSnapshot,
    config: ValidatedVaultConfig,
    timestamp: u64,
    action: ActionView,
)
    requires
        ordered_state(state),
        action.kind == ActionKind::Allocate,
        !addresses_liquidity_adapter(config, action),
        action_spec(state, snapshot, config, timestamp, action).1 is Ok,
    ensures
        ({
            let (next, outcome) = action_spec(state, snapshot, config, timestamp, action);
            let effect = outcome->Ok_0;
            let held = value_of(state.positions, action.position);
            let position = held->Some_0;
            let moved = value_of(next.positions, action.position)->Some_0;
            let market = value_of(state.markets, position.market);
            let stored = value_of(snapshot.markets@, position.market);
            let token = TokenAddress(stored->Some_0.params.loan_token);
            let answer = allocate_spec(
                market->Some_0,
                position.internal_shares,
                action.requested,
                position.recorded_market_allocation,
                stored->Some_0.fee,
                position.affected_caps,
            );
            let transition = answer->Ok_0;
            &&& ordered_state(next)
            &&& names_configured_position(config.positions@, action)
            &&& value_of(snapshot.adapters@, action.adapter) is Some
            &&& held is Some && market is Some && stored is Some && answer is Ok
            &&& position.mode == MarketMode::Active
            &&& 0 < action.requested@ <= state.vault_idle@ - state.locked_idle@
            &&& value_of(next.positions, action.position) is Some
            &&& moved.internal_shares == transition.internal_supply_shares
            &&& moved.expected_assets == transition.expected_assets
            &&& moved.recorded_market_allocation == transition.expected_assets
            &&& moved.current == (transition.internal_supply_shares@ != 0)
            &&& moved.mode == position.mode
            &&& moved.market == position.market
            &&& moved.adapter == position.adapter
            &&& moved.affected_caps == position.affected_caps
            &&& value_of(next.markets, position.market) == Some(transition.market)
            &&& value_of(state.shared_liquidity, token) is Some
            &&& value_of(next.shared_liquidity, token) is Some
            &&& value_of(next.shared_liquidity, token)->Some_0@ == value_of(
                state.shared_liquidity,
                token,
            )->Some_0@ + action.requested@
            &&& effect.changed_shares == transition.changed_shares
            &&& effect.expected_assets_after == transition.expected_assets
            &&& effect.allocation_change == transition.allocation_change
            &&& effect.positive_loss_assets@ == shortfall(
                position.expected_assets@ + action.requested@,
                transition.expected_assets@,
            )
            &&& next.liquidity_adapter == state.liquidity_adapter
            &&& next.first_total_assets is Some
            &&& state.first_total_assets is Some ==> next.first_total_assets
                == state.first_total_assets
            &&& state.first_total_assets is None ==> parent_total_assets_at(
                state,
                snapshot,
                timestamp,
            ) == Ok::<U256, SimulationError>(
                next.first_total_assets->Some_0,
            )
        }),
        forall|key: PositionKey|
            key != action.position ==> value_of(
                action_spec(state, snapshot, config, timestamp, action).0.positions,
                key,
            ) == #[trigger] value_of(state.positions, key),
        forall|key: MarketId|
            key != value_of(state.positions, action.position)->Some_0.market ==> value_of(
                action_spec(state, snapshot, config, timestamp, action).0.markets,
                key,
            ) == #[trigger] value_of(state.markets, key),
        forall|cap: CapRef|
            !value_of(state.positions, action.position)->Some_0.affected_caps@.contains(cap)
                ==> value_of(
                action_spec(state, snapshot, config, timestamp, action).0.cap_ledger,
                cap,
            ) == #[trigger] value_of(state.cap_ledger, cap),
        distinct_caps(value_of(state.positions, action.position)->Some_0.affected_caps)
            ==> forall|k: int|
            0 <= k < 3 ==> {
                let (next, outcome) = action_spec(state, snapshot, config, timestamp, action);
                let reference = #[trigger] value_of(
                    state.positions,
                    action.position,
                )->Some_0.affected_caps@[k];
                let before = value_of(state.cap_ledger, reference);
                let held = value_of(next.cap_ledger, reference);
                let cap = value_of(snapshot.caps@, reference);
                &&& before is Some && held is Some && cap is Some
                &&& held->Some_0@ == before->Some_0@ + outcome->Ok_0.allocation_change@
                &&& 0 < cap->Some_0.absolute_cap@
                &&& held->Some_0@ <= cap->Some_0.absolute_cap@
                &&& cap->Some_0.relative_cap@ <= one_wad()
                &&& cap->Some_0.relative_cap@ == one_wad() || held->Some_0@ * one_wad()
                    <= next.first_total_assets->Some_0@ * cap->Some_0.relative_cap@
            },
{
    broadcast use group_u256, group_i256;

    let (next, outcome) = action_spec(state, snapshot, config, timestamp, action);
    lemma_configured(config.positions@, action.position, 0);
    let position = value_of(state.positions, action.position)->Some_0;
    let transition = direct_entry_transition(state, snapshot, position, action.requested)->Ok_0.1;
    let token = TokenAddress(value_of(snapshot.markets@, position.market)->Some_0.params.loan_token);
    let total = next.first_total_assets->Some_0;
    let moved = value_of(next.positions, action.position)->Some_0;
    lemma_caps_charged(
        state.cap_ledger,
        snapshot.caps@,
        position.affected_caps,
        transition.allocation_change,
        total,
        0,
        position.affected_caps@[0],
    );
    assert forall|cap: CapRef| !position.affected_caps@.contains(cap) implies value_of(
        next.cap_ledger,
        cap,
    ) == #[trigger] value_of(state.cap_ledger, cap) by {
        lemma_caps_charged(
            state.cap_ledger,
            snapshot.caps@,
            position.affected_caps,
            transition.allocation_change,
            total,
            0,
            cap,
        );
    }
    let settled = PositionSimulation {
        internal_shares: transition.internal_supply_shares,
        current: transition.internal_supply_shares@ != 0,
        expected_assets: transition.expected_assets,
        recorded_market_allocation: transition.expected_assets,
        ..position
    };
    assert(next.positions == with_value(state.positions, action.position, settled));
    assert(next.markets == with_value(state.markets, position.market, transition.market));
    value_of_with_value(state.positions, action.position, settled, action.position);
    value_of_with_value(state.markets, position.market, transition.market, position.market);
    assert forall|key: PositionKey| key != action.position implies value_of(next.positions, key)
        == #[trigger] value_of(state.positions, key) by {
        value_of_with_value(state.positions, action.position, settled, key);
    }
    assert forall|key: MarketId| key != position.market implies value_of(
        next.markets,
        key,
    ) == #[trigger] value_of(state.markets, key) by {
        value_of_with_value(state.markets, position.market, transition.market, key);
    }
    let left = credited(
        state.shared_liquidity,
        token,
        action.requested,
    )->Ok_0;
    value_of_with_value(state.shared_liquidity, token, left, token);
}

/// An accepted withdrawal from a direct position addresses a configured position that is active,
/// source-only or disabled and whose adapter is known. It hands the position's market, shares,
/// recorded allocation and the shared token balance to the protocol; the position, its market, its
/// loan token and its three caps move by what the protocol answers, and nothing else moves. None of
/// the caps it touches was empty.
pub proof fn direct_withdrawal_needs_a_source_position(
    state: SimulationView,
    snapshot: ExactVaultSnapshot,
    config: ValidatedVaultConfig,
    timestamp: u64,
    action: ActionView,
)
    requires
        ordered_state(state),
        action.kind == ActionKind::Deallocate,
        !addresses_liquidity_adapter(config, action),
        action_spec(state, snapshot, config, timestamp, action).1 is Ok,
    ensures
        ({
            let (next, outcome) = action_spec(state, snapshot, config, timestamp, action);
            let effect = outcome->Ok_0;
            let held = value_of(state.positions, action.position);
            let position = held->Some_0;
            let moved = value_of(next.positions, action.position)->Some_0;
            let market = value_of(state.markets, position.market);
            let stored = value_of(snapshot.markets@, position.market);
            let token = TokenAddress(stored->Some_0.params.loan_token);
            let balance = value_of(state.shared_liquidity, token);
            let answer = deallocate_spec(
                market->Some_0,
                position.internal_shares,
                action.requested,
                position.recorded_market_allocation,
                balance->Some_0,
                stored->Some_0.fee,
                position.affected_caps,
            );
            let transition = answer->Ok_0;
            &&& ordered_state(next)
            &&& names_configured_position(config.positions@, action)
            &&& value_of(snapshot.adapters@, action.adapter) is Some
            &&& held is Some && market is Some && stored is Some && balance is Some && answer is Ok
            &&& position.mode == MarketMode::Active || position.mode == MarketMode::SourceOnly
                || position.mode == MarketMode::Disabled
            &&& 0 < action.requested@ <= balance->Some_0@
            &&& value_of(next.positions, action.position) is Some
            &&& moved.internal_shares == transition.internal_supply_shares
            &&& moved.expected_assets == transition.expected_assets
            &&& moved.recorded_market_allocation == transition.expected_assets
            &&& moved.current == (transition.internal_supply_shares@ != 0)
            &&& moved.mode == position.mode
            &&& moved.market == position.market
            &&& moved.adapter == position.adapter
            &&& moved.affected_caps == position.affected_caps
            &&& value_of(next.markets, position.market) == Some(transition.market)
            &&& value_of(next.shared_liquidity, token) is Some
            &&& value_of(next.shared_liquidity, token)->Some_0@ == balance->Some_0@
                - action.requested@
            &&& effect.changed_shares == transition.changed_shares
            &&& effect.expected_assets_after == transition.expected_assets
            &&& effect.allocation_change == transition.allocation_change
            &&& effect.positive_loss_assets@ == shortfall(
                position.expected_assets@,
                transition.expected_assets@ + action.requested@,
            )
            &&& next.liquidity_adapter == state.liquidity_adapter
            &&& next.first_total_assets == state.first_total_assets
        }),
        forall|key: PositionKey|
            key != action.position ==> value_of(
                action_spec(state, snapshot, config, timestamp, action).0.positions,
                key,
            ) == #[trigger] value_of(state.positions, key),
        forall|key: MarketId|
            key != value_of(state.positions, action.position)->Some_0.market ==> value_of(
                action_spec(state, snapshot, config, timestamp, action).0.markets,
                key,
            ) == #[trigger] value_of(state.markets, key),
        forall|cap: CapRef|
            !value_of(state.positions, action.position)->Some_0.affected_caps@.contains(cap)
                ==> value_of(
                action_spec(state, snapshot, config, timestamp, action).0.cap_ledger,
                cap,
            ) == #[trigger] value_of(state.cap_ledger, cap),
        distinct_caps(value_of(state.positions, action.position)->Some_0.affected_caps)
            ==> forall|k: int|
            0 <= k < 3 ==> {
                let (next, outcome) = action_spec(state, snapshot, config, timestamp, action);
                let reference = #[trigger] value_of(
                    state.positions,
                    action.position,
                )->Some_0.affected_caps@[k];
                let before = value_of(state.cap_ledger, reference);
                let held = value_of(next.cap_ledger, reference);
                &&& before is Some && held is Some
                &&& before->Some_0@ > 0
                &&& held->Some_0@ == before->Some_0@ + outcome->Ok_0.allocation_change@
            },
{
    broadcast use group_u256, group_i256;

    let (next, outcome) = action_spec(state, snapshot, config, timestamp, action);
    lemma_configured(config.positions@, action.position, 0);
    let position = value_of(state.positions, action.position)->Some_0;
    let transition = direct_exit_transition(state, snapshot, config, action)->Ok_0.2;
    let token = TokenAddress(value_of(snapshot.markets@, position.market)->Some_0.params.loan_token);
    lemma_caps_released(
        state.cap_ledger,
        position.affected_caps,
        transition.allocation_change,
        0,
        position.affected_caps@[0],
    );
    assert forall|cap: CapRef| !position.affected_caps@.contains(cap) implies value_of(
        next.cap_ledger,
        cap,
    ) == #[trigger] value_of(state.cap_ledger, cap) by {
        lemma_caps_released(
            state.cap_ledger,
            position.affected_caps,
            transition.allocation_change,
            0,
            cap,
        );
    }
    let settled = PositionSimulation {
        internal_shares: transition.internal_supply_shares,
        current: transition.internal_supply_shares@ != 0,
        expected_assets: transition.expected_assets,
        recorded_market_allocation: transition.expected_assets,
        ..position
    };
    assert(next.positions == with_value(state.positions, action.position, settled));
    assert(next.markets == with_value(state.markets, position.market, transition.market));
    value_of_with_value(state.positions, action.position, settled, action.position);
    value_of_with_value(state.markets, position.market, transition.market, position.market);
    assert forall|key: PositionKey| key != action.position implies value_of(next.positions, key)
        == #[trigger] value_of(state.positions, key) by {
        value_of_with_value(state.positions, action.position, settled, key);
    }
    assert forall|key: MarketId| key != position.market implies value_of(next.markets, key)
        == #[trigger] value_of(state.markets, key) by {
        value_of_with_value(state.markets, position.market, transition.market, key);
    }
    let left = consumed(state.shared_liquidity, token, action.requested)->Ok_0;
    value_of_with_value(state.shared_liquidity, token, left, token);
}

/// An accepted withdrawal through the liquidity-only adapter stays within its configured bound,
/// carries no data, and touches no direct position or market. The adapter, its one cap and the
/// vault asset move by what the protocol answers.
pub proof fn liquidity_withdrawal_moves_only_the_adapter(
    state: SimulationView,
    snapshot: ExactVaultSnapshot,
    config: ValidatedVaultConfig,
    timestamp: u64,
    action: ActionView,
)
    requires
        ordered_state(state),
        action.kind == ActionKind::Deallocate,
        addresses_liquidity_adapter(config, action),
        action_spec(state, snapshot, config, timestamp, action).1 is Ok,
    ensures
        ({
            let (next, outcome) = action_spec(state, snapshot, config, timestamp, action);
            let effect = outcome->Ok_0;
            let configured = config.liquidity_adapter->Some_0;
            let current = state.liquidity_adapter->Some_0;
            let after = next.liquidity_adapter->Some_0;
            let answer = v1_deallocate_spec(current, action.requested);
            let transition = answer->Ok_0;
            let token = TokenAddress(config.asset.0);
            let reference = CapRef { vault: config.address, id: current.adapter_id };
            let recorded = value_of(state.cap_ledger, reference);
            &&& ordered_state(next)
            &&& configured.address == action.adapter
            &&& action.data.len() == 0
            &&& 0 < action.requested@ <= configured.maximum_action_assets@
            &&& state.liquidity_adapter is Some && next.liquidity_adapter is Some
            &&& current.adapter == action.adapter
            &&& answer is Ok
            &&& after == (VaultV1LiquidityAdapterState {
                vault_total_assets: transition.vault_total_assets,
                vault_total_supply: transition.vault_total_supply,
                share_balance: transition.share_balance,
                real_assets: transition.real_assets,
                recorded_allocation: after.recorded_allocation,
                idle_market_total_supply_assets: transition.idle_market_total_supply_assets,
                idle_market_total_supply_shares: transition.idle_market_total_supply_shares,
                idle_market_supply_shares: transition.idle_market_supply_shares,
                max_withdraw: after.max_withdraw,
                ..current
            })
            &&& action.requested@ <= current.max_withdraw@
            &&& after.max_withdraw@ == current.max_withdraw@ - action.requested@
            &&& recorded is Some
            &&& after.recorded_allocation@ == recorded->Some_0@ + transition.allocation_change@
            &&& value_of(next.cap_ledger, reference) == Some(after.recorded_allocation)
            &&& value_of(state.shared_liquidity, token) is Some
            &&& value_of(next.shared_liquidity, token) is Some
            &&& value_of(next.shared_liquidity, token)->Some_0@ == value_of(
                state.shared_liquidity,
                token,
            )->Some_0@ - action.requested@
            &&& effect.changed_shares == transition.changed_morpho_shares
            &&& effect.expected_assets_after == transition.real_assets
            &&& effect.allocation_change == transition.allocation_change
            &&& effect.positive_loss_assets@ == shortfall(
                current.real_assets@,
                transition.real_assets@ + action.requested@,
            )
            &&& next.positions == state.positions
            &&& next.markets == state.markets
            &&& next.first_total_assets == state.first_total_assets
        }),
        forall|cap: CapRef|
            cap != (CapRef {
                vault: config.address,
                id: state.liquidity_adapter->Some_0.adapter_id,
            }) ==> value_of(
                action_spec(state, snapshot, config, timestamp, action).0.cap_ledger,
                cap,
            ) == #[trigger] value_of(state.cap_ledger, cap),
{
    broadcast use group_u256, group_i256;

    let (next, outcome) = action_spec(state, snapshot, config, timestamp, action);
    let current = state.liquidity_adapter->Some_0;
    let after = next.liquidity_adapter->Some_0;
    let token = TokenAddress(config.asset.0);
    let reference = CapRef { vault: config.address, id: current.adapter_id };
    let left = consumed(state.shared_liquidity, token, action.requested)->Ok_0;
    liquidity_withdrawal_is_exact(current, action.requested);
    value_of_with_value(state.shared_liquidity, token, left, token);
    value_of_with_value(state.cap_ledger, reference, after.recorded_allocation, reference);
    assert forall|cap: CapRef| cap != reference implies value_of(next.cap_ledger, cap)
        == #[trigger] value_of(state.cap_ledger, cap) by {
        value_of_with_value(state.cap_ledger, reference, after.recorded_allocation, cap);
    }
}

/// An accepted supply through the liquidity-only adapter stays within its configured bound and the
/// unlocked idle, carries no data, and touches no direct position or market. The adapter, its one
/// cap and the vault asset move by what the protocol answers, and the cap admits what it then
/// holds.
pub proof fn liquidity_supply_moves_only_the_adapter(
    state: SimulationView,
    snapshot: ExactVaultSnapshot,
    config: ValidatedVaultConfig,
    timestamp: u64,
    action: ActionView,
)
    requires
        ordered_state(state),
        action.kind == ActionKind::Allocate,
        addresses_liquidity_adapter(config, action),
        action_spec(state, snapshot, config, timestamp, action).1 is Ok,
    ensures
        ({
            let (next, outcome) = action_spec(state, snapshot, config, timestamp, action);
            let effect = outcome->Ok_0;
            let configured = config.liquidity_adapter->Some_0;
            let current = state.liquidity_adapter->Some_0;
            let after = next.liquidity_adapter->Some_0;
            let answer = v1_allocate_spec(current, action.requested);
            let transition = answer->Ok_0;
            let token = TokenAddress(config.asset.0);
            let reference = CapRef { vault: config.address, id: current.adapter_id };
            let recorded = value_of(state.cap_ledger, reference);
            let cap = value_of(snapshot.caps@, reference);
            &&& ordered_state(next)
            &&& configured.address == action.adapter
            &&& action.data.len() == 0
            &&& 0 < action.requested@ <= configured.maximum_action_assets@
            &&& action.requested@ <= state.vault_idle@ - state.locked_idle@
            &&& state.liquidity_adapter is Some && next.liquidity_adapter is Some
            &&& current.adapter == action.adapter
            &&& answer is Ok
            &&& after == (VaultV1LiquidityAdapterState {
                vault_total_assets: transition.vault_total_assets,
                vault_total_supply: transition.vault_total_supply,
                share_balance: transition.share_balance,
                real_assets: transition.real_assets,
                recorded_allocation: after.recorded_allocation,
                idle_market_total_supply_assets: transition.idle_market_total_supply_assets,
                idle_market_total_supply_shares: transition.idle_market_total_supply_shares,
                idle_market_supply_shares: transition.idle_market_supply_shares,
                max_deposit: after.max_deposit,
                max_withdraw: after.max_withdraw,
                ..current
            })
            &&& action.requested@ <= current.max_deposit@
            &&& after.max_deposit@ == current.max_deposit@ - action.requested@
            &&& after.max_withdraw@ == current.max_withdraw@ + action.requested@
            &&& recorded is Some && cap is Some
            &&& after.recorded_allocation@ == recorded->Some_0@ + transition.allocation_change@
            &&& value_of(next.cap_ledger, reference) == Some(after.recorded_allocation)
            &&& 0 < cap->Some_0.absolute_cap@
            &&& after.recorded_allocation@ <= cap->Some_0.absolute_cap@
            &&& cap->Some_0.relative_cap@ <= one_wad()
            &&& cap->Some_0.relative_cap@ == one_wad() || after.recorded_allocation@ * one_wad()
                <= next.first_total_assets->Some_0@ * cap->Some_0.relative_cap@
            &&& value_of(state.shared_liquidity, token) is Some
            &&& value_of(next.shared_liquidity, token) is Some
            &&& value_of(next.shared_liquidity, token)->Some_0@ == value_of(
                state.shared_liquidity,
                token,
            )->Some_0@ + action.requested@
            &&& effect.changed_shares == transition.changed_morpho_shares
            &&& effect.expected_assets_after == transition.real_assets
            &&& effect.allocation_change == transition.allocation_change
            &&& effect.positive_loss_assets@ == shortfall(
                current.real_assets@ + action.requested@,
                transition.real_assets@,
            )
            &&& next.positions == state.positions
            &&& next.markets == state.markets
            &&& next.first_total_assets is Some
            &&& state.first_total_assets is Some ==> next.first_total_assets
                == state.first_total_assets
            &&& state.first_total_assets is None ==> parent_total_assets_at(
                state,
                snapshot,
                timestamp,
            ) == Ok::<U256, SimulationError>(next.first_total_assets->Some_0)
        }),
        forall|cap: CapRef|
            cap != (CapRef {
                vault: config.address,
                id: state.liquidity_adapter->Some_0.adapter_id,
            }) ==> value_of(
                action_spec(state, snapshot, config, timestamp, action).0.cap_ledger,
                cap,
            ) == #[trigger] value_of(state.cap_ledger, cap),
{
    broadcast use group_u256, group_i256;

    let (next, outcome) = action_spec(state, snapshot, config, timestamp, action);
    let current = state.liquidity_adapter->Some_0;
    let after = next.liquidity_adapter->Some_0;
    let token = TokenAddress(config.asset.0);
    let reference = CapRef { vault: config.address, id: current.adapter_id };
    let left = credited(state.shared_liquidity, token, action.requested)->Ok_0;
    let cap = value_of(snapshot.caps@, reference)->Some_0;
    let total = next.first_total_assets->Some_0;
    liquidity_deposit_is_exact(current, action.requested);
    if cap.relative_cap@ < one_wad() {
        division_rounds_down(total, cap.relative_cap, u256(one_wad() as nat));
        caps_bound_allocations(cap, total, after.recorded_allocation);
    }
    value_of_with_value(state.shared_liquidity, token, left, token);
    value_of_with_value(state.cap_ledger, reference, after.recorded_allocation, reference);
    assert forall|other: CapRef| other != reference implies value_of(next.cap_ledger, other)
        == #[trigger] value_of(state.cap_ledger, other) by {
        value_of_with_value(state.cap_ledger, reference, after.recorded_allocation, other);
    }
}

proof fn lemma_entry_value<K: OrderedKey, V>(entries: Seq<(K, V)>, at: int)
    requires
        ordered_entries(entries),
        0 <= at < entries.len(),
    ensures
        value_of(entries, entries[at].0) == Some(entries[at].1),
{
    lemma_entry_bound_unique(entries, entries[at].0, at);
}

proof fn lemma_value_entry<K: OrderedKey, V>(entries: Seq<(K, V)>, key: K) -> (at: int)
    requires
        value_of(entries, key) is Some,
    ensures
        0 <= at < entries.len(),
        entries[at] == (key, value_of(entries, key)->Some_0),
{
    lemma_entry_bound(entries, key, 0);
    let at = entry_bound_from(entries, key, 0);
    K::rank_injective(entries[at].0, key);
    at
}

proof fn lemma_initial_positions(
    snapshot: ExactVaultSnapshot,
    projection: ProjectedVaultView,
    from: int,
    done: Seq<(PositionKey, PositionSimulation)>,
    key: PositionKey,
)
    requires
        0 <= from <= snapshot.positions@.len(),
        ordered_entries(snapshot.positions@),
        ordered_entries(done),
        forall|j: int|
            from <= j < snapshot.positions@.len() ==> value_of(
                done,
                (#[trigger] snapshot.positions@[j]).0,
            ) is None,
        initial_positions_from(snapshot, projection, from, done) is Ok,
    ensures
        ({
            let all = initial_positions_from(snapshot, projection, from, done)->Ok_0;
            &&& ordered_entries(all)
            &&& value_of(done, key) is Some ==> value_of(all, key) == value_of(done, key)
            &&& value_of(all, key) is Some ==> value_of(done, key) is Some || exists|j: int|
                from <= j < snapshot.positions@.len() && (#[trigger] snapshot.positions@[j]).0
                    == key && initial_position(snapshot, projection, key, snapshot.positions@[j].1)
                    == Ok::<PositionSimulation, SimulationError>(value_of(all, key)->Some_0)
            &&& forall|j: int|
                from <= j < snapshot.positions@.len() && (#[trigger] snapshot.positions@[j]).0
                    == key ==> value_of(all, key) is Some
        }),
    decreases snapshot.positions@.len() - from,
{
    if from < snapshot.positions@.len() {
        let (at, position) = snapshot.positions@[from];
        let simulated = initial_position(snapshot, projection, at, position)->Ok_0;
        let next = with_value(done, at, simulated);
        value_of_with_value(done, at, simulated, key);
        assert forall|j: int| from + 1 <= j < snapshot.positions@.len() implies value_of(
            next,
            (#[trigger] snapshot.positions@[j]).0,
        ) is None by {
            assert(snapshot.positions@[from].0.rank() < snapshot.positions@[j].0.rank());
            value_of_with_value(done, at, simulated, snapshot.positions@[j].0);
        }
        lemma_initial_positions(snapshot, projection, from + 1, next, key);
        if value_of(done, key) is Some {
            assert(snapshot.positions@[from].0 != key);
        }
    }
}

proof fn lemma_recorded_allocations(
    caps: Seq<(CapRef, CapState)>,
    from: int,
    done: Seq<(CapRef, U256)>,
    key: CapRef,
)
    requires
        0 <= from <= caps.len(),
        ordered_entries(caps),
        ordered_entries(done),
        forall|j: int| from <= j < caps.len() ==> value_of(done, (#[trigger] caps[j]).0) is None,
    ensures
        ({
            let all = recorded_allocations_from(caps, from, done);
            &&& ordered_entries(all)
            &&& value_of(done, key) is Some ==> value_of(all, key) == value_of(done, key)
            &&& value_of(all, key) is Some ==> value_of(done, key) is Some || exists|j: int|
                from <= j < caps.len() && (#[trigger] caps[j]).0 == key
            &&& forall|j: int|
                from <= j < caps.len() && (#[trigger] caps[j]).0 == key ==> value_of(all, key)
                    == Some(caps[j].1.recorded_allocation)
        }),
    decreases caps.len() - from,
{
    if from < caps.len() {
        let at = caps[from].0;
        let recorded = caps[from].1.recorded_allocation;
        let next = with_value(done, at, recorded);
        value_of_with_value(done, at, recorded, key);
        value_of_with_value(done, at, recorded, at);
        assert forall|j: int| from + 1 <= j < caps.len() implies value_of(
            next,
            (#[trigger] caps[j]).0,
        ) is None by {
            assert(caps[from].0.rank() < caps[j].0.rank());
            value_of_with_value(done, at, recorded, caps[j].0);
        }
        lemma_recorded_allocations(caps, from + 1, next, key);
        if value_of(done, key) is Some {
            assert(caps[from].0 != key);
        }
        assert forall|j: int|
            from <= j < caps.len() && (#[trigger] caps[j]).0 == key implies value_of(
            recorded_allocations_from(caps, from, done),
            key,
        ) == Some(caps[j].1.recorded_allocation) by {
            if j > from {
                assert(caps[from].0.rank() < caps[j].0.rank());
            }
        }
    }
}

proof fn lemma_shared_balances(
    markets: Seq<(MarketId, StoredMarketState)>,
    from: int,
    done: Seq<(TokenAddress, U256)>,
    token: TokenAddress,
)
    requires
        0 <= from <= markets.len(),
        ordered_entries(done),
        shared_balances_from(markets, from, done) is Ok,
    ensures
        ({
            let all = shared_balances_from(markets, from, done)->Ok_0;
            &&& ordered_entries(all)
            &&& value_of(done, token) is Some ==> value_of(all, token) == value_of(done, token)
            &&& value_of(all, token) is Some ==> value_of(done, token) is Some || exists|j: int|
                from <= j < markets.len() && TokenAddress(
                    (#[trigger] markets[j]).1.params.loan_token,
                ) == token
            &&& forall|j: int|
                from <= j < markets.len() && TokenAddress(
                    (#[trigger] markets[j]).1.params.loan_token,
                ) == token ==> value_of(all, token) == Some(
                    markets[j].1.morpho_loan_token_balance,
                )
        }),
    decreases markets.len() - from,
{
    if from < markets.len() {
        let at = TokenAddress(markets[from].1.params.loan_token);
        let balance = markets[from].1.morpho_loan_token_balance;
        let next = registered(done, at, balance)->Ok_0;
        value_of_with_value(done, at, balance, token);
        value_of_with_value(done, at, balance, at);
        lemma_shared_balances(markets, from + 1, next, token);
    }
}

/// Sum of the remaining assets of the first `count` locks.
pub open spec fn locked_sum(locks: Seq<IdleLockSnapshot>, count: int) -> int
    decreases count,
{
    if count <= 0 {
        0
    } else {
        locked_sum(locks, count - 1) + locks[count - 1].remaining_assets@
    }
}

/// Adding up the remaining locked assets gives their plain sum.
pub proof fn lemma_locked_sum(locks: Seq<IdleLockSnapshot>, from: int, total: U256)
    requires
        0 <= from <= locks.len(),
        total@ == locked_sum(locks, from),
        locks_sum_from(locks, from, total) is Some,
    ensures
        locks_sum_from(locks, from, total)->Some_0@ == locked_sum(locks, locks.len() as int),
    decreases locks.len() - from,
{
    broadcast use group_u256;

    if from < locks.len() {
        let next = sum(total, locks[from].remaining_assets)->Some_0;
        lemma_locked_sum(locks, from + 1, next);
    }
}

/// A simulation starts from what the snapshot and its projection hold: verified locks that idle
/// covers, the recorded allocation of every cap, the token balance of every market, and every
/// position with its own mode, caps, shares and recorded allocation and its projected assets.
pub proof fn simulation_starts_from_the_snapshot(
    snapshot: ExactVaultSnapshot,
    projection: ProjectedVaultView,
)
    requires
        ordered_entries(snapshot.positions@),
        ordered_entries(snapshot.caps@),
        initial_state(snapshot, projection) is Ok,
    ensures
        ({
            let state = initial_state(snapshot, projection)->Ok_0;
            &&& ordered_entries(projection.markets@) ==> ordered_state(state)
            &&& snapshot.idle_locks.verified
            &&& state.vault_idle == snapshot.parent.idle_assets
            &&& state.locked_idle@ == locked_sum(
                snapshot.idle_locks.locks@,
                snapshot.idle_locks.locks@.len() as int,
            )
            &&& state.locked_idle@ <= state.vault_idle@
            &&& state.markets == projection.markets@
            &&& state.liquidity_adapter == snapshot.liquidity_adapter
            &&& state.projection_timestamp == projection.head.timestamp
            &&& state.initial_position_assets == projection.vault.position_expected_assets@
            &&& state.first_total_assets is None
            &&& state.actions.len() == 0
            &&& state.immediate_loss_assets@ == 0
        }),
        forall|key: PositionKey|
            #![trigger value_of(initial_state(snapshot, projection)->Ok_0.positions, key)]
            ({
                let state = initial_state(snapshot, projection)->Ok_0;
                let simulated = value_of(state.positions, key);
                let known = value_of(snapshot.positions@, key);
                &&& simulated is Some <==> known is Some
                &&& known is Some ==> {
                    let adapter = value_of(snapshot.adapters@, known->Some_0.adapter);
                    let expected = value_of(projection.vault.position_expected_assets@, key);
                    &&& adapter is Some
                    &&& expected is Some
                    &&& simulated->Some_0.mode == known->Some_0.mode
                    &&& simulated->Some_0.adapter == known->Some_0.adapter
                    &&& simulated->Some_0.market == known->Some_0.market_id
                    &&& simulated->Some_0.affected_caps == known->Some_0.affected_caps
                    &&& simulated->Some_0.internal_shares == known->Some_0.internal_supply_shares
                    &&& simulated->Some_0.recorded_market_allocation
                        == known->Some_0.parent_recorded_market_allocation
                    &&& simulated->Some_0.expected_assets == expected->Some_0
                    &&& simulated->Some_0.current
                        == adapter->Some_0.current_market_ids@.contains(known->Some_0.market_id)
                }
            }),
        forall|cap: CapRef|
            #[trigger] value_of(initial_state(snapshot, projection)->Ok_0.cap_ledger, cap) == (
            match value_of(snapshot.caps@, cap) {
                Some(known) => Some(known.recorded_allocation),
                None => None,
            }),
        forall|j: int|
            0 <= j < snapshot.markets@.len() ==> value_of(
                initial_state(snapshot, projection)->Ok_0.shared_liquidity,
                TokenAddress((#[trigger] snapshot.markets@[j]).1.params.loan_token),
            ) == Some(snapshot.markets@[j].1.morpho_loan_token_balance),
{
    broadcast use group_u256;

    let state = initial_state(snapshot, projection)->Ok_0;
    let no_positions = Seq::<(PositionKey, PositionSimulation)>::empty();
    let no_caps = Seq::<(CapRef, U256)>::empty();
    let no_tokens = Seq::<(TokenAddress, U256)>::empty();
    lemma_locked_sum(snapshot.idle_locks.locks@, 0, u256(0));
    assert forall|key: PositionKey| #[trigger] value_of(no_positions, key) is None by {}
    assert forall|key: CapRef| #[trigger] value_of(no_caps, key) is None by {}
    assert forall|key: TokenAddress| #[trigger] value_of(no_tokens, key) is None by {}
    assert forall|key: PositionKey| true implies ({
        let simulated = #[trigger] value_of(state.positions, key);
        let known = value_of(snapshot.positions@, key);
        &&& simulated is Some <==> known is Some
        &&& known is Some ==> initial_position(snapshot, projection, key, known->Some_0) == Ok::<
            PositionSimulation,
            SimulationError,
        >(simulated->Some_0)
    }) by {
        lemma_initial_positions(snapshot, projection, 0, no_positions, key);
        let simulated = value_of(state.positions, key);
        let known = value_of(snapshot.positions@, key);
        if known is Some {
            let at = lemma_value_entry(snapshot.positions@, key);
            assert(snapshot.positions@[at].0 == key);
        }
        if simulated is Some {
            let j = choose|j: int|
                0 <= j < snapshot.positions@.len() && (#[trigger] snapshot.positions@[j]).0 == key
                    && initial_position(snapshot, projection, key, snapshot.positions@[j].1)
                    == Ok::<PositionSimulation, SimulationError>(simulated->Some_0);
            lemma_entry_value(snapshot.positions@, j);
        }
    }
    assert forall|cap: CapRef| true implies #[trigger] value_of(state.cap_ledger, cap) == (
    match value_of(snapshot.caps@, cap) {
        Some(known) => Some(known.recorded_allocation),
        None => None,
    }) by {
        lemma_recorded_allocations(snapshot.caps@, 0, no_caps, cap);
        if value_of(snapshot.caps@, cap) is Some {
            let at = lemma_value_entry(snapshot.caps@, cap);
            assert(snapshot.caps@[at].0 == cap);
        }
        if value_of(state.cap_ledger, cap) is Some {
            let j = choose|j: int|
                0 <= j < snapshot.caps@.len() && (#[trigger] snapshot.caps@[j]).0 == cap;
            lemma_entry_value(snapshot.caps@, j);
        }
    }
    assert forall|j: int| 0 <= j < snapshot.markets@.len() implies value_of(
        state.shared_liquidity,
        TokenAddress((#[trigger] snapshot.markets@[j]).1.params.loan_token),
    ) == Some(snapshot.markets@[j].1.morpho_loan_token_balance) by {
        lemma_shared_balances(
            snapshot.markets@,
            0,
            no_tokens,
            TokenAddress(snapshot.markets@[j].1.params.loan_token),
        );
    }
    lemma_shared_balances(snapshot.markets@, 0, no_tokens, arbitrary());
    lemma_initial_positions(snapshot, projection, 0, no_positions, arbitrary());
    lemma_recorded_allocations(snapshot.caps@, 0, no_caps, arbitrary());
}

/// Every simulated position is a position of the snapshot with the same mode, adapter, market and
/// caps.
pub open spec fn keeps_identities(
    positions: Seq<(PositionKey, PositionSimulation)>,
    known: Seq<(PositionKey, DirectMarketPositionState)>,
) -> bool {
    forall|key: PositionKey|
        (#[trigger] value_of(positions, key)) is Some ==> {
            let simulated = value_of(positions, key)->Some_0;
            let original = value_of(known, key);
            &&& original is Some
            &&& simulated.mode == original->Some_0.mode
            &&& simulated.adapter == original->Some_0.adapter
            &&& simulated.market == original->Some_0.market_id
            &&& simulated.affected_caps == original->Some_0.affected_caps
        }
}

/// Whether the snapshot lets the action touch what it addresses: a supply needs an active position,
/// a withdrawal one that is active, source-only or disabled, and the liquidity-only adapter takes
/// no data and no more than its configured bound.
pub open spec fn permitted(
    snapshot: ExactVaultSnapshot,
    config: ValidatedVaultConfig,
    action: ActionView,
) -> bool {
    if addresses_liquidity_adapter(config, action) {
        let configured = config.liquidity_adapter->Some_0;
        &&& configured.address == action.adapter
        &&& action.data.len() == 0
        &&& action.requested@ <= configured.maximum_action_assets@
    } else {
        let position = value_of(snapshot.positions@, action.position);
        &&& names_configured_position(config.positions@, action)
        &&& position is Some
        &&& action.kind == ActionKind::Allocate ==> position->Some_0.mode == MarketMode::Active
        &&& action.kind == ActionKind::Deallocate ==> position->Some_0.mode == MarketMode::Active
            || position->Some_0.mode == MarketMode::SourceOnly || position->Some_0.mode
            == MarketMode::Disabled
    }
}

proof fn lemma_sequence_permitted(
    state: SimulationView,
    snapshot: ExactVaultSnapshot,
    config: ValidatedVaultConfig,
    timestamp: u64,
    actions: Seq<ActionView>,
    from: int,
    allocating: bool,
    touched: Seq<PositionKey>,
)
    requires
        0 <= from <= actions.len(),
        ordered_state(state),
        keeps_identities(state.positions, snapshot.positions@),
        actions_from(state, snapshot, config, timestamp, actions, from, allocating, touched) is Ok,
    ensures
        ({
            let last = actions_from(
                state,
                snapshot,
                config,
                timestamp,
                actions,
                from,
                allocating,
                touched,
            )->Ok_0;
            &&& ordered_state(last)
            &&& keeps_identities(last.positions, snapshot.positions@)
        }),
        forall|i: int|
            from <= i < actions.len() ==> permitted(snapshot, config, #[trigger] actions[i]),
    decreases actions.len() - from,
{
    if from < actions.len() {
        let action = actions[from];
        let next = action_spec(state, snapshot, config, timestamp, action).0;
        if addresses_liquidity_adapter(config, action) {
            if action.kind == ActionKind::Allocate {
                liquidity_supply_moves_only_the_adapter(state, snapshot, config, timestamp, action);
            } else {
                liquidity_withdrawal_moves_only_the_adapter(
                    state,
                    snapshot,
                    config,
                    timestamp,
                    action,
                );
            }
        } else {
            if action.kind == ActionKind::Allocate {
                direct_supply_needs_an_active_position(state, snapshot, config, timestamp, action);
            } else {
                direct_withdrawal_needs_a_source_position(
                    state,
                    snapshot,
                    config,
                    timestamp,
                    action,
                );
            }
            assert(keeps_identities(next.positions, snapshot.positions@)) by {
                assert(value_of(state.positions, action.position) is Some);
                assert forall|key: PositionKey|
                    (#[trigger] value_of(next.positions, key)) is Some implies ({
                    let simulated = value_of(next.positions, key)->Some_0;
                    let original = value_of(snapshot.positions@, key);
                    &&& original is Some
                    &&& simulated.mode == original->Some_0.mode
                    &&& simulated.adapter == original->Some_0.adapter
                    &&& simulated.market == original->Some_0.market_id
                    &&& simulated.affected_caps == original->Some_0.affected_caps
                }) by {
                    let before = value_of(state.positions, key);
                }
            }
        }
        lemma_sequence_permitted(
            next,
            snapshot,
            config,
            timestamp,
            actions,
            from + 1,
            allocating || action.kind == ActionKind::Allocate,
            with_key(touched, action.position),
        );
    }
}

/// An accepted action sequence touches only what the snapshot permits: each supply to a direct
/// position addresses one that is active, each withdrawal one that is active, source-only or
/// disabled, and each use of the liquidity-only adapter stays within its bound. No action changes a
/// position's mode, adapter, market or caps.
pub proof fn accepted_sequences_respect_position_modes(
    snapshot: ExactVaultSnapshot,
    projection: ProjectedVaultView,
    config: ValidatedVaultConfig,
    actions: Seq<ActionView>,
)
    requires
        ordered_entries(snapshot.positions@),
        ordered_entries(snapshot.caps@),
        ordered_entries(projection.markets@),
        simulation_spec(snapshot, projection, config, actions) is Ok,
    ensures
        forall|i: int|
            0 <= i < actions.len() && (#[trigger] actions[i]).kind == ActionKind::Allocate
                && !addresses_liquidity_adapter(config, actions[i]) ==> value_of(
                snapshot.positions@,
                actions[i].position,
            ) is Some && value_of(snapshot.positions@, actions[i].position)->Some_0.mode
                == MarketMode::Active,
        forall|i: int|
            0 <= i < actions.len() ==> permitted(snapshot, config, #[trigger] actions[i]),
        keeps_identities(
            simulation_spec(snapshot, projection, config, actions)->Ok_0.positions,
            snapshot.positions@,
        ),
{
    simulation_starts_from_the_snapshot(snapshot, projection);
    let state = initial_state(snapshot, projection)->Ok_0;
    lemma_sequence_permitted(
        state,
        snapshot,
        config,
        projection.head.timestamp,
        actions,
        0,
        false,
        Seq::empty(),
    );
}

} // verus!
