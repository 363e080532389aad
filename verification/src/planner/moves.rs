//! Building blocks shared by the bounded plan searches.

use vstd::prelude::*;

use crate::config::{ValidatedPositionConfig, ValidatedVaultConfig};
use crate::domain::{
    actions_view, encode_adapter_data, market_params_encoding, ActionKind, ActionView,
    ExactVaultSnapshot, ProjectedVaultView, V2Action,
};
use crate::planner::candidates::{
    append_bytes, build_candidate_lattice, lattice_amounts, lattice_hash,
};
use crate::planner::certificate::RejectionReason;
use crate::planner::distributions::rows_view;
use crate::planner::simulator::{
    no_plan_terminal_existing_shareholder_assets, no_plan_terminal_spec, terminal_assets_spec,
    SimulationState, SimulationView,
};
use crate::primitives::{
    big_endian, group_i256, group_u256, saturating_difference, signed_difference, signed_of,
    smaller, sum, u256, word_modulus, I256, U256,
};

verus! {

/// A position and the largest amount one action may move there.
pub type Endpoint = (ValidatedPositionConfig, U256);

/// Action on one endpoint.
pub open spec fn endpoint_action(
    position: ValidatedPositionConfig,
    kind: ActionKind,
    amount: U256,
) -> ActionView {
    ActionView {
        kind,
        position: position.position_key,
        adapter: position.adapter,
        data: market_params_encoding(position.market_params),
        requested: amount,
    }
}

/// Actions for the nonzero amounts from index `from` on, appended to `done`.
pub open spec fn endpoint_actions_from(
    endpoints: Seq<Endpoint>,
    amounts: Seq<U256>,
    kind: ActionKind,
    from: int,
    done: Seq<ActionView>,
) -> Seq<ActionView>
    decreases endpoints.len() - from,
{
    if from >= endpoints.len() || from >= amounts.len() {
        done
    } else {
        endpoint_actions_from(
            endpoints,
            amounts,
            kind,
            from + 1,
            if amounts[from]@ == 0 {
                done
            } else {
                done.push(endpoint_action(endpoints[from].0, kind, amounts[from]))
            },
        )
    }
}

/// Appends actions for the nonzero amounts.
pub(crate) fn push_endpoint_actions(
    endpoints: &Vec<Endpoint>,
    amounts: &Vec<U256>,
    kind: ActionKind,
    actions: &mut Vec<V2Action>,
)
    ensures
        actions_view(final(actions)@) == endpoint_actions_from(
            endpoints@,
            amounts@,
            kind,
            0,
            actions_view(old(actions)@),
        ),
{
    let ghost before = actions_view(actions@);
    let mut i: usize = 0;
    while i < endpoints.len() && i < amounts.len()
        invariant
            i <= endpoints.len(),
            before == actions_view(old(actions)@),
            endpoint_actions_from(endpoints@, amounts@, kind, 0, before) == endpoint_actions_from(
                endpoints@,
                amounts@,
                kind,
                i as int,
                actions_view(actions@),
            ),
        decreases endpoints.len() - i,
    {
        if !amounts[i].is_zero() {
            let position = endpoints[i].0;
            let ghost held = actions_view(actions@);
            actions.push(
                V2Action::build(
                    kind,
                    position.position_key,
                    position.adapter,
                    encode_adapter_data(&position.market_params),
                    amounts[i],
                ),
            );
            assert(actions_view(actions@) =~= held.push(
                endpoint_action(endpoints@[i as int].0, kind, amounts@[i as int]),
            ));
        }
        i = i + 1;
    }
}

/// Sum of the endpoint maximums from index `from` on, added to `total`.
pub open spec fn endpoint_total_from(endpoints: Seq<Endpoint>, from: int, total: U256) -> Option<
    U256,
>
    decreases endpoints.len() - from,
{
    if from >= endpoints.len() {
        Some(total)
    } else {
        match sum(total, endpoints[from].1) {
            None => None,
            Some(next) => endpoint_total_from(endpoints, from + 1, next),
        }
    }
}

/// Adds up the endpoint maximums.
pub(crate) fn endpoint_total(endpoints: &Vec<Endpoint>) -> (r: Option<U256>)
    ensures
        r == endpoint_total_from(endpoints@, 0, u256(0)),
{
    let mut total = U256::zero();
    let mut i: usize = 0;
    while i < endpoints.len()
        invariant
            i <= endpoints.len(),
            endpoint_total_from(endpoints@, 0, u256(0)) == endpoint_total_from(
                endpoints@,
                i as int,
                total,
            ),
        decreases endpoints.len() - i,
    {
        total = total.checked_add(endpoints[i].1)?;
        i = i + 1;
    }
    Some(total)
}

/// Maximums of the endpoints.
pub open spec fn endpoint_maximums(endpoints: Seq<Endpoint>) -> Seq<U256> {
    Seq::new(endpoints.len(), |i: int| endpoints[i].1)
}

/// Lists the endpoint maximums.
pub(crate) fn list_maximums(endpoints: &Vec<Endpoint>) -> (r: Vec<U256>)
    ensures
        r@ == endpoint_maximums(endpoints@),
{
    let mut maximums: Vec<U256> = Vec::new();
    let mut i: usize = 0;
    while i < endpoints.len()
        invariant
            i <= endpoints.len(),
            maximums@ == endpoint_maximums(endpoints@).subrange(0, i as int),
        decreases endpoints.len() - i,
    {
        maximums.push(endpoints[i].1);
        i = i + 1;
        assert(maximums@ =~= endpoint_maximums(endpoints@).subrange(0, i as int));
    }
    assert(maximums@ =~= endpoint_maximums(endpoints@));
    maximums
}

/// Frozen lattice of every maximum, over shared boundaries.
pub open spec fn lattices_of(
    maximums: Seq<U256>,
    minimum_action: U256,
    boundaries: Seq<U256>,
    limit: usize,
) -> Seq<Seq<U256>> {
    Seq::new(
        maximums.len(),
        |i: int| lattice_amounts(minimum_action, maximums[i], boundaries, limit),
    )
}

/// Lattice hashes from index `from` on, appended to `done`.
pub open spec fn lattice_hashes_from(lattices: Seq<Seq<U256>>, from: int, done: Seq<u8>) -> Seq<u8>
    decreases lattices.len() - from,
{
    if from >= lattices.len() {
        done
    } else {
        lattice_hashes_from(
            lattices,
            from + 1,
            done + big_endian(lattice_hash(lattices[from])@, 32),
        )
    }
}

/// Builds the frozen lattice of every maximum and appends the lattice hashes to `identity`.
pub(crate) fn build_lattices(
    maximums: &Vec<U256>,
    minimum_action: U256,
    boundaries: &Vec<U256>,
    limit: usize,
    identity: &mut Vec<u8>,
) -> (r: Vec<Vec<U256>>)
    ensures
        rows_view(r@) == lattices_of(maximums@, minimum_action, boundaries@, limit),
        r.len() == maximums.len(),
        final(identity)@ == lattice_hashes_from(
            lattices_of(maximums@, minimum_action, boundaries@, limit),
            0,
            old(identity)@,
        ),
{
    let ghost goal = lattices_of(maximums@, minimum_action, boundaries@, limit);
    let mut lattices: Vec<Vec<U256>> = Vec::new();
    assert(rows_view(lattices@) =~= goal.subrange(0, 0));
    let mut i: usize = 0;
    while i < maximums.len()
        invariant
            i <= maximums.len(),
            lattices.len() == i,
            goal == lattices_of(maximums@, minimum_action, boundaries@, limit),
            rows_view(lattices@) == goal.subrange(0, i as int),
            lattice_hashes_from(goal, 0, old(identity)@) == lattice_hashes_from(
                goal,
                i as int,
                identity@,
            ),
        decreases maximums.len() - i,
    {
        let lattice = build_candidate_lattice(minimum_action, maximums[i], boundaries, limit);
        append_bytes(identity, &lattice.hash.to_bytes());
        let ghost held = rows_view(lattices@);
        let ghost added = lattice.amounts@;
        lattices.push(lattice.amounts);
        i = i + 1;
        assert(rows_view(lattices@) =~= held.push(added));
        assert(rows_view(lattices@) =~= goal.subrange(0, i as int));
    }
    assert(goal.subrange(0, i as int) =~= goal);
    lattices
}

/// First configured position from index `from` on that serves a market.
pub open spec fn market_position_from(
    positions: Seq<ValidatedPositionConfig>,
    market: crate::domain::MarketId,
    from: int,
) -> Option<ValidatedPositionConfig>
    decreases positions.len() - from,
{
    if from >= positions.len() {
        None
    } else if positions[from].market_id == market {
        Some(positions[from])
    } else {
        market_position_from(positions, market, from + 1)
    }
}

/// Finds the first configured position that serves a market.
pub(crate) fn find_market_position(
    positions: &Vec<ValidatedPositionConfig>,
    market: crate::domain::MarketId,
) -> (r: Option<ValidatedPositionConfig>)
    ensures
        r == market_position_from(positions@, market, 0),
{
    let mut i: usize = 0;
    while i < positions.len()
        invariant
            i <= positions.len(),
            market_position_from(positions@, market, 0) == market_position_from(
                positions@,
                market,
                i as int,
            ),
        decreases positions.len() - i,
    {
        if positions[i].market_id == market {
            return Some(positions[i]);
        }
        i = i + 1;
    }
    None
}

/// Largest amount one action may move out of or into a position with the given assets.
pub open spec fn action_headroom(
    position: ValidatedPositionConfig,
    kind: ActionKind,
    current: U256,
) -> U256 {
    smaller(
        match kind {
            ActionKind::Deallocate => saturating_difference(
                current,
                position.minimum_position_assets,
            ),
            ActionKind::Allocate => saturating_difference(
                position.maximum_position_assets,
                current,
            ),
        },
        position.maximum_action_assets,
    )
}

/// Computes the largest amount one action may move out of or into a position.
pub(crate) fn headroom_of(
    position: &ValidatedPositionConfig,
    kind: ActionKind,
    current: U256,
) -> (r: U256)
    ensures
        r == action_headroom(*position, kind, current),
{
    match kind {
        ActionKind::Deallocate => current.saturating_sub(position.minimum_position_assets),
        ActionKind::Allocate => position.maximum_position_assets.saturating_sub(current),
    }.min(position.maximum_action_assets)
}

/// Benefit horizon timestamp and no-plan value of the existing shares there.
///
/// `terminal` is the snapshot projected to exactly that horizon without any action, when that
/// succeeds; a projection to another timestamp gives no baseline.
pub open spec fn baseline_spec(
    snapshot: ExactVaultSnapshot,
    head_timestamp: u64,
    benefit_horizon_seconds: u64,
    terminal: Option<&ProjectedVaultView>,
) -> Option<(u64, U256)> {
    if head_timestamp + benefit_horizon_seconds > u64::MAX {
        None
    } else {
        let horizon = (head_timestamp + benefit_horizon_seconds) as u64;
        match no_plan_terminal_spec(snapshot, terminal, horizon) {
            Err(_) => None,
            Ok(value) => Some((horizon, value)),
        }
    }
}

/// Computes the benefit horizon and the no-plan value of the existing shares there.
pub(crate) fn baseline(
    snapshot: &ExactVaultSnapshot,
    head_timestamp: u64,
    benefit_horizon_seconds: u64,
    terminal: Option<&ProjectedVaultView>,
) -> (r: Option<(u64, U256)>)
    ensures
        r == baseline_spec(*snapshot, head_timestamp, benefit_horizon_seconds, terminal),
{
    let horizon: u64 = head_timestamp.checked_add(benefit_horizon_seconds)?;
    match no_plan_terminal_existing_shareholder_assets(snapshot, terminal, horizon) {
        Ok(value) => Some((horizon, value)),
        Err(_) => None,
    }
}

/// Terminal value gained over the no-plan baseline, once immediate loss and terminal sacrifice
/// stay within policy.
pub open spec fn economic_delta_spec(
    state: SimulationView,
    snapshot: ExactVaultSnapshot,
    projection: ProjectedVaultView,
    vault: ValidatedVaultConfig,
    horizon: u64,
    no_plan: U256,
) -> Result<I256, RejectionReason> {
    if state.immediate_loss_assets@ > vault.maximum_immediate_rebalance_loss_assets@ {
        Err(RejectionReason::ImmediateLoss)
    } else {
        match terminal_assets_spec(state, snapshot, projection, horizon) {
            Err(_) => Err(RejectionReason::Simulation),
            Ok(plan) => match sum(plan, vault.maximum_terminal_value_sacrifice_assets) {
                None => Err(RejectionReason::ImmediateLoss),
                Some(allowed) => if allowed@ < no_plan@ {
                    Err(RejectionReason::ImmediateLoss)
                } else {
                    match (signed_of(plan), signed_of(no_plan)) {
                        (Some(after), Some(before)) => signed_difference(after, before).ok_or(
                            RejectionReason::Simulation,
                        ),
                        _ => Err(RejectionReason::Simulation),
                    }
                },
            },
        }
    }
}

/// Computes the terminal value gained over the no-plan baseline.
pub(crate) fn economic_delta(
    state: &SimulationState,
    snapshot: &ExactVaultSnapshot,
    projection: &ProjectedVaultView,
    vault: &ValidatedVaultConfig,
    horizon: u64,
    no_plan: U256,
) -> (r: Result<I256, RejectionReason>)
    ensures
        r == economic_delta_spec(state@, *snapshot, *projection, *vault, horizon, no_plan),
{
    if vault.maximum_immediate_rebalance_loss_assets.lt(state.immediate_loss_assets) {
        return Err(RejectionReason::ImmediateLoss);
    }
    let plan = match state.terminal_existing_shareholder_assets(snapshot, projection, horizon) {
        Ok(value) => value,
        Err(_) => return Err(RejectionReason::Simulation),
    };
    match plan.checked_add(vault.maximum_terminal_value_sacrifice_assets) {
        None => return Err(RejectionReason::ImmediateLoss),
        Some(allowed) => {
            if allowed.lt(no_plan) {
                return Err(RejectionReason::ImmediateLoss);
            }
        },
    }
    let after = I256::try_from_unsigned(plan).ok_or(RejectionReason::Simulation)?;
    let before = I256::try_from_unsigned(no_plan).ok_or(RejectionReason::Simulation)?;
    after.checked_sub(before).ok_or(RejectionReason::Simulation)
}

/// Sum of amounts from index `from` on, added to `total`.
pub open spec fn checked_total_from(amounts: Seq<U256>, from: int, total: U256) -> Option<U256>
    decreases amounts.len() - from,
{
    if from >= amounts.len() {
        Some(total)
    } else {
        match sum(total, amounts[from]) {
            None => None,
            Some(next) => checked_total_from(amounts, from + 1, next),
        }
    }
}

/// Adds up amounts.
pub(crate) fn checked_total(amounts: &Vec<U256>) -> (r: Option<U256>)
    ensures
        r == checked_total_from(amounts@, 0, u256(0)),
{
    let mut total = U256::zero();
    let mut i: usize = 0;
    while i < amounts.len()
        invariant
            i <= amounts.len(),
            checked_total_from(amounts@, 0, u256(0)) == checked_total_from(
                amounts@,
                i as int,
                total,
            ),
        decreases amounts.len() - i,
    {
        total = total.checked_add(amounts[i])?;
        i = i + 1;
    }
    Some(total)
}

/// Sum of the first `count` amounts.
pub open spec fn amounts_sum(amounts: Seq<U256>, count: int) -> int
    decreases count,
{
    if count <= 0 {
        0
    } else {
        amounts_sum(amounts, count - 1) + amounts[count - 1]@
    }
}

/// Sum requested by the first `count` actions of one direction.
pub open spec fn requested_sum(actions: Seq<ActionView>, kind: ActionKind, count: int) -> int
    decreases count,
{
    if count <= 0 {
        0
    } else {
        requested_sum(actions, kind, count - 1) + if actions[count - 1].kind == kind {
            actions[count - 1].requested@ as int
        } else {
            0
        }
    }
}

/// Whether the action moves a nonzero amount at the given endpoint.
pub open spec fn acts_at(
    action: ActionView,
    kind: ActionKind,
    endpoint: Endpoint,
    amount: U256,
) -> bool {
    &&& action.kind == kind
    &&& action.position == endpoint.0.position_key
    &&& action.adapter == endpoint.0.adapter
    &&& action.data == market_params_encoding(endpoint.0.market_params)
    &&& action.requested == amount
    &&& amount@ > 0
}

/// Sums over the first `count` actions do not depend on what follows them.
pub proof fn lemma_requested_prefix(
    left: Seq<ActionView>,
    right: Seq<ActionView>,
    kind: ActionKind,
    count: int,
)
    requires
        0 <= count <= left.len(),
        count <= right.len(),
        forall|i: int| 0 <= i < count ==> left[i] == right[i],
    ensures
        requested_sum(left, kind, count) == requested_sum(right, kind, count),
    decreases count,
{
    if count > 0 {
        lemma_requested_prefix(left, right, kind, count - 1);
    }
}

proof fn lemma_endpoint_actions(
    endpoints: Seq<Endpoint>,
    amounts: Seq<U256>,
    kind: ActionKind,
    from: int,
    done: Seq<ActionView>,
)
    requires
        0 <= from <= endpoints.len(),
        endpoints.len() == amounts.len(),
    ensures
        ({
            let all = endpoint_actions_from(endpoints, amounts, kind, from, done);
            &&& done.len() <= all.len() <= done.len() + endpoints.len() - from
            &&& forall|i: int| 0 <= i < done.len() ==> #[trigger] all[i] == done[i]
            &&& forall|i: int|
                done.len() <= i < all.len() ==> exists|j: int|
                    from <= j < endpoints.len() && acts_at(
                        #[trigger] all[i],
                        kind,
                        #[trigger] endpoints[j],
                        amounts[j],
                    )
            &&& forall|j: int|
                from <= j < endpoints.len() && (#[trigger] amounts[j])@ > 0 ==> exists|i: int|
                    done.len() <= i < all.len() && acts_at(
                        #[trigger] all[i],
                        kind,
                        endpoints[j],
                        amounts[j],
                    )
            &&& requested_sum(all, kind, all.len() as int) == requested_sum(
                done,
                kind,
                done.len() as int,
            ) + amounts_sum(amounts, amounts.len() as int) - amounts_sum(amounts, from)
        }),
    decreases endpoints.len() - from,
{
    if from < endpoints.len() {
        let next = if amounts[from]@ == 0 {
            done
        } else {
            done.push(endpoint_action(endpoints[from].0, kind, amounts[from]))
        };
        lemma_endpoint_actions(endpoints, amounts, kind, from + 1, next);
        let all = endpoint_actions_from(endpoints, amounts, kind, from, done);
        assert(amounts_sum(amounts, from + 1) == amounts_sum(amounts, from) + amounts[from]@);
        if amounts[from]@ > 0 {
            assert(all[done.len() as int] == next[done.len() as int]);
            lemma_requested_prefix(done, next, kind, done.len() as int);
            assert(acts_at(all[done.len() as int], kind, endpoints[from], amounts[from]));
            assert forall|i: int| 0 <= i < done.len() implies #[trigger] all[i] == done[i] by {
                assert(all[i] == next[i]);
            }
        }
        assert forall|j: int|
            from <= j < endpoints.len() && (#[trigger] amounts[j])@ > 0 implies exists|i: int|
            done.len() <= i < all.len() && acts_at(
                #[trigger] all[i],
                kind,
                endpoints[j],
                amounts[j],
            ) by {
            if j > from {
                let i = choose|i: int|
                    next.len() <= i < all.len() && acts_at(
                        #[trigger] all[i],
                        kind,
                        endpoints[j],
                        amounts[j],
                    );
                assert(acts_at(all[i], kind, endpoints[j], amounts[j]));
            }
        }
    }
}

/// The actions for a row of amounts keep what stands before them, move exactly the amounts in the
/// asked direction at their own endpoints with their market parameters, skip the zeros, and so
/// request the sum of the row.
pub proof fn endpoint_actions_request_the_amounts(
    endpoints: Seq<Endpoint>,
    amounts: Seq<U256>,
    kind: ActionKind,
    done: Seq<ActionView>,
)
    requires
        endpoints.len() == amounts.len(),
    ensures
        ({
            let all = endpoint_actions_from(endpoints, amounts, kind, 0, done);
            &&& done.len() <= all.len() <= done.len() + endpoints.len()
            &&& forall|i: int| 0 <= i < done.len() ==> #[trigger] all[i] == done[i]
            &&& forall|i: int|
                done.len() <= i < all.len() ==> exists|j: int|
                    0 <= j < endpoints.len() && acts_at(
                        #[trigger] all[i],
                        kind,
                        #[trigger] endpoints[j],
                        amounts[j],
                    )
            &&& forall|j: int|
                0 <= j < endpoints.len() && (#[trigger] amounts[j])@ > 0 ==> exists|i: int|
                    done.len() <= i < all.len() && acts_at(
                        #[trigger] all[i],
                        kind,
                        endpoints[j],
                        amounts[j],
                    )
            &&& requested_sum(all, kind, all.len() as int) == requested_sum(
                done,
                kind,
                done.len() as int,
            ) + amounts_sum(amounts, amounts.len() as int)
        }),
{
    lemma_endpoint_actions(endpoints, amounts, kind, 0, done);
}

/// A withdrawal headroom leaves at least the position minimum where the position holds it, a supply
/// headroom stays within the position maximum, and neither exceeds the action bound. One of the
/// limits is reached.
pub proof fn action_headroom_respects_position_limits(
    position: ValidatedPositionConfig,
    current: U256,
)
    ensures
        ({
            let out = action_headroom(position, ActionKind::Deallocate, current)@;
            let into = action_headroom(position, ActionKind::Allocate, current)@;
            let least = position.minimum_position_assets@;
            let most = position.maximum_position_assets@;
            let bound = position.maximum_action_assets@;
            &&& out <= bound
            &&& current@ >= least ==> current@ - out >= least
            &&& current@ < least ==> out == 0
            &&& out == bound || current@ <= least || current@ - out == least
            &&& into <= bound
            &&& current@ <= most ==> current@ + into <= most
            &&& current@ > most ==> into == 0
            &&& into == bound || current@ >= most || current@ + into == most
        }),
{
    broadcast use group_u256;

}

/// A plan keeps its economic gates exactly where its immediate loss is within policy and its
/// terminal value falls short of the value without a plan by no more than the allowed sacrifice;
/// what it gains is then the difference of the two terminal values.
pub proof fn economic_gates_bound_loss_and_sacrifice(
    state: SimulationView,
    snapshot: ExactVaultSnapshot,
    projection: ProjectedVaultView,
    vault: ValidatedVaultConfig,
    horizon: u64,
    no_plan: U256,
)
    ensures
        ({
            let delta = economic_delta_spec(state, snapshot, projection, vault, horizon, no_plan);
            let plan = terminal_assets_spec(state, snapshot, projection, horizon);
            &&& delta is Ok ==> {
                &&& state.immediate_loss_assets@ <= vault.maximum_immediate_rebalance_loss_assets@
                &&& plan is Ok
                &&& plan->Ok_0@ + vault.maximum_terminal_value_sacrifice_assets@ >= no_plan@
                &&& delta->Ok_0@ == plan->Ok_0@ - no_plan@
            }
            &&& delta is Err && plan is Ok && state.immediate_loss_assets@
                <= vault.maximum_immediate_rebalance_loss_assets@ && plan->Ok_0@ < word_modulus()
                / 2 && no_plan@ < word_modulus() / 2 && plan->Ok_0@
                + vault.maximum_terminal_value_sacrifice_assets@ < word_modulus() ==> plan->Ok_0@
                + vault.maximum_terminal_value_sacrifice_assets@ < no_plan@
        }),
{
    broadcast use group_u256, group_i256;

}

} // verus!
