//! Deterministic plan-class scheduling and resource reservations.

use vstd::prelude::*;

use crate::collections::{has_key, has_key_is_membership, strictly_increasing, OrderedKey, OrderedSet};
use crate::domain::{CapRef, MarketId, PlanReason, TokenAddress, VaultAddress};
use crate::planner::objective::{
    lemma_lexicographic_irreflexive, lemma_lexicographic_transitive, lexicographically_before,
};
use crate::primitives::{Address, U256};

verus! {

/// Exact resources acquired before any signing operation.
pub struct ResourceReservations {
    /// Parent vaults.
    pub vaults: OrderedSet<VaultAddress>,
    /// Dedicated signer nonce lanes.
    pub signer_lanes: OrderedSet<Address>,
    /// Morpho markets.
    pub markets: OrderedSet<MarketId>,
    /// Shared Morpho loan tokens.
    pub loan_tokens: OrderedSet<TokenAddress>,
    /// Vault-scoped caps.
    pub caps: OrderedSet<CapRef>,
    /// Vaults whose idle-lock ledgers are reserved.
    pub idle_lock_vaults: OrderedSet<VaultAddress>,
}

/// Whether two ordered sequences of keys share an element.
pub open spec fn share_key<K: OrderedKey>(left: Seq<K>, right: Seq<K>) -> bool {
    exists|i: int| 0 <= i < left.len() && has_key(right, #[trigger] left[i])
}

impl ResourceReservations {
    /// Whether every reserved set is in key order.
    pub open spec fn wf(&self) -> bool {
        self.vaults.wf() && self.signer_lanes.wf() && self.markets.wf() && self.loan_tokens.wf()
            && self.caps.wf() && self.idle_lock_vaults.wf()
    }

    /// Whether two reservations share any exclusive execution resource.
    pub open spec fn conflicts_spec(&self, other: &Self) -> bool {
        share_key(self.vaults@, other.vaults@) || share_key(
            self.signer_lanes@,
            other.signer_lanes@,
        ) || share_key(self.markets@, other.markets@) || share_key(
            self.loan_tokens@,
            other.loan_tokens@,
        ) || share_key(self.caps@, other.caps@) || share_key(
            self.idle_lock_vaults@,
            other.idle_lock_vaults@,
        )
    }

    /// Returns whether two pending plans share any exclusive execution resource.
    #[must_use]
    pub fn conflicts(&self, other: &Self) -> (r: bool)
        ensures
            r == self.conflicts_spec(other),
    {
        !self.vaults.is_disjoint(&other.vaults) || !self.signer_lanes.is_disjoint(
            &other.signer_lanes,
        ) || !self.markets.is_disjoint(&other.markets) || !self.loan_tokens.is_disjoint(
            &other.loan_tokens,
        ) || !self.caps.is_disjoint(&other.caps) || !self.idle_lock_vaults.is_disjoint(
            &other.idle_lock_vaults,
        )
    }
}

impl Default for ResourceReservations {
    fn default() -> (r: Self)
        ensures
            r.wf(),
            r.vaults@.len() == 0,
            r.signer_lanes@.len() == 0,
            r.markets@.len() == 0,
            r.loan_tokens@.len() == 0,
            r.caps@.len() == 0,
            r.idle_lock_vaults@.len() == 0,
    {
        ResourceReservations {
            vaults: OrderedSet::new(),
            signer_lanes: OrderedSet::new(),
            markets: OrderedSet::new(),
            loan_tokens: OrderedSet::new(),
            caps: OrderedSet::new(),
            idle_lock_vaults: OrderedSet::new(),
        }
    }
}

proof fn lemma_share_key_symmetric<K: OrderedKey>(left: Seq<K>, right: Seq<K>)
    requires
        strictly_increasing(left),
        strictly_increasing(right),
        share_key(left, right),
    ensures
        share_key(right, left),
{
    let i = choose|i: int| 0 <= i < left.len() && has_key(right, #[trigger] left[i]);
    has_key_is_membership(right, left[i]);
    let j = choose|j: int| 0 <= j < right.len() && right[j] == left[i];
    has_key_is_membership(left, left[i]);
    assert(left.contains(left[i]));
    assert(has_key(left, right[j]));
}

/// Conflict is symmetric.
pub proof fn conflict_is_symmetric(left: &ResourceReservations, right: &ResourceReservations)
    requires
        left.wf(),
        right.wf(),
        left.conflicts_spec(right),
    ensures
        right.conflicts_spec(left),
{
    if share_key(left.vaults@, right.vaults@) {
        lemma_share_key_symmetric(left.vaults@, right.vaults@);
    } else if share_key(left.signer_lanes@, right.signer_lanes@) {
        lemma_share_key_symmetric(left.signer_lanes@, right.signer_lanes@);
    } else if share_key(left.markets@, right.markets@) {
        lemma_share_key_symmetric(left.markets@, right.markets@);
    } else if share_key(left.loan_tokens@, right.loan_tokens@) {
        lemma_share_key_symmetric(left.loan_tokens@, right.loan_tokens@);
    } else if share_key(left.caps@, right.caps@) {
        lemma_share_key_symmetric(left.caps@, right.caps@);
    } else {
        lemma_share_key_symmetric(left.idle_lock_vaults@, right.idle_lock_vaults@);
    }
}

/// Scheduler-visible feasible plan summary.
pub struct SchedulablePlan {
    /// Plan class.
    pub reason: PlanReason,
    /// Parent vault.
    pub vault: VaultAddress,
    /// Largest service deficit in assets.
    pub service_deficit_assets: U256,
    /// Verified unreserved idle in assets.
    pub unreserved_idle_assets: U256,
    /// Applicable spread above entry.
    pub spread_above_entry: U256,
    /// First canonical block at which the condition was eligible.
    pub eligible_since_block: u64,
    /// Exclusive resources needed by the plan.
    pub resources: ResourceReservations,
}

/// Class priority, most urgent first.
pub open spec fn priority_spec(reason: PlanReason) -> u8 {
    match reason {
        PlanReason::LiquidityMaintenance => 0,
        PlanReason::CapitalDeployment => 1,
        PlanReason::RateRebalance | PlanReason::TopKApyRebalance => 2,
        PlanReason::PositionSyncRequired => 3,
    }
}

/// Class priority, most urgent first.
pub fn priority(reason: PlanReason) -> (r: u8)
    ensures
        r == priority_spec(reason),
{
    match reason {
        PlanReason::LiquidityMaintenance => 0,
        PlanReason::CapitalDeployment => 1,
        PlanReason::RateRebalance | PlanReason::TopKApyRebalance => 2,
        PlanReason::PositionSyncRequired => 3,
    }
}

/// Scheduling tuple, smaller first: class, then larger deficit, idle and spread, then older
/// eligibility, then vault.
pub open spec fn scheduling_key(plan: SchedulablePlan) -> Seq<int> {
    seq![
        priority_spec(plan.reason) as int,
        -(plan.service_deficit_assets@ as int),
        -(plan.unreserved_idle_assets@ as int),
        -(plan.spread_above_entry@ as int),
        plan.eligible_since_block as int,
        plan.vault.rank(),
    ]
}

/// Whether a plan may be executed next to the reserved resources.
pub open spec fn eligible(plan: SchedulablePlan, reserved: ResourceReservations) -> bool {
    plan.reason != PlanReason::PositionSyncRequired && !plan.resources.conflicts_spec(&reserved)
}

/// Index of the first plan of smallest scheduling tuple among `best` and the eligible plans from
/// index `from` on.
pub open spec fn selected_from(
    plans: Seq<SchedulablePlan>,
    reserved: ResourceReservations,
    from: int,
    best: Option<int>,
) -> Option<int>
    decreases plans.len() - from,
{
    if from >= plans.len() {
        best
    } else {
        let next = if !eligible(plans[from], reserved) {
            best
        } else {
            match best {
                None => Some(from),
                Some(index) => if lexicographically_before(
                    scheduling_key(plans[from]),
                    scheduling_key(plans[index]),
                ) {
                    Some(from)
                } else {
                    best
                },
            }
        };
        selected_from(plans, reserved, from + 1, next)
    }
}

fn schedules_before(left: &SchedulablePlan, right: &SchedulablePlan) -> (r: bool)
    ensures
        r == lexicographically_before(scheduling_key(*left), scheduling_key(*right)),
{
    proof {
        let a = scheduling_key(*left);
        let b = scheduling_key(*right);
        reveal_with_fuel(lexicographically_before, 7);
        assert(a.drop_first()[0] == a[1] && b.drop_first()[0] == b[1]);
        assert(a.drop_first().drop_first()[0] == a[2]);
        assert(b.drop_first().drop_first()[0] == b[2]);
        assert(a.drop_first().drop_first().drop_first()[0] == a[3]);
        assert(b.drop_first().drop_first().drop_first()[0] == b[3]);
        assert(a.drop_first().drop_first().drop_first().drop_first()[0] == a[4]);
        assert(b.drop_first().drop_first().drop_first().drop_first()[0] == b[4]);
        assert(a.drop_first().drop_first().drop_first().drop_first().drop_first()[0] == a[5]);
        assert(b.drop_first().drop_first().drop_first().drop_first().drop_first()[0] == b[5]);
    }
    let (left_class, right_class) = (priority(left.reason), priority(right.reason));
    if left_class != right_class {
        return left_class < right_class;
    }
    if right.service_deficit_assets.lt(left.service_deficit_assets) {
        return true;
    }
    if left.service_deficit_assets.lt(right.service_deficit_assets) {
        return false;
    }
    if right.unreserved_idle_assets.lt(left.unreserved_idle_assets) {
        return true;
    }
    if left.unreserved_idle_assets.lt(right.unreserved_idle_assets) {
        return false;
    }
    if right.spread_above_entry.lt(left.spread_above_entry) {
        return true;
    }
    if left.spread_above_entry.lt(right.spread_above_entry) {
        return false;
    }
    if left.eligible_since_block != right.eligible_since_block {
        return left.eligible_since_block < right.eligible_since_block;
    }
    left.vault.before(right.vault)
}

/// Selects one execution-eligible plan per chain using the normative total order; among equals
/// the first.
#[must_use]
pub fn select_next<'a>(
    plans: &'a Vec<SchedulablePlan>,
    already_reserved: &ResourceReservations,
) -> (r: Option<&'a SchedulablePlan>)
    ensures
        match selected_from(plans@, *already_reserved, 0, None) {
            Some(index) => 0 <= index < plans.len() && r == Some(&plans@[index]),
            None => r is None,
        },
{
    let mut best: Option<usize> = None;
    let mut i: usize = 0;
    while i < plans.len()
        invariant
            i <= plans.len(),
            best is Some ==> best->0 < i,
            selected_from(plans@, *already_reserved, 0, None) == selected_from(
                plans@,
                *already_reserved,
                i as int,
                match best {
                    Some(index) => Some(index as int),
                    None => None,
                },
            ),
        decreases plans.len() - i,
    {
        let plan = &plans[i];
        if plan.reason != PlanReason::PositionSyncRequired && !plan.resources.conflicts(
            already_reserved,
        ) {
            best =
            match best {
                None => Some(i),
                Some(index) => if schedules_before(plan, &plans[index]) {
                    Some(i)
                } else {
                    Some(index)
                },
            };
        }
        i = i + 1;
    }
    match best {
        Some(index) => Some(&plans[index]),
        None => None,
    }
}

proof fn lemma_selected_from(
    plans: Seq<SchedulablePlan>,
    reserved: ResourceReservations,
    from: int,
    best: Option<int>,
)
    requires
        0 <= from <= plans.len(),
        match best {
            Some(index) => 0 <= index < from && eligible(plans[index], reserved),
            None => true,
        },
        forall|i: int|
            0 <= i < from && eligible(#[trigger] plans[i], reserved) ==> best is Some
                && !lexicographically_before(
                scheduling_key(plans[i]),
                scheduling_key(plans[best->0]),
            ),
    ensures
        match selected_from(plans, reserved, from, best) {
            Some(index) => 0 <= index < plans.len() && eligible(plans[index], reserved) && forall|
                i: int,
            |
                0 <= i < plans.len() && eligible(#[trigger] plans[i], reserved)
                    ==> !lexicographically_before(
                    scheduling_key(plans[i]),
                    scheduling_key(plans[index]),
                ),
            None => forall|i: int| 0 <= i < plans.len() ==> !eligible(#[trigger] plans[i], reserved),
        },
    decreases plans.len() - from,
{
    if from < plans.len() {
        let next = if !eligible(plans[from], reserved) {
            best
        } else {
            match best {
                None => Some(from),
                Some(index) => if lexicographically_before(
                    scheduling_key(plans[from]),
                    scheduling_key(plans[index]),
                ) {
                    Some(from)
                } else {
                    best
                },
            }
        };
        assert forall|i: int| 0 <= i < from + 1 && eligible(#[trigger] plans[i], reserved) implies next
            is Some && !lexicographically_before(
            scheduling_key(plans[i]),
            scheduling_key(plans[next->0]),
        ) by {
            if next == Some(from) {
                lemma_lexicographic_irreflexive(scheduling_key(plans[from]));
                if i < from && lexicographically_before(
                    scheduling_key(plans[i]),
                    scheduling_key(plans[from]),
                ) {
                    lemma_lexicographic_transitive(
                        scheduling_key(plans[i]),
                        scheduling_key(plans[from]),
                        scheduling_key(plans[best->0]),
                    );
                }
            }
        }
        lemma_selected_from(plans, reserved, from + 1, next);
    }
}

/// The scheduled plan is eligible, so it neither reports a synchronization nor conflicts with a
/// reservation, and no eligible plan precedes it. Nothing is scheduled only when nothing is
/// eligible.
pub proof fn scheduled_plan_is_eligible_and_first(
    plans: Seq<SchedulablePlan>,
    reserved: ResourceReservations,
)
    ensures
        match selected_from(plans, reserved, 0, None) {
            Some(index) => 0 <= index < plans.len() && eligible(plans[index], reserved) && forall|
                i: int,
            |
                0 <= i < plans.len() && eligible(#[trigger] plans[i], reserved)
                    ==> !lexicographically_before(
                    scheduling_key(plans[i]),
                    scheduling_key(plans[index]),
                ),
            None => forall|i: int| 0 <= i < plans.len() ==> !eligible(#[trigger] plans[i], reserved),
        },
{
    lemma_selected_from(plans, reserved, 0, None);
}

/// Whether two ordered sets have no element in common.
pub open spec fn apart<K>(left: Seq<K>, right: Seq<K>) -> bool {
    forall|i: int, j: int|
        0 <= i < left.len() && 0 <= j < right.len() ==> #[trigger] left[i] != #[trigger] right[j]
}

/// Whether a plan needs nothing that is already reserved.
pub open spec fn free_to_run(needed: ResourceReservations, reserved: ResourceReservations) -> bool {
    &&& apart(needed.vaults@, reserved.vaults@)
    &&& apart(needed.signer_lanes@, reserved.signer_lanes@)
    &&& apart(needed.markets@, reserved.markets@)
    &&& apart(needed.loan_tokens@, reserved.loan_tokens@)
    &&& apart(needed.caps@, reserved.caps@)
    &&& apart(needed.idle_lock_vaults@, reserved.idle_lock_vaults@)
}

/// Whether the reason is one of the two rebalances.
pub open spec fn rebalances(reason: PlanReason) -> bool {
    reason == PlanReason::RateRebalance || reason == PlanReason::TopKApyRebalance
}

/// Whether nothing about the waiting plan makes it more urgent than the chosen one.
pub open spec fn waits_behind(waiting: SchedulablePlan, chosen: SchedulablePlan) -> bool {
    let deficits = (waiting.service_deficit_assets@, chosen.service_deficit_assets@);
    let idle = (waiting.unreserved_idle_assets@, chosen.unreserved_idle_assets@);
    let spreads = (waiting.spread_above_entry@, chosen.spread_above_entry@);
    let blocks = (waiting.eligible_since_block, chosen.eligible_since_block);
    &&& waiting.reason == PlanReason::LiquidityMaintenance ==> chosen.reason
        == PlanReason::LiquidityMaintenance
    &&& rebalances(chosen.reason) ==> rebalances(waiting.reason)
    &&& waiting.reason == chosen.reason || rebalances(waiting.reason) && rebalances(chosen.reason)
        ==> {
        &&& deficits.0 <= deficits.1
        &&& deficits.0 == deficits.1 ==> idle.0 <= idle.1
        &&& deficits.0 == deficits.1 && idle.0 == idle.1 ==> spreads.0 <= spreads.1
        &&& deficits.0 == deficits.1 && idle.0 == idle.1 && spreads.0 == spreads.1 ==> blocks.0
            >= blocks.1
        &&& deficits.0 == deficits.1 && idle.0 == idle.1 && spreads.0 == spreads.1 && blocks.0
            == blocks.1 ==> waiting.vault.0@ >= chosen.vault.0@
    }
}

proof fn lemma_apart<K: OrderedKey>(left: Seq<K>, right: Seq<K>)
    requires
        strictly_increasing(right),
    ensures
        share_key(left, right) == !apart(left, right),
{
    if share_key(left, right) {
        let i = choose|i: int| 0 <= i < left.len() && has_key(right, #[trigger] left[i]);
        has_key_is_membership(right, left[i]);
        let j = choose|j: int| 0 <= j < right.len() && right[j] == left[i];
        assert(left[i] == right[j]);
    }
    if !apart(left, right) {
        let (i, j) = choose|i: int, j: int|
            0 <= i < left.len() && 0 <= j < right.len() && #[trigger] left[i]
                == #[trigger] right[j];
        has_key_is_membership(right, left[i]);
        assert(right.contains(left[i]));
        assert(has_key(right, left[i]));
    }
}

proof fn lemma_free_to_run(needed: ResourceReservations, reserved: ResourceReservations)
    requires
        reserved.wf(),
    ensures
        needed.conflicts_spec(&reserved) == !free_to_run(needed, reserved),
{
    lemma_apart(needed.vaults@, reserved.vaults@);
    lemma_apart(needed.signer_lanes@, reserved.signer_lanes@);
    lemma_apart(needed.markets@, reserved.markets@);
    lemma_apart(needed.loan_tokens@, reserved.loan_tokens@);
    lemma_apart(needed.caps@, reserved.caps@);
    lemma_apart(needed.idle_lock_vaults@, reserved.idle_lock_vaults@);
}

proof fn lemma_waits_behind(waiting: SchedulablePlan, chosen: SchedulablePlan)
    requires
        waiting.reason != PlanReason::PositionSyncRequired,
        chosen.reason != PlanReason::PositionSyncRequired,
        !lexicographically_before(scheduling_key(waiting), scheduling_key(chosen)),
    ensures
        waits_behind(waiting, chosen),
{
    let a = scheduling_key(waiting);
    let b = scheduling_key(chosen);
    reveal_with_fuel(lexicographically_before, 7);
    assert(a.drop_first()[0] == a[1] && b.drop_first()[0] == b[1]);
    assert(a.drop_first().drop_first()[0] == a[2]);
    assert(b.drop_first().drop_first()[0] == b[2]);
    assert(a.drop_first().drop_first().drop_first()[0] == a[3]);
    assert(b.drop_first().drop_first().drop_first()[0] == b[3]);
    assert(a.drop_first().drop_first().drop_first().drop_first()[0] == a[4]);
    assert(b.drop_first().drop_first().drop_first().drop_first()[0] == b[4]);
    assert(a.drop_first().drop_first().drop_first().drop_first().drop_first()[0] == a[5]);
    assert(b.drop_first().drop_first().drop_first().drop_first().drop_first()[0] == b[5]);
}

/// Maintenance runs before deployment and deployment before a rebalance; within a class the largest
/// deficit, then the most idle, then the widest spread, then the longest wait, then the lowest vault
/// runs first. The scheduled plan shares nothing with what is reserved, and something is scheduled
/// wherever one plan that acts could run.
pub proof fn scheduled_plan_is_most_urgent(
    plans: Seq<SchedulablePlan>,
    reserved: ResourceReservations,
)
    requires
        reserved.wf(),
    ensures
        match selected_from(plans, reserved, 0, None) {
            Some(index) => {
                &&& 0 <= index < plans.len()
                &&& plans[index].reason != PlanReason::PositionSyncRequired
                &&& free_to_run(plans[index].resources, reserved)
                &&& forall|i: int|
                    0 <= i < plans.len() && (#[trigger] plans[i]).reason
                        != PlanReason::PositionSyncRequired && free_to_run(
                        plans[i].resources,
                        reserved,
                    ) ==> waits_behind(plans[i], plans[index])
            },
            None => forall|i: int|
                0 <= i < plans.len() ==> (#[trigger] plans[i]).reason
                    == PlanReason::PositionSyncRequired || !free_to_run(
                    plans[i].resources,
                    reserved,
                ),
        },
{
    lemma_selected_from(plans, reserved, 0, None);
    assert forall|i: int| 0 <= i < plans.len() implies eligible(#[trigger] plans[i], reserved) == (
    plans[i].reason != PlanReason::PositionSyncRequired && free_to_run(
        plans[i].resources,
        reserved,
    )) by {
        lemma_free_to_run(plans[i].resources, reserved);
    }
    if let Some(index) = selected_from(plans, reserved, 0, None) {
        assert forall|i: int|
            0 <= i < plans.len() && (#[trigger] plans[i]).reason
                != PlanReason::PositionSyncRequired && free_to_run(
                plans[i].resources,
                reserved,
            ) implies waits_behind(plans[i], plans[index]) by {
            lemma_waits_behind(plans[i], plans[index]);
        }
    }
}

} // verus!
