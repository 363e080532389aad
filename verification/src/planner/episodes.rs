//! Persistent rate-signal episode state machine.

use vstd::prelude::*;

use crate::collections::{has_key, has_key_is_membership, strictly_increasing, OrderedSet};
use crate::domain::{
    Assets, BlockRef, EpisodeId, MarketId, RateGroupId, RateObjectiveBranch, VaultAddress,
};
use crate::planner::candidates::append_bytes;
use crate::primitives::{
    b256, big_endian, difference, group_b256, group_u256, keccak256, keccak256_digest,
    lemma_u256_range, sum, u256, B256, U256,
};

verus! {

/// Durable lifecycle state for one frozen-direction rate signal.
#[derive(Clone, Copy, Debug, PartialEq, Eq, Structural)]
pub enum RateEpisodeState {
    /// Consecutive short confirmation is accumulating.
    Detecting,
    /// Immediate optimization is available under its frozen cumulative budget.
    Immediate,
    /// Persistent time/event confirmation unlocked the remaining budget.
    Persistent,
    /// Episode has a terminal reason and cannot be rearmed.
    Complete,
}

/// Typed terminal reason for a rate episode.
#[derive(Clone, Copy, Debug, PartialEq, Eq, Structural)]
pub enum RateEpisodeStopReason {
    /// The configured target plus integer tolerance was reached.
    TargetReached,
    /// Static configuration or dynamic topology changed.
    ConfigOrTopologyChanged,
    /// The profitable source/destination direction changed or became infeasible.
    DirectionChanged,
    /// The bounded episode lifetime expired without convergence.
    ExpiredStalled,
    /// Exact observations were not consecutive across canonical blocks.
    NonConsecutiveObservation,
    /// A higher-priority safety or capital plan changed the comparison state.
    HigherPriorityPlan,
}

/// One canonically ordered, independently attributed borrower-side event.
#[derive(Clone, Copy, Debug, PartialEq, Eq, Structural)]
pub struct IndependentRateEvent {
    /// Distinct non-bot transaction that emitted the qualifying event.
    pub transaction_hash: B256,
    /// Exact canonical block containing the transaction.
    pub block: BlockRef,
}

/// Immutable direction and cumulative movement accounting for one episode.
pub struct RateSignalEpisode {
    /// Stable episode identifier.
    pub episode_id: EpisodeId,
    /// Parent vault.
    pub vault: VaultAddress,
    /// Frozen rate group.
    pub rate_group: RateGroupId,
    /// Current lifecycle state.
    pub state: RateEpisodeState,
    /// Typed terminal reason, populated exactly when state becomes complete.
    pub stop_reason: Option<RateEpisodeStopReason>,
    /// Frozen objective branch.
    pub objective_branch: RateObjectiveBranch,
    /// Detection block.
    pub detection_block: BlockRef,
    /// Block satisfying short confirmation.
    pub confirmation_block: Option<BlockRef>,
    /// Last exact canonical head observed while short-confirming.
    pub last_observation_block: Option<BlockRef>,
    /// Canonical block span covered by exact endpoint observations, including detection.
    pub consecutive_observations: u64,
    /// Frozen static configuration revision.
    pub config_revision: B256,
    /// Frozen topology revision.
    pub topology_revision: B256,
    /// Frozen same-set evaluation markets.
    pub evaluation_markets: OrderedSet<MarketId>,
    /// Frozen controllable markets.
    pub controllable_markets: OrderedSet<MarketId>,
    /// Original source direction.
    pub source_markets: OrderedSet<MarketId>,
    /// Original destination direction.
    pub destination_markets: OrderedSet<MarketId>,
    /// Canonical direction hash.
    pub direction_hash: B256,
    /// Baseline desired movement in assets.
    pub baseline_desired_movement: Assets,
    /// Frozen cumulative budget available before persistent confirmation.
    ///
    /// The per-plan tranche is derived later from the solver's optimal movement.
    pub immediate_budget: Assets,
    /// Canonically confirmed episode movement.
    pub confirmed_movement: Assets,
    /// Unresolved pending episode movement.
    pub pending_movement: Assets,
    /// Canonical events that independently confirmed the frozen rate direction.
    pub independent_events: Vec<IndependentRateEvent>,
    /// Detection timestamp.
    pub started_at: u64,
    /// Hard expiry timestamp.
    pub expires_at: u64,
}

/// What an episode holds; sets are in key order.
pub ghost struct EpisodeView {
    /// Stable episode identifier.
    pub episode_id: EpisodeId,
    /// Parent vault.
    pub vault: VaultAddress,
    /// Frozen rate group.
    pub rate_group: RateGroupId,
    /// Lifecycle state.
    pub state: RateEpisodeState,
    /// Terminal reason.
    pub stop_reason: Option<RateEpisodeStopReason>,
    /// Frozen objective branch.
    pub objective_branch: RateObjectiveBranch,
    /// Detection block.
    pub detection_block: BlockRef,
    /// Block satisfying short confirmation.
    pub confirmation_block: Option<BlockRef>,
    /// Last exact canonical head observed while short-confirming.
    pub last_observation_block: Option<BlockRef>,
    /// Canonical block span covered.
    pub consecutive_observations: u64,
    /// Frozen configuration revision.
    pub config_revision: B256,
    /// Frozen topology revision.
    pub topology_revision: B256,
    /// Frozen evaluation markets.
    pub evaluation_markets: Seq<MarketId>,
    /// Frozen controllable markets.
    pub controllable_markets: Seq<MarketId>,
    /// Source direction.
    pub source_markets: Seq<MarketId>,
    /// Destination direction.
    pub destination_markets: Seq<MarketId>,
    /// Direction hash.
    pub direction_hash: B256,
    /// Baseline desired movement.
    pub baseline_desired_movement: Assets,
    /// Budget before persistent confirmation.
    pub immediate_budget: Assets,
    /// Confirmed movement.
    pub confirmed_movement: Assets,
    /// Pending movement.
    pub pending_movement: Assets,
    /// Confirming events.
    pub independent_events: Seq<IndependentRateEvent>,
    /// Detection timestamp.
    pub started_at: u64,
    /// Hard expiry timestamp.
    pub expires_at: u64,
}

impl View for RateSignalEpisode {
    type V = EpisodeView;

    open spec fn view(&self) -> EpisodeView {
        EpisodeView {
            episode_id: self.episode_id,
            vault: self.vault,
            rate_group: self.rate_group,
            state: self.state,
            stop_reason: self.stop_reason,
            objective_branch: self.objective_branch,
            detection_block: self.detection_block,
            confirmation_block: self.confirmation_block,
            last_observation_block: self.last_observation_block,
            consecutive_observations: self.consecutive_observations,
            config_revision: self.config_revision,
            topology_revision: self.topology_revision,
            evaluation_markets: self.evaluation_markets@,
            controllable_markets: self.controllable_markets@,
            source_markets: self.source_markets@,
            destination_markets: self.destination_markets@,
            direction_hash: self.direction_hash,
            baseline_desired_movement: self.baseline_desired_movement,
            immediate_budget: self.immediate_budget,
            confirmed_movement: self.confirmed_movement,
            pending_movement: self.pending_movement,
            independent_events: self.independent_events@,
            started_at: self.started_at,
            expires_at: self.expires_at,
        }
    }
}

/// Fail-closed rate-episode transition error.
#[derive(Clone, Copy, Debug, PartialEq, Eq, Structural)]
pub enum EpisodeError {
    /// Source/destination sets overlap or are empty.
    InvalidDirection,
    /// The full-movement baseline is zero or arithmetic failed.
    InvalidBudget,
    /// Movement would exceed the currently unlocked cumulative budget.
    BudgetExceeded,
    /// Candidate changed the frozen direction or objective branch.
    DirectionChanged,
    /// A terminal episode cannot transition.
    Complete,
    /// Short-confirmation observations moved backwards or changed a directly observed parent.
    NonConsecutiveObservation,
    /// Short-confirmation observation count overflowed.
    ObservationOverflow,
}

/// Tagged 32-byte market identifiers from index `from` on, appended to `done`.
pub open spec fn tagged_markets_from(
    markets: Seq<MarketId>,
    tag: u8,
    from: int,
    done: Seq<u8>,
) -> Seq<u8>
    decreases markets.len() - from,
{
    if from >= markets.len() {
        done
    } else {
        tagged_markets_from(
            markets,
            tag,
            from + 1,
            done.push(tag) + big_endian(markets[from].0@, 32),
        )
    }
}

fn append_tagged_markets(buffer: &mut Vec<u8>, markets: &OrderedSet<MarketId>, tag: u8)
    ensures
        final(buffer)@ == tagged_markets_from(markets@, tag, 0, old(buffer)@),
{
    let mut i: usize = 0;
    while i < markets.len()
        invariant
            i <= markets@.len(),
            tagged_markets_from(markets@, tag, 0, old(buffer)@) == tagged_markets_from(
                markets@,
                tag,
                i as int,
                buffer@,
            ),
        decreases markets@.len() - i,
    {
        buffer.push(tag);
        append_bytes(buffer, &markets.at(i).0.to_bytes());
        i = i + 1;
    }
}

/// Byte that stands for an objective branch.
pub open spec fn branch_byte(branch: RateObjectiveBranch) -> u8 {
    match branch {
        RateObjectiveBranch::Portfolio => 0,
        RateObjectiveBranch::Controllable => 1,
    }
}

/// Canonical bytes of a frozen direction: tagged sources, tagged destinations, branch, revisions.
pub open spec fn direction_bytes(
    sources: Seq<MarketId>,
    destinations: Seq<MarketId>,
    branch: RateObjectiveBranch,
    config_revision: B256,
    topology_revision: B256,
) -> Seq<u8> {
    tagged_markets_from(destinations, 1, 0, tagged_markets_from(sources, 0, 0, Seq::empty())).push(
        branch_byte(branch),
    ) + big_endian(config_revision@, 32) + big_endian(topology_revision@, 32)
}

/// Canonical bytes of an episode: its direction, vault, rate group and detection block.
pub open spec fn identity_bytes(
    direction: Seq<u8>,
    vault: VaultAddress,
    rate_group: RateGroupId,
    detection_block: BlockRef,
) -> Seq<u8> {
    direction + big_endian(vault.0@, 20) + big_endian(rate_group.0@, 32) + big_endian(
        detection_block.number as nat,
        8,
    )
}

/// Whether two ordered sequences of markets share no market.
pub open spec fn disjoint_markets(left: Seq<MarketId>, right: Seq<MarketId>) -> bool {
    forall|i: int| 0 <= i < left.len() ==> !#[trigger] has_key(right, left[i])
}

/// Whether every market of the left sequence is in the right one.
pub open spec fn subset_of_markets(left: Seq<MarketId>, right: Seq<MarketId>) -> bool {
    forall|i: int| 0 <= i < left.len() ==> #[trigger] has_key(right, left[i])
}

impl EpisodeView {
    /// Budget currently unlocked by the lifecycle state.
    pub open spec fn unlocked(self) -> U256 {
        match self.state {
            RateEpisodeState::Detecting | RateEpisodeState::Complete => u256(0),
            RateEpisodeState::Immediate => self.immediate_budget.0,
            RateEpisodeState::Persistent => self.baseline_desired_movement.0,
        }
    }

    /// A budget less confirmed and pending movement.
    pub open spec fn unspent(self, budget: U256) -> Result<U256, EpisodeError> {
        if self.confirmed_movement.0@ + self.pending_movement.0@ <= budget@ {
            Ok(
                u256(
                    (budget@ - self.confirmed_movement.0@ - self.pending_movement.0@) as nat,
                ),
            )
        } else {
            Err(EpisodeError::BudgetExceeded)
        }
    }

    /// Remaining unlocked movement.
    pub open spec fn available(self) -> Result<U256, EpisodeError> {
        self.unspent(self.unlocked())
    }

    /// Remaining movement of the whole episode.
    pub open spec fn remaining(self) -> Result<U256, EpisodeError> {
        self.unspent(self.baseline_desired_movement.0)
    }

    /// Short confirmation.
    pub open spec fn short_confirmed(self, block: BlockRef, baseline: Assets) -> (
        EpisodeView,
        Result<(), EpisodeError>,
    ) {
        if self.state == RateEpisodeState::Complete {
            (self, Err(EpisodeError::Complete))
        } else if self.state != RateEpisodeState::Detecting || baseline.0@ == 0 {
            (self, Err(EpisodeError::InvalidBudget))
        } else {
            (
                EpisodeView {
                    baseline_desired_movement: baseline,
                    immediate_budget: baseline,
                    confirmation_block: Some(block),
                    last_observation_block: Some(block),
                    state: RateEpisodeState::Immediate,
                    ..self
                },
                Ok(()),
            )
        }
    }

    /// Short confirmation that reports success as a confirmed observation.
    pub open spec fn confirmed_now(self, block: BlockRef, baseline: Assets) -> (
        EpisodeView,
        Result<bool, EpisodeError>,
    ) {
        let (next, outcome) = self.short_confirmed(block, baseline);
        match outcome {
            Err(error) => (next, Err(error)),
            Ok(_) => (next, Ok(true)),
        }
    }

    /// Last block observed, the detection block before any observation.
    pub open spec fn previous_observation(self) -> BlockRef {
        match self.last_observation_block {
            Some(block) => block,
            None => self.detection_block,
        }
    }

    /// Whether an observation moves backwards or breaks the parent link of a direct successor.
    pub open spec fn breaks_succession(self, block: BlockRef) -> bool {
        let previous = self.previous_observation();
        block.number <= previous.number || block.timestamp < previous.timestamp || (block.number
            == previous.number + 1 && block.parent_hash != previous.hash)
    }

    /// One endpoint observation.
    pub open spec fn observed(self, block: BlockRef, required: u64, baseline: Assets) -> (
        EpisodeView,
        Result<bool, EpisodeError>,
    ) {
        let span: int = if required == 0 {
            1
        } else {
            required as int
        };
        if self.state == RateEpisodeState::Complete {
            (self, Err(EpisodeError::Complete))
        } else if self.state != RateEpisodeState::Detecting {
            (self, Ok(true))
        } else if self.consecutive_observations >= span {
            self.confirmed_now(block, baseline)
        } else if block == self.previous_observation() {
            (self, Ok(false))
        } else if self.breaks_succession(block) {
            (self, Err(EpisodeError::NonConsecutiveObservation))
        } else {
            let seen = EpisodeView { last_observation_block: Some(block), ..self };
            let covered = block.number - self.detection_block.number + 1;
            if covered < 1 || covered > u64::MAX {
                (seen, Err(EpisodeError::ObservationOverflow))
            } else {
                let counted = EpisodeView { consecutive_observations: covered as u64, ..seen };
                if covered >= span {
                    counted.confirmed_now(block, baseline)
                } else {
                    (counted, Ok(false))
                }
            }
        }
    }

    /// Reservation of pending movement.
    pub open spec fn reserved(self, movement: U256) -> (EpisodeView, Result<(), EpisodeError>) {
        match self.available() {
            Err(error) => (self, Err(error)),
            Ok(available) => if movement@ > available@ {
                (self, Err(EpisodeError::BudgetExceeded))
            } else {
                match sum(self.pending_movement.0, movement) {
                    None => (self, Err(EpisodeError::BudgetExceeded)),
                    Some(pending) => (
                        EpisodeView { pending_movement: Assets(pending), ..self },
                        Ok(()),
                    ),
                }
            },
        }
    }

    /// Release of pending movement.
    pub open spec fn released(self, movement: U256) -> (EpisodeView, Result<(), EpisodeError>) {
        match difference(self.pending_movement.0, movement) {
            None => (self, Err(EpisodeError::BudgetExceeded)),
            Some(pending) => (EpisodeView { pending_movement: Assets(pending), ..self }, Ok(())),
        }
    }

    /// Pending movement becoming confirmed.
    pub open spec fn settled(self, movement: U256) -> (EpisodeView, Result<(), EpisodeError>) {
        let (freed, outcome) = self.released(movement);
        match outcome {
            Err(error) => (freed, Err(error)),
            Ok(_) => match sum(freed.confirmed_movement.0, movement) {
                None => (freed, Err(EpisodeError::BudgetExceeded)),
                Some(confirmed) => (
                    EpisodeView { confirmed_movement: Assets(confirmed), ..freed },
                    Ok(()),
                ),
            },
        }
    }

    /// Confirmed movement becoming pending again.
    pub open spec fn reopened(self, movement: U256, budget_before: U256) -> (
        EpisodeView,
        Result<(), EpisodeError>,
    ) {
        match difference(self.confirmed_movement.0, movement) {
            None => (self, Err(EpisodeError::BudgetExceeded)),
            Some(confirmed) => {
                let undone = EpisodeView { confirmed_movement: Assets(confirmed), ..self };
                match sum(undone.pending_movement.0, movement) {
                    None => (undone, Err(EpisodeError::BudgetExceeded)),
                    Some(pending) => {
                        let moved = EpisodeView { pending_movement: Assets(pending), ..undone };
                        match difference(moved.immediate_budget.0, confirmed) {
                            None => (moved, Err(EpisodeError::BudgetExceeded)),
                            Some(before) => (
                                EpisodeView {
                                    state: if budget_before@ <= before@ {
                                        RateEpisodeState::Immediate
                                    } else {
                                        RateEpisodeState::Persistent
                                    },
                                    stop_reason: None,
                                    ..moved
                                },
                                Ok(()),
                            ),
                        }
                    },
                }
            },
        }
    }

    /// Persistent tranche unlocked.
    pub open spec fn persisted(self) -> (EpisodeView, Result<(), EpisodeError>) {
        if self.state == RateEpisodeState::Complete {
            (self, Err(EpisodeError::Complete))
        } else {
            (EpisodeView { state: RateEpisodeState::Persistent, ..self }, Ok(()))
        }
    }

    /// Whether a transaction is already recorded.
    pub open spec fn records(self, transaction_hash: B256) -> bool {
        exists|i: int|
            0 <= i < self.independent_events.len() && (
            #[trigger] self.independent_events[i]).transaction_hash == transaction_hash
    }

    /// Whether an event precedes or contradicts the last recorded one.
    pub open spec fn precedes_last(self, event: IndependentRateEvent) -> bool {
        self.independent_events.len() > 0 && ({
            let last = self.independent_events.last();
            event.block.number < last.block.number || (event.block.number == last.block.number
                && event.block.hash != last.block.hash) || event.block.timestamp
                < last.block.timestamp
        })
    }

    /// One independent event.
    pub open spec fn event_recorded(self, event: IndependentRateEvent) -> (
        EpisodeView,
        Result<bool, EpisodeError>,
    ) {
        if self.state == RateEpisodeState::Complete {
            (self, Err(EpisodeError::Complete))
        } else {
            match self.confirmation_block {
                None => (self, Err(EpisodeError::NonConsecutiveObservation)),
                Some(confirmation) => if event.block.number <= confirmation.number {
                    (self, Err(EpisodeError::NonConsecutiveObservation))
                } else if self.records(event.transaction_hash) {
                    (self, Ok(false))
                } else if self.precedes_last(event) {
                    (self, Err(EpisodeError::NonConsecutiveObservation))
                } else {
                    (
                        EpisodeView {
                            independent_events: self.independent_events.push(event),
                            ..self
                        },
                        Ok(true),
                    )
                },
            }
        }
    }

    /// Whether the recorded events cover the configured count and span.
    pub open spec fn event_confirmed(self, minimum_events: u32, minimum_span: u64) -> bool {
        let events = self.independent_events;
        events.len() > 0 && minimum_events <= events.len() <= u32::MAX && ({
            let span = events.last().block.timestamp - events[0].block.timestamp;
            (if span < 0 {
                0
            } else {
                span
            }) >= minimum_span
        })
    }

    /// The episode without events of an orphaned suffix.
    pub open spec fn rewound(self, ancestor: BlockRef) -> EpisodeView {
        EpisodeView {
            independent_events: kept_events_from(self.independent_events, ancestor, 0, Seq::empty()),
            ..self
        }
    }

    /// Whether a candidate keeps the frozen branch and stays within the frozen direction.
    pub open spec fn admits_direction(
        self,
        branch: RateObjectiveBranch,
        sources: Seq<MarketId>,
        destinations: Seq<MarketId>,
    ) -> bool {
        branch == self.objective_branch && subset_of_markets(sources, self.source_markets)
            && subset_of_markets(destinations, self.destination_markets) && disjoint_markets(
            sources,
            destinations,
        )
    }

    /// The terminated episode.
    pub open spec fn completed(self, reason: RateEpisodeStopReason) -> EpisodeView {
        EpisodeView { state: RateEpisodeState::Complete, stop_reason: Some(reason), ..self }
    }
}

/// Whether an event stays canonical after a rewind to an ancestor.
pub open spec fn event_survives(event: IndependentRateEvent, ancestor: BlockRef) -> bool {
    event.block.number < ancestor.number || (event.block.number == ancestor.number
        && event.block.hash == ancestor.hash)
}

/// Surviving events from index `from` on, appended to `kept`.
pub open spec fn kept_events_from(
    events: Seq<IndependentRateEvent>,
    ancestor: BlockRef,
    from: int,
    kept: Seq<IndependentRateEvent>,
) -> Seq<IndependentRateEvent>
    decreases events.len() - from,
{
    if from >= events.len() {
        kept
    } else if event_survives(events[from], ancestor) {
        kept_events_from(events, ancestor, from + 1, kept.push(events[from]))
    } else {
        kept_events_from(events, ancestor, from + 1, kept)
    }
}

impl RateSignalEpisode {
    /// Starts a provisional immutable-direction episode. Movement budgets remain
    /// zero until short confirmation succeeds against a fresh exact state.
    pub fn start(
        vault: VaultAddress,
        rate_group: RateGroupId,
        objective_branch: RateObjectiveBranch,
        detection_block: BlockRef,
        config_revision: B256,
        topology_revision: B256,
        evaluation_markets: OrderedSet<MarketId>,
        controllable_markets: OrderedSet<MarketId>,
        source_markets: OrderedSet<MarketId>,
        destination_markets: OrderedSet<MarketId>,
        started_at: u64,
        expires_at: u64,
    ) -> (r: Result<RateSignalEpisode, EpisodeError>)
        ensures
            if source_markets@.len() == 0 || destination_markets@.len() == 0
                || !disjoint_markets(source_markets@, destination_markets@) || expires_at
                <= started_at {
                r is Err && r->Err_0 == EpisodeError::InvalidDirection
            } else {
                let direction = direction_bytes(
                    source_markets@,
                    destination_markets@,
                    objective_branch,
                    config_revision,
                    topology_revision,
                );
                r is Ok && r->Ok_0@ == (EpisodeView {
                    episode_id: EpisodeId(
                        b256(
                            keccak256_digest(
                                identity_bytes(direction, vault, rate_group, detection_block),
                            ),
                        ),
                    ),
                    vault,
                    rate_group,
                    state: RateEpisodeState::Detecting,
                    stop_reason: None,
                    objective_branch,
                    detection_block,
                    confirmation_block: None,
                    last_observation_block: Some(detection_block),
                    consecutive_observations: 1,
                    config_revision,
                    topology_revision,
                    evaluation_markets: evaluation_markets@,
                    controllable_markets: controllable_markets@,
                    source_markets: source_markets@,
                    destination_markets: destination_markets@,
                    direction_hash: b256(keccak256_digest(direction)),
                    baseline_desired_movement: Assets(u256(0)),
                    immediate_budget: Assets(u256(0)),
                    confirmed_movement: Assets(u256(0)),
                    pending_movement: Assets(u256(0)),
                    independent_events: Seq::empty(),
                    started_at,
                    expires_at,
                })
            },
    {
        broadcast use group_b256, group_u256;

        if source_markets.len() == 0 || destination_markets.len() == 0
            || !source_markets.is_disjoint(&destination_markets) || expires_at <= started_at {
            return Err(EpisodeError::InvalidDirection);
        }
        let mut direction: Vec<u8> = Vec::new();
        append_tagged_markets(&mut direction, &source_markets, 0);
        append_tagged_markets(&mut direction, &destination_markets, 1);
        let branch: u8 = match objective_branch {
            RateObjectiveBranch::Portfolio => 0,
            RateObjectiveBranch::Controllable => 1,
        };
        direction.push(branch);
        append_bytes(&mut direction, &config_revision.to_bytes());
        append_bytes(&mut direction, &topology_revision.to_bytes());
        let direction_hash = keccak256(direction.as_slice());
        let mut identity = direction;
        append_bytes(&mut identity, &vault.0.to_bytes());
        append_bytes(&mut identity, &rate_group.0.to_bytes());
        append_bytes(&mut identity, &U256::from_u64(detection_block.number).low_bytes(8));
        Ok(
            RateSignalEpisode {
                episode_id: EpisodeId(keccak256(identity.as_slice())),
                vault,
                rate_group,
                state: RateEpisodeState::Detecting,
                stop_reason: None,
                objective_branch,
                detection_block,
                confirmation_block: None,
                last_observation_block: Some(detection_block),
                consecutive_observations: 1,
                config_revision,
                topology_revision,
                evaluation_markets,
                controllable_markets,
                source_markets,
                destination_markets,
                direction_hash,
                baseline_desired_movement: Assets::zero(),
                immediate_budget: Assets::zero(),
                confirmed_movement: Assets::zero(),
                pending_movement: Assets::zero(),
                independent_events: Vec::new(),
                started_at,
                expires_at,
            },
        )
    }

    /// Freezes successful short confirmation and enables immediate optimization.
    ///
    /// The episode freezes the full search budget; the rate solver applies the configured tranche
    /// only after it has found the untruncated optimum.
    pub fn confirm_short(&mut self, block: BlockRef, baseline_desired_movement: Assets) -> (r:
        Result<(), EpisodeError>)
        ensures
            (final(self)@, r) == old(self)@.short_confirmed(block, baseline_desired_movement),
    {
        if self.state == RateEpisodeState::Complete {
            return Err(EpisodeError::Complete);
        }
        if self.state != RateEpisodeState::Detecting || baseline_desired_movement.0.is_zero() {
            return Err(EpisodeError::InvalidBudget);
        }
        self.baseline_desired_movement = baseline_desired_movement;
        self.immediate_budget = baseline_desired_movement;
        self.confirmation_block = Some(block);
        self.last_observation_block = Some(block);
        self.state = RateEpisodeState::Immediate;
        Ok(())
    }

    /// Records a newer exact canonical endpoint and confirms after the required block span.
    ///
    /// The canonical ingestion owner proves every intervening block before calling this method;
    /// requiring an exact snapshot at every intermediate opportunity would make confirmation
    /// depend on RPC polling cadence rather than elapsed canonical chain time.
    pub fn observe_short_confirmation(
        &mut self,
        block: BlockRef,
        required_opportunities: u64,
        baseline_desired_movement: Assets,
    ) -> (r: Result<bool, EpisodeError>)
        ensures
            (final(self)@, r) == old(self)@.observed(
                block,
                required_opportunities,
                baseline_desired_movement,
            ),
    {
        if self.state == RateEpisodeState::Complete {
            return Err(EpisodeError::Complete);
        }
        if self.state != RateEpisodeState::Detecting {
            return Ok(true);
        }
        let required_span: u64 = if required_opportunities == 0 {
            1
        } else {
            required_opportunities
        };
        if self.consecutive_observations >= required_span {
            self.confirm_short(block, baseline_desired_movement)?;
            return Ok(true);
        }
        let previous = match self.last_observation_block {
            Some(block) => block,
            None => self.detection_block,
        };
        if block == previous {
            return Ok(false);
        }
        if block.number <= previous.number || block.timestamp < previous.timestamp || (block.number
            - previous.number == 1 && block.parent_hash != previous.hash) {
            return Err(EpisodeError::NonConsecutiveObservation);
        }
        self.last_observation_block = Some(block);
        let distance: u64 = match block.number.checked_sub(self.detection_block.number) {
            Some(distance) => distance,
            None => return Err(EpisodeError::ObservationOverflow),
        };
        let covered: u64 = match distance.checked_add(1) {
            Some(covered) => covered,
            None => return Err(EpisodeError::ObservationOverflow),
        };
        self.consecutive_observations = covered;
        if covered >= required_span {
            self.confirm_short(block, baseline_desired_movement)?;
            return Ok(true);
        }
        Ok(false)
    }

    fn unspent_of(&self, budget: U256) -> (r: Result<U256, EpisodeError>)
        ensures
            r == self@.unspent(budget),
    {
        broadcast use group_u256;

        let unconfirmed = budget.checked_sub(self.confirmed_movement.0).ok_or(
            EpisodeError::BudgetExceeded,
        )?;
        unconfirmed.checked_sub(self.pending_movement.0).ok_or(EpisodeError::BudgetExceeded)
    }

    /// Returns the remaining currently unlocked movement in asset units.
    pub fn available_budget(&self) -> (r: Result<U256, EpisodeError>)
        ensures
            r == self@.available(),
    {
        let maximum = match self.state {
            RateEpisodeState::Detecting | RateEpisodeState::Complete => U256::zero(),
            RateEpisodeState::Immediate => self.immediate_budget.0,
            RateEpisodeState::Persistent => self.baseline_desired_movement.0,
        };
        self.unspent_of(maximum)
    }

    /// Returns the full remaining episode movement before the per-plan tranche.
    ///
    /// This amount is deliberately independent of the currently unlocked state:
    /// the solver must first find the best full movement, and only then apply the
    /// configured percentage and the unlocked cumulative ceiling.
    pub fn remaining_budget(&self) -> (r: Result<U256, EpisodeError>)
        ensures
            r == self@.remaining(),
    {
        self.unspent_of(self.baseline_desired_movement.0)
    }

    /// Reserves unresolved movement without rearming the frozen budget.
    pub fn reserve_pending(&mut self, movement: U256) -> (r: Result<(), EpisodeError>)
        ensures
            (final(self)@, r) == old(self)@.reserved(movement),
    {
        let available = self.available_budget()?;
        if available.lt(movement) {
            return Err(EpisodeError::BudgetExceeded);
        }
        let pending = self.pending_movement.0.checked_add(movement).ok_or(
            EpisodeError::BudgetExceeded,
        )?;
        self.pending_movement = Assets(pending);
        Ok(())
    }

    /// Releases one exact unresolved movement after a terminal pre-confirmation outcome.
    pub fn release_pending(&mut self, movement: U256) -> (r: Result<(), EpisodeError>)
        ensures
            (final(self)@, r) == old(self)@.released(movement),
    {
        let pending = self.pending_movement.0.checked_sub(movement).ok_or(
            EpisodeError::BudgetExceeded,
        )?;
        self.pending_movement = Assets(pending);
        Ok(())
    }

    /// Moves resolved pending assets to confirmed cumulative movement.
    pub fn confirm_pending(&mut self, movement: U256) -> (r: Result<(), EpisodeError>)
        ensures
            (final(self)@, r) == old(self)@.settled(movement),
    {
        self.release_pending(movement)?;
        let confirmed = self.confirmed_movement.0.checked_add(movement).ok_or(
            EpisodeError::BudgetExceeded,
        )?;
        self.confirmed_movement = Assets(confirmed);
        Ok(())
    }

    /// Restores a previously confirmed transaction movement to pending after its canonical
    /// inclusion is orphaned. The reservation's pre-movement budget identifies whether the
    /// transaction was authorized by the immediate or persistent tranche.
    pub fn reopen_confirmed(&mut self, movement: U256, budget_before: U256) -> (r: Result<
        (),
        EpisodeError,
    >)
        ensures
            (final(self)@, r) == old(self)@.reopened(movement, budget_before),
    {
        let confirmed = self.confirmed_movement.0.checked_sub(movement).ok_or(
            EpisodeError::BudgetExceeded,
        )?;
        self.confirmed_movement = Assets(confirmed);
        let pending = self.pending_movement.0.checked_add(movement).ok_or(
            EpisodeError::BudgetExceeded,
        )?;
        self.pending_movement = Assets(pending);
        let immediate_available_before = self.immediate_budget.0.checked_sub(confirmed).ok_or(
            EpisodeError::BudgetExceeded,
        )?;
        self.state =
        if budget_before.le(immediate_available_before) {
            RateEpisodeState::Immediate
        } else {
            RateEpisodeState::Persistent
        };
        self.stop_reason = None;
        Ok(())
    }

    /// Unlocks the persistent tranche after an externally verified time or event path.
    pub fn unlock_persistent(&mut self) -> (r: Result<(), EpisodeError>)
        ensures
            (final(self)@, r) == old(self)@.persisted(),
    {
        if self.state == RateEpisodeState::Complete {
            return Err(EpisodeError::Complete);
        }
        self.state = RateEpisodeState::Persistent;
        Ok(())
    }

    fn is_recorded(&self, transaction_hash: B256) -> (r: bool)
        ensures
            r == self@.records(transaction_hash),
    {
        let mut i: usize = 0;
        while i < self.independent_events.len()
            invariant
                i <= self.independent_events.len(),
                forall|k: int|
                    0 <= k < i ==> (#[trigger] self.independent_events@[k]).transaction_hash
                        != transaction_hash,
            decreases self.independent_events.len() - i,
        {
            if self.independent_events[i].transaction_hash == transaction_hash {
                assert(self@.independent_events[i as int].transaction_hash == transaction_hash);
                return true;
            }
            i = i + 1;
        }
        false
    }

    /// Adds one exact non-bot event after short confirmation. Replaying an already-recorded
    /// transaction is idempotent; observations otherwise cannot move backwards.
    pub fn record_independent_event(&mut self, event: IndependentRateEvent) -> (r: Result<
        bool,
        EpisodeError,
    >)
        ensures
            (final(self)@, r) == old(self)@.event_recorded(event),
    {
        if self.state == RateEpisodeState::Complete {
            return Err(EpisodeError::Complete);
        }
        let confirmation = match self.confirmation_block {
            Some(block) => block,
            None => return Err(EpisodeError::NonConsecutiveObservation),
        };
        if event.block.number <= confirmation.number {
            return Err(EpisodeError::NonConsecutiveObservation);
        }
        if self.is_recorded(event.transaction_hash) {
            return Ok(false);
        }
        let count: usize = self.independent_events.len();
        if count > 0 {
            let last = self.independent_events[count - 1];
            if event.block.number < last.block.number || (event.block.number == last.block.number
                && event.block.hash != last.block.hash) || event.block.timestamp
                < last.block.timestamp {
                return Err(EpisodeError::NonConsecutiveObservation);
            }
        }
        self.independent_events.push(event);
        Ok(true)
    }

    /// Returns whether distinct qualifying transactions cover the configured canonical span.
    #[must_use]
    pub fn independent_confirmation_ready(
        &self,
        minimum_events: u32,
        minimum_span_seconds: u64,
    ) -> (r: bool)
        ensures
            r == self@.event_confirmed(minimum_events, minimum_span_seconds),
    {
        let count: usize = self.independent_events.len();
        if count == 0 {
            return false;
        }
        let first = self.independent_events[0];
        let last = self.independent_events[count - 1];
        let span: u64 = if last.block.timestamp < first.block.timestamp {
            0
        } else {
            last.block.timestamp - first.block.timestamp
        };
        count as u64 <= u32::MAX as u64 && count as u64 >= minimum_events as u64 && span
            >= minimum_span_seconds
    }

    /// Drops observations from an orphaned suffix during canonical rewind.
    pub fn rewind_independent_events(&mut self, ancestor: BlockRef)
        ensures
            final(self)@ == old(self)@.rewound(ancestor),
    {
        let mut kept: Vec<IndependentRateEvent> = Vec::new();
        let mut i: usize = 0;
        while i < self.independent_events.len()
            invariant
                i <= self.independent_events.len(),
                *self == *old(self),
                kept_events_from(self.independent_events@, ancestor, 0, Seq::empty())
                    == kept_events_from(self.independent_events@, ancestor, i as int, kept@),
            decreases self.independent_events.len() - i,
        {
            let event = self.independent_events[i];
            if event.block.number < ancestor.number || (event.block.number == ancestor.number
                && event.block.hash == ancestor.hash) {
                kept.push(event);
            }
            i = i + 1;
        }
        self.independent_events = kept;
    }

    /// Verifies subset-only direction compatibility and the frozen branch.
    pub fn validate_direction(
        &self,
        branch: RateObjectiveBranch,
        sources: &OrderedSet<MarketId>,
        destinations: &OrderedSet<MarketId>,
    ) -> (r: Result<(), EpisodeError>)
        ensures
            r == (if self@.admits_direction(branch, sources@, destinations@) {
                Ok::<(), EpisodeError>(())
            } else {
                Err(EpisodeError::DirectionChanged)
            }),
    {
        if branch != self.objective_branch || !sources.is_subset(&self.source_markets)
            || !destinations.is_subset(&self.destination_markets) || !sources.is_disjoint(
            destinations,
        ) {
            return Err(EpisodeError::DirectionChanged);
        }
        Ok(())
    }

    /// Terminates the episode; completion never rearms budgets.
    pub fn complete(&mut self, reason: RateEpisodeStopReason)
        ensures
            final(self)@ == old(self)@.completed(reason),
    {
        self.state = RateEpisodeState::Complete;
        self.stop_reason = Some(reason);
    }
}

/// Releasing what was reserved restores the episode.
pub proof fn release_undoes_reservation(episode: EpisodeView, movement: U256)
    requires
        episode.reserved(movement).1 is Ok,
    ensures
        episode.reserved(movement).0.released(movement) == (episode, Ok::<(), EpisodeError>(())),
{
    broadcast use group_u256;

}

/// A reservation takes exactly its movement off the available budget, and confirming it later
/// takes nothing more: movement is never counted twice and never rearms the budget.
pub proof fn movement_is_charged_once(episode: EpisodeView, movement: U256)
    requires
        episode.reserved(movement).1 is Ok,
    ensures
        ({
            let reserved = episode.reserved(movement).0;
            let (confirmed, outcome) = reserved.settled(movement);
            &&& reserved.available() is Ok
            &&& reserved.available()->Ok_0@ == episode.available()->Ok_0@ - movement@
            &&& outcome is Ok
            &&& confirmed.available() == reserved.available()
            &&& confirmed.remaining() == reserved.remaining()
            &&& confirmed.pending_movement == episode.pending_movement
            &&& confirmed.confirmed_movement.0@ == episode.confirmed_movement.0@ + movement@
        }),
{
    broadcast use group_u256;

}

/// Reopening what was confirmed restores pending and confirmed movement.
pub proof fn reopening_undoes_confirmation(
    episode: EpisodeView,
    movement: U256,
    budget_before: U256,
)
    requires
        episode.settled(movement).1 is Ok,
        episode.confirmed_movement.0@ <= episode.immediate_budget.0@,
    ensures
        ({
            let (reopened, outcome) = episode.settled(movement).0.reopened(movement, budget_before);
            &&& outcome is Ok
            &&& reopened.pending_movement == episode.pending_movement
            &&& reopened.confirmed_movement == episode.confirmed_movement
        }),
{
    broadcast use group_u256;

}

/// A complete episode offers no movement and refuses every forward transition unchanged.
pub proof fn completion_is_terminal(
    episode: EpisodeView,
    reason: RateEpisodeStopReason,
    block: BlockRef,
    required: u64,
    baseline: Assets,
    event: IndependentRateEvent,
    movement: U256,
)
    ensures
        ({
            let complete = episode.completed(reason);
            &&& complete.short_confirmed(block, baseline) == (
                complete,
                Err::<(), EpisodeError>(EpisodeError::Complete),
            )
            &&& complete.observed(block, required, baseline) == (
                complete,
                Err::<bool, EpisodeError>(EpisodeError::Complete),
            )
            &&& complete.persisted() == (complete, Err::<(), EpisodeError>(EpisodeError::Complete))
            &&& complete.event_recorded(event) == (
                complete,
                Err::<bool, EpisodeError>(EpisodeError::Complete),
            )
            &&& complete.available() is Ok ==> complete.available()->Ok_0@ == 0
            &&& movement@ > 0 ==> complete.reserved(movement) == (
                complete,
                Err::<(), EpisodeError>(EpisodeError::BudgetExceeded),
            )
            &&& complete.baseline_desired_movement == episode.baseline_desired_movement
            &&& complete.confirmed_movement == episode.confirmed_movement
            &&& complete.pending_movement == episode.pending_movement
        }),
{
    broadcast use group_u256;

}

/// Recording one transaction again changes nothing.
pub proof fn event_replay_is_idempotent(episode: EpisodeView, event: IndependentRateEvent)
    requires
        episode.event_recorded(event).1 == Ok::<bool, EpisodeError>(true),
    ensures
        ({
            let recorded = episode.event_recorded(event).0;
            recorded.event_recorded(event) == (recorded, Ok::<bool, EpisodeError>(false))
        }),
{
    let recorded = episode.event_recorded(event).0;
    assert(recorded.independent_events.last() == event);
    assert(recorded.independent_events[recorded.independent_events.len() - 1].transaction_hash
        == event.transaction_hash);
}

spec fn all_survive(events: Seq<IndependentRateEvent>, ancestor: BlockRef, from: int) -> bool {
    forall|i: int| from <= i < events.len() ==> event_survives(#[trigger] events[i], ancestor)
}

proof fn lemma_kept_events(
    events: Seq<IndependentRateEvent>,
    ancestor: BlockRef,
    from: int,
    kept: Seq<IndependentRateEvent>,
)
    requires
        0 <= from <= events.len(),
        forall|i: int| 0 <= i < kept.len() ==> event_survives(#[trigger] kept[i], ancestor),
    ensures
        forall|i: int|
            0 <= i < kept_events_from(events, ancestor, from, kept).len() ==> event_survives(
                #[trigger] kept_events_from(events, ancestor, from, kept)[i],
                ancestor,
            ),
        all_survive(events, ancestor, from) ==> kept_events_from(events, ancestor, from, kept)
            == kept + events.skip(from),
    decreases events.len() - from,
{
    let all = kept_events_from(events, ancestor, from, kept);
    if from < events.len() {
        let next = if event_survives(events[from], ancestor) {
            kept.push(events[from])
        } else {
            kept
        };
        assert forall|i: int| 0 <= i < next.len() implies event_survives(
            #[trigger] next[i],
            ancestor,
        ) by {
            if i < kept.len() {
                assert(event_survives(kept[i], ancestor));
            }
        }
        lemma_kept_events(events, ancestor, from + 1, next);
        assert(all == kept_events_from(events, ancestor, from + 1, next));
        assert(kept.push(events[from]) + events.skip(from + 1) =~= kept + events.skip(from));
    } else {
        assert(all == kept);
        assert(kept + events.skip(from) =~= kept);
    }
}

/// A rewind keeps only canonical events, and rewinding again changes nothing.
pub proof fn rewind_keeps_canonical_events(episode: EpisodeView, ancestor: BlockRef)
    ensures
        forall|i: int|
            0 <= i < episode.rewound(ancestor).independent_events.len() ==> event_survives(
                #[trigger] episode.rewound(ancestor).independent_events[i],
                ancestor,
            ),
        episode.rewound(ancestor).rewound(ancestor) == episode.rewound(ancestor),
{
    let once = episode.rewound(ancestor);
    lemma_kept_events(episode.independent_events, ancestor, 0, Seq::empty());
    lemma_kept_events(once.independent_events, ancestor, 0, Seq::empty());
    assert(Seq::<IndependentRateEvent>::empty() + once.independent_events.skip(0)
        =~= once.independent_events);
}

/// What may be moved, what is pending and what is confirmed together are the budget of the state:
/// nothing while detecting or complete, the immediate budget after short confirmation, the baseline
/// after persistent confirmation.
pub proof fn budget_follows_the_state(episode: EpisodeView, budget: nat)
    requires
        episode.state == RateEpisodeState::Detecting ==> budget == 0,
        episode.state == RateEpisodeState::Complete ==> budget == 0,
        episode.state == RateEpisodeState::Immediate ==> budget == episode.immediate_budget.0@,
        episode.state == RateEpisodeState::Persistent ==> budget
            == episode.baseline_desired_movement.0@,
    ensures
        ({
            let moved = episode.confirmed_movement.0@ + episode.pending_movement.0@;
            let whole = episode.baseline_desired_movement.0@;
            &&& episode.available() is Ok <==> moved <= budget
            &&& episode.available() is Ok ==> episode.available()->Ok_0@ + moved == budget
            &&& episode.remaining() is Ok <==> moved <= whole
            &&& episode.remaining() is Ok ==> episode.remaining()->Ok_0@ + moved == whole
        }),
{
    broadcast use group_u256;

}

/// Movement is reserved exactly where the budget of the state covers it together with all movement
/// confirmed and pending, and is then added to what is pending.
pub proof fn reservations_stay_within_the_budget(episode: EpisodeView, movement: U256, budget: nat)
    requires
        episode.state == RateEpisodeState::Detecting ==> budget == 0,
        episode.state == RateEpisodeState::Complete ==> budget == 0,
        episode.state == RateEpisodeState::Immediate ==> budget == episode.immediate_budget.0@,
        episode.state == RateEpisodeState::Persistent ==> budget
            == episode.baseline_desired_movement.0@,
    ensures
        ({
            let (next, outcome) = episode.reserved(movement);
            &&& outcome is Ok <==> episode.confirmed_movement.0@ + episode.pending_movement.0@
                + movement@ <= budget
            &&& outcome is Ok ==> next.pending_movement.0@ == episode.pending_movement.0@
                + movement@
            &&& next.confirmed_movement == episode.confirmed_movement
            &&& next.state == episode.state
            &&& outcome is Err ==> next == episode
        }),
{
    broadcast use group_u256;

    lemma_u256_range(episode.immediate_budget.0);
    lemma_u256_range(episode.baseline_desired_movement.0);
}

/// Short confirmation happens once, out of detection, for a positive movement, and opens the immediate
/// budget at that movement.
pub proof fn short_confirmation_opens_the_immediate_budget(
    episode: EpisodeView,
    block: BlockRef,
    baseline: Assets,
)
    ensures
        ({
            let (next, outcome) = episode.short_confirmed(block, baseline);
            &&& outcome is Ok <==> episode.state == RateEpisodeState::Detecting && baseline.0@ > 0
            &&& outcome is Ok ==> next.state == RateEpisodeState::Immediate
                && next.confirmation_block == Some(block) && next.immediate_budget == baseline
                && next.baseline_desired_movement == baseline
            &&& outcome is Err ==> next == episode
            &&& next.confirmed_movement == episode.confirmed_movement
            &&& next.pending_movement == episode.pending_movement
            &&& next.direction_hash == episode.direction_hash
        }),
{
}

/// An observation confirms a detecting episode exactly where the blocks seen since detection, both
/// ends included, cover the required span, or did before; and every new observation is a later block
/// that, directly behind the last one, names it as its parent.
pub proof fn observations_confirm_over_the_span(
    episode: EpisodeView,
    block: BlockRef,
    required: u64,
    baseline: Assets,
)
    requires
        episode.state == RateEpisodeState::Detecting,
        baseline.0@ > 0,
    ensures
        ({
            let (next, outcome) = episode.observed(block, required, baseline);
            let last = match episode.last_observation_block {
                Some(seen) => seen,
                None => episode.detection_block,
            };
            let already = episode.consecutive_observations >= required
                && episode.consecutive_observations >= 1;
            let follows = block.number > last.number && block.timestamp >= last.timestamp && (
            block.number == last.number + 1 ==> block.parent_hash == last.hash);
            let covered = block.number - episode.detection_block.number + 1;
            &&& outcome == Ok::<bool, EpisodeError>(true) <==> already || (block != last && follows
                && 1 <= covered <= u64::MAX && covered >= required)
            &&& outcome == Ok::<bool, EpisodeError>(true) <==> next.state
                == RateEpisodeState::Immediate
            &&& outcome == Ok::<bool, EpisodeError>(true) ==> next.confirmation_block == Some(block)
                && next.immediate_budget == baseline
            &&& !already && block == last ==> next == episode && outcome
                == Ok::<bool, EpisodeError>(false)
            &&& !already && block != last && !follows ==> next == episode && outcome is Err
            &&& !already && block != last && follows && 1 <= covered < required
                ==> next.last_observation_block == Some(block) && next.consecutive_observations
                == covered && outcome == Ok::<bool, EpisodeError>(false)
        }),
{
}

/// An event is recorded behind the ones before it, once per transaction, and only in a live episode
/// after its confirmation block.
pub proof fn events_are_recorded_in_order(episode: EpisodeView, event: IndependentRateEvent)
    ensures
        ({
            let (next, outcome) = episode.event_recorded(event);
            let events = episode.independent_events;
            let last = events[events.len() - 1].block;
            let live = episode.state != RateEpisodeState::Complete && episode.confirmation_block
                is Some && event.block.number > episode.confirmation_block->Some_0.number;
            let known = exists|i: int|
                0 <= i < events.len() && (#[trigger] events[i]).transaction_hash
                    == event.transaction_hash;
            let behind = events.len() == 0 || event.block.number > last.number
                && event.block.timestamp >= last.timestamp || event.block.number == last.number
                && event.block.hash == last.hash && event.block.timestamp >= last.timestamp;
            &&& outcome == Ok::<bool, EpisodeError>(true) <==> live && !known && behind
            &&& outcome == Ok::<bool, EpisodeError>(false) <==> live && known
            &&& outcome == Ok::<bool, EpisodeError>(true) ==> next.independent_events
                == events.push(event)
            &&& outcome != Ok::<bool, EpisodeError>(true) ==> next == episode
        }),
{
}

/// Events confirm an episode exactly where there are enough of them and the last is late enough
/// behind the first.
pub proof fn events_confirm_over_count_and_span(
    episode: EpisodeView,
    minimum_events: u32,
    minimum_span: u64,
)
    requires
        episode.independent_events.len() <= u32::MAX,
    ensures
        ({
            let events = episode.independent_events;
            let first = events[0].block.timestamp;
            let last = events[events.len() - 1].block.timestamp;
            episode.event_confirmed(minimum_events, minimum_span) <==> events.len() > 0
                && events.len() >= minimum_events && (minimum_span == 0 || first + minimum_span
                <= last)
        }),
{
}

/// A reopened episode waits for its movement again, under the immediate budget exactly where that
/// budget, less what stays confirmed, covered what was available before.
pub proof fn reopening_restores_the_budget_of_the_time(
    episode: EpisodeView,
    movement: U256,
    budget_before: U256,
)
    requires
        episode.reopened(movement, budget_before).1 is Ok,
    ensures
        ({
            let next = episode.reopened(movement, budget_before).0;
            &&& next.confirmed_movement.0@ + movement@ == episode.confirmed_movement.0@
            &&& next.pending_movement.0@ == episode.pending_movement.0@ + movement@
            &&& next.stop_reason is None
            &&& next.state == RateEpisodeState::Immediate || next.state
                == RateEpisodeState::Persistent
            &&& next.state == RateEpisodeState::Immediate <==> budget_before@
                + next.confirmed_movement.0@ <= episode.immediate_budget.0@
        }),
{
    broadcast use group_u256;

}

/// A candidate is admitted exactly where it keeps the branch, its markets are markets of the frozen
/// direction on their own side, and no market is on both sides.
pub proof fn admitted_candidates_keep_the_direction(
    episode: EpisodeView,
    branch: RateObjectiveBranch,
    sources: Seq<MarketId>,
    destinations: Seq<MarketId>,
)
    requires
        strictly_increasing(episode.source_markets),
        strictly_increasing(episode.destination_markets),
        strictly_increasing(destinations),
    ensures
        episode.admits_direction(branch, sources, destinations) <==> {
            &&& branch == episode.objective_branch
            &&& forall|i: int|
                0 <= i < sources.len() ==> episode.source_markets.contains(#[trigger] sources[i])
            &&& forall|i: int|
                0 <= i < destinations.len() ==> episode.destination_markets.contains(
                    #[trigger] destinations[i],
                )
            &&& forall|i: int|
                0 <= i < sources.len() ==> !destinations.contains(#[trigger] sources[i])
        },
{
    assert forall|i: int| 0 <= i < sources.len() implies has_key(
        episode.source_markets,
        #[trigger] sources[i],
    ) == episode.source_markets.contains(sources[i]) && has_key(destinations, sources[i])
        == destinations.contains(sources[i]) by {
        has_key_is_membership(episode.source_markets, sources[i]);
        has_key_is_membership(destinations, sources[i]);
    }
    assert forall|i: int| 0 <= i < destinations.len() implies has_key(
        episode.destination_markets,
        #[trigger] destinations[i],
    ) == episode.destination_markets.contains(destinations[i]) by {
        has_key_is_membership(episode.destination_markets, destinations[i]);
    }
}

proof fn lemma_survivors_kept(
    events: Seq<IndependentRateEvent>,
    ancestor: BlockRef,
    from: int,
    kept: Seq<IndependentRateEvent>,
)
    requires
        0 <= from <= events.len(),
    ensures
        forall|i: int|
            from <= i < events.len() && ((#[trigger] events[i]).block.number < ancestor.number
                || events[i].block.hash == ancestor.hash && events[i].block.number
                == ancestor.number) ==> kept_events_from(events, ancestor, from, kept).contains(
                events[i],
            ),
        forall|i: int|
            0 <= i < kept.len() ==> kept_events_from(events, ancestor, from, kept).contains(
                #[trigger] kept[i],
            ),
        forall|e: IndependentRateEvent|
            kept_events_from(events, ancestor, from, kept).contains(e) ==> kept.contains(e) || (
            events.contains(e) && (e.block.number < ancestor.number || e.block.hash == ancestor.hash
                && e.block.number == ancestor.number)),
    decreases events.len() - from,
{
    if from < events.len() {
        let next = if event_survives(events[from], ancestor) {
            kept.push(events[from])
        } else {
            kept
        };
        lemma_survivors_kept(events, ancestor, from + 1, next);
        assert(forall|i: int| 0 <= i < kept.len() ==> #[trigger] kept[i] == next[i]);
        assert(event_survives(events[from], ancestor) ==> next[kept.len() as int] == events[from]);
        assert forall|e: IndependentRateEvent| next.contains(e) implies kept.contains(e) || e
            == events[from] by {
            let i = choose|i: int| 0 <= i < next.len() && next[i] == e;
            if i < kept.len() {
                assert(kept[i] == e);
            }
        }
    }
}

/// A rewind drops an event exactly where its block is above the ancestor, or at its height with
/// another hash.
pub proof fn rewind_drops_only_orphaned_events(
    episode: EpisodeView,
    ancestor: BlockRef,
    event: IndependentRateEvent,
)
    ensures
        episode.rewound(ancestor).independent_events.contains(event)
            <==> episode.independent_events.contains(event) && (event.block.number < ancestor.number
            || event.block.hash == ancestor.hash && event.block.number == ancestor.number),
{
    lemma_survivors_kept(episode.independent_events, ancestor, 0, Seq::empty());
    if episode.independent_events.contains(event) {
        let i = choose|i: int|
            0 <= i < episode.independent_events.len() && episode.independent_events[i] == event;
        assert(episode.independent_events[i] == event);
    }
}

} // verus!
