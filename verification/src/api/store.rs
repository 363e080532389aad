//! Artifact cache behind the read-only operator API.
//!
//! The state owner is the only snapshot and rate writer; planning updates are accepted only against
//! the exact cached snapshot and monotonically by planner generation.

use vstd::prelude::*;

use crate::collections::{ordered_entries, value_of, value_of_with_value, with_value, OrderedMap};
use crate::domain::{BlockRef, ExactVaultSnapshot, PlanId, StateContext, V2Plan, VaultAddress};
use crate::planner::episodes::RateSignalEpisode;
use crate::primitives::B256;

use super::dto::{RateSnapshotView, TransactionSummary, TransactionView};

verus! {

/// Cached artifacts of one vault.
pub struct VaultArtifacts {
    /// Chain that the artifacts belong to.
    pub chain_id: Option<u64>,
    /// Canonical branch generation.
    pub canonical_state_epoch: u64,
    /// Latest exact snapshot with its rate view.
    pub publication: Option<ApiStatePublication>,
    /// Latest semantic plan.
    pub plan: Option<V2Plan>,
    /// Current rate episode.
    pub episode: Option<RateSignalEpisode>,
}

impl VaultArtifacts {
    /// No artifact.
    pub open spec fn vacant() -> VaultArtifacts {
        VaultArtifacts {
            chain_id: None,
            canonical_state_epoch: 0,
            publication: None,
            plan: None,
            episode: None,
        }
    }

    /// The cached exact snapshot.
    pub open spec fn held_snapshot(self) -> Option<ExactVaultSnapshot> {
        match self.publication {
            Some(publication) => Some(publication@.snapshot),
            None => None,
        }
    }

    /// The cached rate view.
    pub open spec fn held_rates(self) -> Option<RateSnapshotView> {
        match self.publication {
            Some(publication) => Some(publication@.rates),
            None => None,
        }
    }

    fn empty() -> (r: Self)
        ensures
            r == VaultArtifacts::vacant(),
    {
        VaultArtifacts {
            chain_id: None,
            canonical_state_epoch: 0,
            publication: None,
            plan: None,
            episode: None,
        }
    }
}

/// Artifacts by vault.
pub type Artifacts = Seq<(VaultAddress, VaultArtifacts)>;

/// The artifacts of a vault, vacant where none are stored.
pub open spec fn artifacts_of(entries: Artifacts, vault: VaultAddress) -> VaultArtifacts {
    match value_of(entries, vault) {
        Some(artifacts) => artifacts,
        None => VaultArtifacts::vacant(),
    }
}

/// Opaque ownership token for one vault's current canonical API branch.
///
/// A canonical-state producer captures this token before publishing. Reorg reset advances the
/// epoch, so a delayed producer from the orphaned branch cannot repopulate the cache.
#[derive(Clone, Copy, Debug, PartialEq, Eq, Structural)]
pub struct ApiStateEpoch {
    chain_id: u64,
    vault: VaultAddress,
    generation: u64,
}

/// What an ownership token stands for.
pub ghost struct EpochView {
    /// EVM chain ID.
    pub chain_id: u64,
    /// Parent vault.
    pub vault: VaultAddress,
    /// Canonical branch generation.
    pub generation: u64,
}

impl View for ApiStateEpoch {
    type V = EpochView;

    closed spec fn view(&self) -> EpochView {
        EpochView { chain_id: self.chain_id, vault: self.vault, generation: self.generation }
    }
}

/// What an optional token stands for.
pub open spec fn epoch_view(epoch: Option<ApiStateEpoch>) -> Option<EpochView> {
    match epoch {
        Some(token) => Some(token@),
        None => None,
    }
}

/// One state-owner-validated publication consisting of an exact base snapshot and its canonical
/// time projection.
///
/// Atomic-latest providers can return an exact snapshot at block `S` shortly before canonical
/// ingestion reaches block `H`. The state owner may publish rates projected to `H` only after it
/// has established that `S` is canonical and no relevant event in `(S, H]` invalidates the base
/// snapshot. Keeping `H` explicit prevents an arbitrary mismatched rate view from being treated as
/// if it belonged to the exact snapshot block.
pub struct ApiStatePublication {
    snapshot: ExactVaultSnapshot,
    rates: RateSnapshotView,
    projection_block: BlockRef,
}

/// What a publication holds.
pub ghost struct PublicationView {
    /// Exact base snapshot.
    pub snapshot: ExactVaultSnapshot,
    /// Derived rate view.
    pub rates: RateSnapshotView,
    /// Validated canonical projection block.
    pub projection_block: BlockRef,
}

impl View for ApiStatePublication {
    type V = PublicationView;

    closed spec fn view(&self) -> PublicationView {
        PublicationView {
            snapshot: self.snapshot,
            rates: self.rates,
            projection_block: self.projection_block,
        }
    }
}

/// Whether a rate view may be published with a snapshot: its block is the projection block, which is
/// the snapshot's block or a later one that is not earlier in time.
pub open spec fn projection_valid(
    snapshot: ExactVaultSnapshot,
    rates: RateSnapshotView,
    projection_block: BlockRef,
) -> bool {
    &&& projection_block.number > snapshot.context.block.number || projection_block
        == snapshot.context.block
    &&& projection_block.timestamp >= snapshot.context.block.timestamp
    &&& rates.block == projection_block
}

fn is_projection_valid(
    snapshot: &ExactVaultSnapshot,
    rates: &RateSnapshotView,
    projection_block: BlockRef,
) -> (r: bool)
    ensures
        r == projection_valid(*snapshot, *rates, projection_block),
{
    let snapshot_block = snapshot.context.block;
    let follows = projection_block.number > snapshot_block.number || projection_block
        == snapshot_block;
    follows && projection_block.timestamp >= snapshot_block.timestamp && rates.block
        == projection_block
}

impl ApiStatePublication {
    /// Whether the rate view belongs to the snapshot.
    pub open spec fn wf(&self) -> bool {
        projection_valid(self@.snapshot, self@.rates, self@.projection_block)
    }

    /// Binds one exact snapshot to the later canonical block validated by the state owner.
    pub fn from_validated_projection(
        snapshot: ExactVaultSnapshot,
        rates: RateSnapshotView,
        projection_block: BlockRef,
    ) -> (r: Option<Self>)
        ensures
            match r {
                Some(publication) => projection_valid(snapshot, rates, projection_block)
                    && publication@ == (PublicationView { snapshot, rates, projection_block })
                    && publication.wf(),
                None => !projection_valid(snapshot, rates, projection_block),
            },
    {
        if !is_projection_valid(&snapshot, &rates, projection_block) {
            return None;
        }
        Some(ApiStatePublication { snapshot, rates, projection_block })
    }

    /// Consumes the publication into its exact base snapshot, derived rate view, and validated
    /// canonical projection block.
    pub fn into_parts(self) -> (r: (ExactVaultSnapshot, RateSnapshotView, BlockRef))
        ensures
            r == (self@.snapshot, self@.rates, self@.projection_block),
    {
        (self.snapshot, self.rates, self.projection_block)
    }

    /// Lends the exact base snapshot, derived rate view, and validated canonical projection block.
    pub fn parts(&self) -> (r: (&ExactVaultSnapshot, &RateSnapshotView, BlockRef))
        ensures
            *r.0 == self@.snapshot,
            *r.1 == self@.rates,
            r.2 == self@.projection_block,
    {
        (&self.snapshot, &self.rates, self.projection_block)
    }
}

/// Whether a chain ID is the one that artifacts belong to, or they belong to none yet.
pub open spec fn chain_admits(artifacts: VaultArtifacts, chain_id: u64) -> bool {
    artifacts.chain_id is None || artifacts.chain_id == Some(chain_id)
}

fn admits_chain(artifacts: &VaultArtifacts, chain_id: u64) -> (r: bool)
    ensures
        r == chain_admits(*artifacts, chain_id),
{
    match artifacts.chain_id {
        Some(existing) => existing == chain_id,
        None => true,
    }
}

/// Artifacts and token after an epoch is captured.
pub open spec fn epoch_captured(entries: Artifacts, chain_id: u64, vault: VaultAddress) -> (
    Artifacts,
    Option<EpochView>,
) {
    let artifacts = artifacts_of(entries, vault);
    if chain_admits(artifacts, chain_id) {
        (
            with_value(
                entries,
                vault,
                VaultArtifacts { chain_id: Some(chain_id), ..artifacts },
            ),
            Some(EpochView { chain_id, vault, generation: artifacts.canonical_state_epoch }),
        )
    } else {
        (with_value(entries, vault, artifacts), None)
    }
}

/// Artifacts and token after a proven reorg.
pub open spec fn rewound(entries: Artifacts, chain_id: u64, vault: VaultAddress) -> (
    Artifacts,
    Option<EpochView>,
) {
    let artifacts = artifacts_of(entries, vault);
    let next = artifacts.canonical_state_epoch + 1;
    if chain_admits(artifacts, chain_id) && next <= u64::MAX {
        (
            with_value(
                entries,
                vault,
                VaultArtifacts {
                    chain_id: Some(chain_id),
                    canonical_state_epoch: next as u64,
                    ..VaultArtifacts::vacant()
                },
            ),
            Some(EpochView { chain_id, vault, generation: next as u64 }),
        )
    } else {
        (with_value(entries, vault, artifacts), None)
    }
}

/// Whether a publication belongs to the vault and chain of an epoch.
pub open spec fn publication_owned(epoch: EpochView, publication: PublicationView) -> bool {
    let vault = VaultAddress(publication.snapshot.parent.vault);
    &&& publication.snapshot.context.chain_id == epoch.chain_id
    &&& vault == epoch.vault
    &&& publication.rates.vault == vault
    &&& publication.rates.snapshot_hash == publication.snapshot.snapshot_hash
    &&& publication.rates.block == publication.projection_block
}

/// Whether a block replaces another without going back or changing branch.
pub open spec fn block_advances(current: BlockRef, next: BlockRef) -> bool {
    current.number < next.number || (current.number == next.number && current.hash == next.hash)
}

/// Whether artifacts accept a publication of an epoch.
pub open spec fn publication_current(
    artifacts: VaultArtifacts,
    epoch: EpochView,
    publication: PublicationView,
) -> bool {
    &&& artifacts.chain_id == Some(epoch.chain_id)
    &&& artifacts.canonical_state_epoch == epoch.generation
    &&& match artifacts.publication {
        Some(current) => {
            &&& block_advances(
                current@.snapshot.context.block,
                publication.snapshot.context.block,
            )
            &&& block_advances(current@.rates.block, publication.projection_block)
        },
        None => true,
    }
}

/// Whether a plan was made in a snapshot's exact context.
pub open spec fn plan_in_context(plan: V2Plan, context: StateContext) -> bool {
    &&& plan.snapshot == context
    &&& plan.config_revision == context.static_config_revision
    &&& plan.topology_revision == context.dynamic_topology_revision
}

fn is_plan_in_context(plan: &V2Plan, context: StateContext) -> (r: bool)
    ensures
        r == plan_in_context(*plan, context),
{
    plan.snapshot == context && plan.config_revision == context.static_config_revision
        && plan.topology_revision == context.dynamic_topology_revision
}

/// Artifacts after a publication, and whether it was accepted.
pub open spec fn published(
    entries: Artifacts,
    epoch: EpochView,
    publication: ApiStatePublication,
) -> (Artifacts, bool) {
    if !publication_owned(epoch, publication@) {
        (entries, false)
    } else {
        let vault = epoch.vault;
        let artifacts = artifacts_of(entries, vault);
        if !publication_current(artifacts, epoch, publication@) {
            (with_value(entries, vault, artifacts), false)
        } else {
            let plan = match artifacts.plan {
                Some(plan) => if plan_in_context(plan, publication@.snapshot.context) {
                    Some(plan)
                } else {
                    None
                },
                None => None,
            };
            (
                with_value(
                    entries,
                    vault,
                    VaultArtifacts { publication: Some(publication), plan, ..artifacts },
                ),
                true,
            )
        }
    }
}

/// The publication of a vault that a reader may rely on.
pub open spec fn validated(entries: Artifacts, vault: VaultAddress) -> Option<
    ApiStatePublication,
> {
    let artifacts = artifacts_of(entries, vault);
    match (artifacts.chain_id, artifacts.publication) {
        (Some(chain_id), Some(publication)) => {
            let held = publication@;
            if held.snapshot.context.chain_id == chain_id && held.snapshot.parent.vault == vault.0
                && held.rates.vault == vault && held.rates.snapshot_hash
                == held.snapshot.snapshot_hash && publication.wf() {
                Some(publication)
            } else {
                None
            }
        },
        _ => None,
    }
}

/// Whether a plan is not older than the current one of its vault.
pub open spec fn plan_not_stale(current: Option<V2Plan>, plan: V2Plan) -> bool {
    match current {
        None => true,
        Some(current) => {
            let earlier = current.snapshot.block.number < plan.snapshot.block.number || (
            current.snapshot.block.number == plan.snapshot.block.number
                && current.planner_generation < plan.planner_generation);
            let same = current.snapshot.block.number == plan.snapshot.block.number
                && current.planner_generation == plan.planner_generation;
            earlier || (same && current.plan_id == plan.plan_id)
        },
    }
}

/// Artifacts after a plan is offered, and whether it was accepted.
pub open spec fn planned(entries: Artifacts, plan: V2Plan) -> (Artifacts, bool) {
    let artifacts = artifacts_of(entries, plan.vault);
    let matches_snapshot = match artifacts.publication {
        Some(publication) => plan_in_context(plan, publication@.snapshot.context),
        None => false,
    };
    if matches_snapshot && plan_not_stale(artifacts.plan, plan) {
        (
            with_value(entries, plan.vault, VaultArtifacts { plan: Some(plan), ..artifacts }),
            true,
        )
    } else {
        (with_value(entries, plan.vault, artifacts), false)
    }
}

/// Artifacts without a plan that a condition selects, and whether one was removed.
pub open spec fn plan_cleared(entries: Artifacts, vault: VaultAddress, selected: bool) -> (
    Artifacts,
    bool,
) {
    match value_of(entries, vault) {
        None => (entries, false),
        Some(artifacts) => if selected {
            (with_value(entries, vault, VaultArtifacts { plan: None, ..artifacts }), true)
        } else {
            (with_value(entries, vault, artifacts), false)
        },
    }
}

/// Whether the stored plan of a vault has an identifier.
pub open spec fn has_plan_id(entries: Artifacts, vault: VaultAddress, plan_id: PlanId) -> bool {
    match artifacts_of(entries, vault).plan {
        Some(plan) => plan.plan_id == plan_id,
        None => false,
    }
}

/// Whether the stored plan of a vault is no newer than a block and planner generation.
pub open spec fn has_plan_through(
    entries: Artifacts,
    vault: VaultAddress,
    block_number: u64,
    planner_generation: u64,
) -> bool {
    match artifacts_of(entries, vault).plan {
        Some(plan) => plan.snapshot.block.number <= block_number && plan.planner_generation
            <= planner_generation,
        None => false,
    }
}

/// Transactions with the first `count` durable summaries under their vaults' revisions.
pub open spec fn summarized<S: Copy>(
    summaries: Seq<TransactionSummary<S>>,
    revisions: Seq<(VaultAddress, u64)>,
    count: int,
) -> Seq<(B256, TransactionView<S>)>
    decreases count,
{
    if count <= 0 {
        Seq::empty()
    } else {
        let summary = summaries[count - 1];
        with_value(
            summarized(summaries, revisions, count - 1),
            summary.transaction_hash,
            TransactionView {
                transaction_hash: summary.transaction_hash,
                state: summary.state,
                included_block: summary.included_block,
                revision: match value_of(revisions, summary.vault) {
                    Some(revision) => revision,
                    None => 0,
                },
            },
        )
    }
}

/// Mutable-by-runtime, read-only-over-HTTP artifact cache.
///
/// All vault-scoped artifacts share one owner so a reader never combines values from different
/// generations.
pub struct ApiDataStore<S: Copy> {
    vaults: OrderedMap<VaultAddress, VaultArtifacts>,
    transactions: OrderedMap<B256, TransactionView<S>>,
}

impl<S: Copy> ApiDataStore<S> {
    /// Artifacts by vault.
    pub closed spec fn artifacts(&self) -> Artifacts {
        self.vaults@
    }

    /// Transaction summaries by hash.
    pub closed spec fn summaries(&self) -> Seq<(B256, TransactionView<S>)> {
        self.transactions@
    }

    /// Whether artifacts are in vault order.
    pub open spec fn wf(&self) -> bool {
        ordered_entries(self.artifacts())
    }

    /// An empty cache.
    pub fn new() -> (r: Self)
        ensures
            r.wf(),
            r.artifacts() == Seq::<(VaultAddress, VaultArtifacts)>::empty(),
            r.summaries() == Seq::<(B256, TransactionView<S>)>::empty(),
    {
        ApiDataStore { vaults: OrderedMap::new(), transactions: OrderedMap::new() }
    }

    /// Captures the current canonical-state epoch for one configured chain and vault.
    pub fn state_epoch(&mut self, chain_id: u64, vault: VaultAddress) -> (r: Option<ApiStateEpoch>)
        requires
            old(self).wf(),
        ensures
            (final(self).artifacts(), epoch_view(r)) == epoch_captured(
                old(self).artifacts(),
                chain_id,
                vault,
            ),
            final(self).summaries() == old(self).summaries(),
            final(self).wf(),
    {
        let artifacts = self.vaults.get_or_insert(vault, VaultArtifacts::empty());
        if !admits_chain(artifacts, chain_id) {
            return None;
        }
        artifacts.chain_id = Some(chain_id);
        Some(ApiStateEpoch { chain_id, vault, generation: artifacts.canonical_state_epoch })
    }

    /// Clears canonical vault artifacts and advances their branch epoch after a proven reorg.
    ///
    /// The returned epoch is the only one accepted for later state publication. Advancing before
    /// replay allows a valid lower-height replacement to publish without allowing delayed writers
    /// from the orphaned branch to restore their snapshots.
    pub fn rewind_vault(&mut self, chain_id: u64, vault: VaultAddress) -> (r: Option<
        ApiStateEpoch,
    >)
        requires
            old(self).wf(),
        ensures
            (final(self).artifacts(), epoch_view(r)) == rewound(
                old(self).artifacts(),
                chain_id,
                vault,
            ),
            final(self).summaries() == old(self).summaries(),
            final(self).wf(),
    {
        let artifacts = self.vaults.get_or_insert(vault, VaultArtifacts::empty());
        if !admits_chain(artifacts, chain_id) {
            return None;
        }
        let next_epoch: u64 = match artifacts.canonical_state_epoch.checked_add(1) {
            Some(next) => next,
            None => return None,
        };
        artifacts.chain_id = Some(chain_id);
        artifacts.canonical_state_epoch = next_epoch;
        artifacts.publication = None;
        artifacts.plan = None;
        artifacts.episode = None;
        Some(ApiStateEpoch { chain_id, vault, generation: next_epoch })
    }

    /// Atomically publishes one exact snapshot and its derived rate view.
    ///
    /// Older blocks, branch conflicts, mismatched rate identities and obsolete reorg epochs are
    /// rejected so a delayed producer cannot overwrite the current canonical API generation.
    pub fn record_state(&mut self, epoch: ApiStateEpoch, publication: ApiStatePublication) -> (r:
        bool)
        requires
            old(self).wf(),
        ensures
            (final(self).artifacts(), r) == published(old(self).artifacts(), epoch@, publication),
            final(self).summaries() == old(self).summaries(),
            final(self).wf(),
    {
        let (snapshot, rates, projection_block) = publication.parts();
        let context = snapshot.context;
        let vault = VaultAddress(snapshot.parent.vault);
        if context.chain_id != epoch.chain_id || vault != epoch.vault || rates.vault != vault
            || rates.snapshot_hash != snapshot.snapshot_hash || rates.block != projection_block {
            return false;
        }
        let artifacts = self.vaults.get_or_insert(vault, VaultArtifacts::empty());
        let same_branch = match artifacts.chain_id {
            Some(chain_id) => chain_id == epoch.chain_id,
            None => false,
        } && artifacts.canonical_state_epoch == epoch.generation;
        let advanced = match &artifacts.publication {
            Some(current) => advances(current.snapshot.context.block, context.block) && advances(
                current.rates.block,
                projection_block,
            ),
            None => true,
        };
        if !same_branch || !advanced {
            return false;
        }
        let plan_kept = match &artifacts.plan {
            Some(plan) => is_plan_in_context(plan, context),
            None => true,
        };
        if !plan_kept {
            artifacts.plan = None;
        }
        artifacts.publication = Some(publication);
        true
    }

    /// Returns one consistent state-owner publication for a configured vault.
    ///
    /// Callers that need both the exact base snapshot and its later projection context use this
    /// reader instead of reading both separately. It also fails closed if an in-memory invariant is
    /// ever violated.
    pub fn validated_state(&self, vault: VaultAddress) -> (r: Option<&ApiStatePublication>)
        ensures
            match r {
                Some(publication) => validated(self.artifacts(), vault) == Some(*publication),
                None => validated(self.artifacts(), vault) is None,
            },
    {
        let artifacts = match self.vaults.get_ref(vault) {
            Some(artifacts) => artifacts,
            None => return None,
        };
        match (artifacts.chain_id, &artifacts.publication) {
            (Some(chain_id), Some(publication)) => {
                let (snapshot, rates, projection_block) = publication.parts();
                if snapshot.context.chain_id != chain_id || snapshot.parent.vault != vault.0
                    || rates.vault != vault || rates.snapshot_hash != snapshot.snapshot_hash
                    || !is_projection_valid(snapshot, rates, projection_block) {
                    return None;
                }
                Some(publication)
            },
            _ => None,
        }
    }

    /// Returns the artifacts of one configured vault.
    pub fn vault(&self, vault: VaultAddress) -> (r: Option<&VaultArtifacts>)
        ensures
            match r {
                Some(artifacts) => value_of(self.artifacts(), vault) == Some(*artifacts),
                None => value_of(self.artifacts(), vault) is None,
            },
    {
        self.vaults.get_ref(vault)
    }

    /// Returns the latest exact snapshot for one configured vault.
    pub fn snapshot(&self, vault: VaultAddress) -> (r: Option<&ExactVaultSnapshot>)
        ensures
            match r {
                Some(snapshot) => artifacts_of(self.artifacts(), vault).held_snapshot() == Some(
                    *snapshot,
                ),
                None => artifacts_of(self.artifacts(), vault).held_snapshot() is None,
            },
    {
        match self.vaults.get_ref(vault) {
            Some(artifacts) => match &artifacts.publication {
                Some(publication) => Some(&publication.snapshot),
                None => None,
            },
            None => None,
        }
    }

    /// Returns the latest immutable rate view for one configured vault.
    pub fn rates(&self, vault: VaultAddress) -> (r: Option<&RateSnapshotView>)
        ensures
            match r {
                Some(rates) => artifacts_of(self.artifacts(), vault).held_rates() == Some(*rates),
                None => artifacts_of(self.artifacts(), vault).held_rates() is None,
            },
    {
        match self.vaults.get_ref(vault) {
            Some(artifacts) => match &artifacts.publication {
                Some(publication) => Some(&publication.rates),
                None => None,
            },
            None => None,
        }
    }

    /// Publishes a plan only for the exact current snapshot and a non-stale planner generation.
    pub fn record_plan(&mut self, plan: V2Plan) -> (r: bool)
        requires
            old(self).wf(),
        ensures
            (final(self).artifacts(), r) == planned(old(self).artifacts(), plan),
            final(self).summaries() == old(self).summaries(),
            final(self).wf(),
    {
        let artifacts = self.vaults.get_or_insert(plan.vault, VaultArtifacts::empty());
        let snapshot_matches = match &artifacts.publication {
            Some(publication) => is_plan_in_context(&plan, publication.snapshot.context),
            None => false,
        };
        let plan_is_current = match &artifacts.plan {
            None => true,
            Some(current) => {
                let current_block: u64 = current.snapshot.block.number;
                let block: u64 = plan.snapshot.block.number;
                current_block < block || (current_block == block && (current.planner_generation
                    < plan.planner_generation || (current.planner_generation
                    == plan.planner_generation && current.plan_id == plan.plan_id)))
            },
        };
        if !snapshot_matches || !plan_is_current {
            return false;
        }
        artifacts.plan = Some(plan);
        true
    }

    /// Returns the latest semantic plan for one configured vault.
    pub fn plan(&self, vault: VaultAddress) -> (r: Option<&V2Plan>)
        ensures
            match r {
                Some(plan) => artifacts_of(self.artifacts(), vault).plan == Some(*plan),
                None => artifacts_of(self.artifacts(), vault).plan is None,
            },
    {
        match self.vaults.get_ref(vault) {
            Some(artifacts) => artifacts.plan.as_ref(),
            None => None,
        }
    }

    /// Removes only the exact plan observed by a caller before it began asynchronous work.
    pub fn clear_plan_if(&mut self, vault: VaultAddress, plan_id: PlanId) -> (r: bool)
        requires
            old(self).wf(),
        ensures
            (final(self).artifacts(), r) == plan_cleared(
                old(self).artifacts(),
                vault,
                has_plan_id(old(self).artifacts(), vault, plan_id),
            ),
            final(self).summaries() == old(self).summaries(),
            final(self).wf(),
    {
        proof {
            if value_of(self.artifacts(), vault) is Some {
                assert forall|artifacts: VaultArtifacts| #[trigger]
                    ordered_entries(with_value(self.artifacts(), vault, artifacts)) by {
                    value_of_with_value(self.artifacts(), vault, artifacts, vault);
                }
            }
        }
        let artifacts = match self.vaults.get_mut(vault) {
            Some(artifacts) => artifacts,
            None => return false,
        };
        let selected = match &artifacts.plan {
            Some(plan) => plan.plan_id == plan_id,
            None => false,
        };
        if selected {
            artifacts.plan = None;
        }
        selected
    }

    /// Removes plans no newer than one completed planning generation and snapshot block.
    pub fn clear_plan_through(
        &mut self,
        vault: VaultAddress,
        block_number: u64,
        planner_generation: u64,
    ) -> (r: bool)
        requires
            old(self).wf(),
        ensures
            (final(self).artifacts(), r) == plan_cleared(
                old(self).artifacts(),
                vault,
                has_plan_through(old(self).artifacts(), vault, block_number, planner_generation),
            ),
            final(self).summaries() == old(self).summaries(),
            final(self).wf(),
    {
        proof {
            if value_of(self.artifacts(), vault) is Some {
                assert forall|artifacts: VaultArtifacts| #[trigger]
                    ordered_entries(with_value(self.artifacts(), vault, artifacts)) by {
                    value_of_with_value(self.artifacts(), vault, artifacts, vault);
                }
            }
        }
        let artifacts = match self.vaults.get_mut(vault) {
            Some(artifacts) => artifacts,
            None => return false,
        };
        let selected = match &artifacts.plan {
            Some(plan) => plan.snapshot.block.number <= block_number && plan.planner_generation
                <= planner_generation,
            None => false,
        };
        if selected {
            artifacts.plan = None;
        }
        selected
    }

    /// Replaces the latest rate episode for one vault.
    pub fn record_episode(&mut self, episode: RateSignalEpisode)
        requires
            old(self).wf(),
        ensures
            final(self).artifacts() == with_value(
                old(self).artifacts(),
                episode.vault,
                (VaultArtifacts {
                    episode: Some(episode),
                    ..artifacts_of(old(self).artifacts(), episode.vault)
                }),
            ),
            final(self).summaries() == old(self).summaries(),
            final(self).wf(),
    {
        let artifacts = self.vaults.get_or_insert(episode.vault, VaultArtifacts::empty());
        artifacts.episode = Some(episode);
    }

    /// Returns the latest rate episode for one configured vault.
    pub fn episode(&self, vault: VaultAddress) -> (r: Option<&RateSignalEpisode>)
        ensures
            match r {
                Some(episode) => artifacts_of(self.artifacts(), vault).episode == Some(*episode),
                None => artifacts_of(self.artifacts(), vault).episode is None,
            },
    {
        match self.vaults.get_ref(vault) {
            Some(artifacts) => artifacts.episode.as_ref(),
            None => None,
        }
    }

    /// Replaces one transaction summary keyed only by a known signed hash.
    pub fn record_transaction(&mut self, transaction: TransactionView<S>)
        ensures
            final(self).summaries() == with_value(
                old(self).summaries(),
                transaction.transaction_hash,
                transaction,
            ),
            final(self).artifacts() == old(self).artifacts(),
    {
        self.transactions.insert(transaction.transaction_hash, transaction);
    }

    /// Rebuilds the complete transaction cache from durable summaries and vault revisions.
    pub fn refresh_transactions(
        &mut self,
        summaries: &Vec<TransactionSummary<S>>,
        revisions: &OrderedMap<VaultAddress, u64>,
    )
        ensures
            final(self).summaries() == summarized(
                summaries@,
                revisions@,
                summaries@.len() as int,
            ),
            final(self).artifacts() == old(self).artifacts(),
    {
        let mut transactions: OrderedMap<B256, TransactionView<S>> = OrderedMap::new();
        let mut i: usize = 0;
        while i < summaries.len()
            invariant
                i <= summaries.len(),
                transactions@ == summarized(summaries@, revisions@, i as int),
            decreases summaries.len() - i,
        {
            let summary = summaries[i];
            let revision: u64 = match revisions.get(summary.vault) {
                Some(revision) => revision,
                None => 0,
            };
            transactions.insert(
                summary.transaction_hash,
                TransactionView {
                    transaction_hash: summary.transaction_hash,
                    state: summary.state,
                    included_block: summary.included_block,
                    revision,
                },
            );
            i = i + 1;
        }
        self.transactions = transactions;
    }

    /// Returns one transaction summary.
    pub fn transaction(&self, hash: B256) -> (r: Option<TransactionView<S>>)
        ensures
            r == value_of(self.summaries(), hash),
    {
        self.transactions.get(hash)
    }

    /// Returns every durable signed transaction in deterministic hash order.
    pub fn transactions(&self) -> (r: Vec<TransactionView<S>>)
        ensures
            r@ == Seq::new(self.summaries().len(), |i: int| self.summaries()[i].1),
    {
        let mut views: Vec<TransactionView<S>> = Vec::new();
        let ghost all = Seq::new(self.summaries().len(), |i: int| self.summaries()[i].1);
        let mut i: usize = 0;
        while i < self.transactions.len()
            invariant
                i <= self.transactions@.len(),
                all == Seq::new(self.summaries().len(), |j: int| self.summaries()[j].1),
                views@ == all.subrange(0, i as int),
            decreases self.transactions@.len() - i,
        {
            views.push(self.transactions.at(i).1);
            i = i + 1;
            assert(views@ =~= all.subrange(0, i as int));
        }
        assert(views@ =~= all);
        views
    }
}

fn advances(current: BlockRef, next: BlockRef) -> (r: bool)
    ensures
        r == block_advances(current, next),
{
    current.number < next.number || (current.number == next.number && current.hash == next.hash)
}

/// After a reorg reset no publication is read, and one under any epoch but the new one is refused.
pub proof fn orphaned_epochs_are_refused(
    entries: Artifacts,
    chain_id: u64,
    vault: VaultAddress,
    stale: EpochView,
    publication: ApiStatePublication,
)
    requires
        ordered_entries(entries),
        rewound(entries, chain_id, vault).1 is Some,
        stale.vault == vault,
        Some(stale) != rewound(entries, chain_id, vault).1,
    ensures
        validated(rewound(entries, chain_id, vault).0, vault) is None,
        !published(rewound(entries, chain_id, vault).0, stale, publication).1,
{
    let artifacts = artifacts_of(entries, vault);
    let reset = VaultArtifacts {
        chain_id: Some(chain_id),
        canonical_state_epoch: (artifacts.canonical_state_epoch + 1) as u64,
        ..VaultArtifacts::vacant()
    };
    value_of_with_value(entries, vault, reset, vault);
}

/// An accepted publication never moves a vault's snapshot back or to another branch, and keeps no
/// plan of another context.
pub proof fn accepted_publications_advance(
    entries: Artifacts,
    epoch: EpochView,
    publication: ApiStatePublication,
)
    requires
        ordered_entries(entries),
        published(entries, epoch, publication).1,
    ensures
        ({
            let before = artifacts_of(entries, epoch.vault);
            let after = artifacts_of(
                published(entries, epoch, publication).0,
                epoch.vault,
            );
            &&& after.publication == Some(publication)
            &&& before.publication is Some ==> block_advances(
                before.publication->0@.snapshot.context.block,
                publication@.snapshot.context.block,
            )
            &&& after.plan is Some ==> after.plan == before.plan && plan_in_context(
                after.plan->0,
                publication@.snapshot.context,
            )
        }),
{
    let artifacts = artifacts_of(entries, epoch.vault);
    let plan = match artifacts.plan {
        Some(plan) => if plan_in_context(plan, publication@.snapshot.context) {
            Some(plan)
        } else {
            None
        },
        None => None,
    };
    value_of_with_value(
        entries,
        epoch.vault,
        VaultArtifacts { publication: Some(publication), plan, ..artifacts },
        epoch.vault,
    );
}

/// An accepted publication is the one that is read back.
pub proof fn accepted_publication_is_read_back(
    entries: Artifacts,
    epoch: EpochView,
    publication: ApiStatePublication,
)
    requires
        ordered_entries(entries),
        publication.wf(),
        published(entries, epoch, publication).1,
    ensures
        validated(published(entries, epoch, publication).0, epoch.vault) == Some(publication),
{
    accepted_publications_advance(entries, epoch, publication);
    let after = published(entries, epoch, publication).0;
    assert forall|held: VaultArtifacts| #[trigger]
        with_value(entries, epoch.vault, held) == after implies artifacts_of(after, epoch.vault)
        == held by {
        value_of_with_value(entries, epoch.vault, held, epoch.vault);
    }
}

/// A plan is accepted only in the exact context of the cached snapshot, and is then the one read
/// back.
pub proof fn accepted_plan_matches_the_snapshot(entries: Artifacts, plan: V2Plan)
    requires
        ordered_entries(entries),
        planned(entries, plan).1,
    ensures
        ({
            let before = artifacts_of(entries, plan.vault);
            &&& before.publication is Some
            &&& plan_in_context(plan, before.publication->0@.snapshot.context)
            &&& artifacts_of(planned(entries, plan).0, plan.vault).plan == Some(plan)
        }),
{
    let artifacts = artifacts_of(entries, plan.vault);
    value_of_with_value(
        entries,
        plan.vault,
        VaultArtifacts { plan: Some(plan), ..artifacts },
        plan.vault,
    );
}

/// A publication is accepted exactly where it is of the chain, vault and epoch of its token, its rates
/// are of its snapshot and block, and neither its snapshot nor its projection goes back or changes
/// branch. It then keeps the plan made in exactly its context and no other.
pub proof fn publications_are_accepted_on_their_branch(
    entries: Artifacts,
    epoch: EpochView,
    publication: ApiStatePublication,
)
    requires
        ordered_entries(entries),
    ensures
        ({
            let before = artifacts_of(entries, epoch.vault);
            let (next, accepted) = published(entries, epoch, publication);
            let after = artifacts_of(next, epoch.vault);
            let offered = publication@;
            let old_block = before.publication->0@.snapshot.context.block;
            let new_block = offered.snapshot.context.block;
            let old_rates = before.publication->0@.rates.block;
            let new_rates = offered.projection_block;
            &&& accepted <==> {
                &&& offered.snapshot.context.chain_id == epoch.chain_id
                &&& offered.snapshot.parent.vault == epoch.vault.0
                &&& offered.rates.vault == epoch.vault
                &&& offered.rates.snapshot_hash == offered.snapshot.snapshot_hash
                &&& offered.rates.block == new_rates
                &&& before.chain_id == Some(epoch.chain_id)
                &&& before.canonical_state_epoch == epoch.generation
                &&& before.publication is Some ==> {
                    &&& new_block.number > old_block.number || new_block.number == old_block.number
                        && new_block.hash == old_block.hash
                    &&& new_rates.number > old_rates.number || new_rates.number == old_rates.number
                        && new_rates.hash == old_rates.hash
                }
            }
            &&& accepted ==> after.publication == Some(publication)
            &&& accepted && before.plan is Some ==> {
                let plan = before.plan->0;
                let context = offered.snapshot.context;
                after.plan == (if plan.snapshot == context && plan.config_revision
                    == context.static_config_revision && plan.topology_revision
                    == context.dynamic_topology_revision {
                    Some(plan)
                } else {
                    None
                })
            }
            &&& accepted && before.plan is None ==> after.plan is None
            &&& accepted ==> after.chain_id == before.chain_id && after.canonical_state_epoch
                == before.canonical_state_epoch
            &&& !accepted ==> after == before
        }),
{
    let artifacts = artifacts_of(entries, epoch.vault);
    let kept = match artifacts.plan {
        Some(plan) => if plan_in_context(plan, publication@.snapshot.context) {
            Some(plan)
        } else {
            None
        },
        None => None,
    };
    let held = VaultArtifacts { publication: Some(publication), plan: kept, ..artifacts };
    value_of_with_value(entries, epoch.vault, held, epoch.vault);
    value_of_with_value(entries, epoch.vault, artifacts, epoch.vault);
}

/// A plan is accepted exactly where it was made in the context of the cached snapshot and the cached
/// plan is of an earlier block, of an earlier generation at the same block, or the same plan.
pub proof fn plans_are_accepted_in_context_and_order(entries: Artifacts, plan: V2Plan)
    requires
        ordered_entries(entries),
    ensures
        ({
            let before = artifacts_of(entries, plan.vault);
            let (next, accepted) = planned(entries, plan);
            let after = artifacts_of(next, plan.vault);
            let context = before.publication->0@.snapshot.context;
            let current = before.plan->0;
            let height = plan.snapshot.block.number;
            &&& accepted <==> {
                &&& before.publication is Some
                &&& plan.snapshot == context
                &&& plan.config_revision == context.static_config_revision
                &&& plan.topology_revision == context.dynamic_topology_revision
                &&& before.plan is Some ==> current.snapshot.block.number < height || (
                current.snapshot.block.number == height && (current.planner_generation
                    < plan.planner_generation || current.planner_generation
                    == plan.planner_generation && current.plan_id == plan.plan_id))
            }
            &&& accepted ==> after.plan == Some(plan) && after.publication == before.publication
            &&& !accepted ==> after == before
        }),
{
    let artifacts = artifacts_of(entries, plan.vault);
    value_of_with_value(
        entries,
        plan.vault,
        VaultArtifacts { plan: Some(plan), ..artifacts },
        plan.vault,
    );
    value_of_with_value(entries, plan.vault, artifacts, plan.vault);
}

/// A proven reorg forgets snapshot, rates and plan of the vault and begins the next epoch; capturing
/// an epoch forgets nothing. Both refuse another chain.
pub proof fn reorgs_begin_the_next_epoch(entries: Artifacts, chain_id: u64, vault: VaultAddress)
    requires
        ordered_entries(entries),
    ensures
        ({
            let before = artifacts_of(entries, vault);
            let foreign = before.chain_id is Some && before.chain_id != Some(chain_id);
            let (rewound_entries, token) = rewound(entries, chain_id, vault);
            let (captured_entries, current) = epoch_captured(entries, chain_id, vault);
            let after = artifacts_of(rewound_entries, vault);
            let kept = artifacts_of(captured_entries, vault);
            &&& token is Some <==> !foreign && before.canonical_state_epoch < u64::MAX
            &&& token is Some ==> {
                &&& token->0.chain_id == chain_id && token->0.vault == vault
                &&& token->0.generation == before.canonical_state_epoch + 1
                &&& after.chain_id == Some(chain_id)
                &&& after.canonical_state_epoch == before.canonical_state_epoch + 1
                &&& after.publication is None && after.plan is None
            }
            &&& token is None ==> after == before
            &&& current is Some <==> !foreign
            &&& current is Some ==> {
                &&& current->0.chain_id == chain_id && current->0.vault == vault
                &&& current->0.generation == before.canonical_state_epoch
                &&& kept.chain_id == Some(chain_id)
                &&& kept.canonical_state_epoch == before.canonical_state_epoch
                &&& kept.publication == before.publication && kept.plan == before.plan
            }
        }),
{
    let artifacts = artifacts_of(entries, vault);
    let reset = VaultArtifacts {
        chain_id: Some(chain_id),
        canonical_state_epoch: (artifacts.canonical_state_epoch + 1) as u64,
        ..VaultArtifacts::vacant()
    };
    value_of_with_value(entries, vault, reset, vault);
    value_of_with_value(entries, vault, artifacts, vault);
    value_of_with_value(
        entries,
        vault,
        VaultArtifacts { chain_id: Some(chain_id), ..artifacts },
        vault,
    );
}

/// Clearing removes exactly the plan of the vault that the condition selects.
pub proof fn clearing_removes_only_the_plan(
    entries: Artifacts,
    vault: VaultAddress,
    selected: bool,
)
    requires
        ordered_entries(entries),
        value_of(entries, vault) is Some,
    ensures
        ({
            let before = artifacts_of(entries, vault);
            let (next, cleared) = plan_cleared(entries, vault, selected);
            let after = artifacts_of(next, vault);
            &&& cleared == selected
            &&& after.plan == (if selected {
                None
            } else {
                before.plan
            })
            &&& after.publication == before.publication
            &&& after.canonical_state_epoch == before.canonical_state_epoch
            &&& after.chain_id == before.chain_id
        }),
{
    let artifacts = value_of(entries, vault)->0;
    value_of_with_value(entries, vault, VaultArtifacts { plan: None, ..artifacts }, vault);
    value_of_with_value(entries, vault, artifacts, vault);
}

} // verus!
