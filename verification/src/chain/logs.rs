//! Strict decoding of watched protocol events and transaction-level causal facts.

use vstd::prelude::*;

use crate::collections::{has_key, with_key, OrderedSet};
use crate::config::{ValidatedAdapterConfig, ValidatedConfig, ValidatedPositionConfig, VaultView};
use crate::domain::{
    bytes_equal, AdapterAddress, CapId, MarketId, PositionKey, TokenAddress, VaultAddress,
};
use crate::primitives::{Address, B256};
use crate::protocol_lock::{IdentityKind, ValidatedContractIdentity, ValidatedProtocolLock};

use super::heads::{transfer_signature, transfer_topic};

verus! {

/// Raw log data from an identified canonical block.
#[derive(Debug)]
pub struct RawEventLog {
    /// Emitting contract.
    pub address: Address,
    /// Complete ordered topics.
    pub topics: Vec<B256>,
    /// Uninterpreted event data.
    pub data: Vec<u8>,
}

/// Expected contract role used to select the exact event interface.
#[derive(Clone, Copy, Debug, PartialEq, Eq, Structural)]
pub enum EventSource {
    /// Managed parent Vault V2.
    Vault(VaultAddress),
    /// Managed direct adapter.
    Adapter(AdapterAddress),
    /// Configured Morpho singleton.
    Morpho(Address),
    /// Configured Adaptive Curve IRM.
    AdaptiveCurveIrm(Address),
    /// Vault asset token.
    Token(TokenAddress),
}

/// Exact Vault V2 event family.
#[derive(Clone, Copy, Debug, PartialEq, Eq, Structural)]
pub enum VaultEventKind {
    /// ERC-4626 deposit.
    Deposit,
    /// ERC-4626 withdrawal.
    Withdraw,
    /// Allocator supply action.
    Allocate,
    /// Allocator withdrawal action.
    Deallocate,
    /// Native force-deallocation path.
    ForceDeallocate,
    /// Parent interest accrual.
    AccrueInterest,
    /// Absolute cap increase.
    IncreaseAbsoluteCap,
    /// Absolute cap decrease.
    DecreaseAbsoluteCap,
    /// Relative cap increase.
    IncreaseRelativeCap,
    /// Relative cap decrease.
    DecreaseRelativeCap,
    /// Adapter addition.
    AddAdapter,
    /// Adapter removal.
    RemoveAdapter,
    /// Registry change.
    SetAdapterRegistry,
    /// Liquidity adapter change.
    SetLiquidityAdapterAndData,
    /// Max-rate change.
    SetMaxRate,
    /// Allocator role change.
    SetIsAllocator,
    /// Sentinel role change.
    SetIsSentinel,
    /// Curator change.
    SetCurator,
    /// Force-deallocation penalty change.
    SetForceDeallocatePenalty,
    /// Performance fee change.
    SetPerformanceFee,
    /// Management fee change.
    SetManagementFee,
    /// Performance recipient change.
    SetPerformanceFeeRecipient,
    /// Management recipient change.
    SetManagementFeeRecipient,
    /// Receive-shares gate change.
    SetReceiveSharesGate,
    /// Send-shares gate change.
    SetSendSharesGate,
    /// Receive-assets gate change.
    SetReceiveAssetsGate,
    /// Send-assets gate change.
    SetSendAssetsGate,
    /// Delayed operation submitted.
    Submit,
    /// Delayed operation revoked.
    Revoke,
    /// Delayed operation accepted.
    Accept,
    /// Timelock increase.
    IncreaseTimelock,
    /// Timelock decrease.
    DecreaseTimelock,
    /// Selector abdication.
    Abdicate,
}

/// Exact direct-adapter event family.
#[derive(Clone, Copy, Debug, PartialEq, Eq, Structural)]
pub enum AdapterEventKind {
    /// Direct market supply.
    Allocate,
    /// Direct market withdrawal.
    Deallocate,
    /// Tracked supply-share burn.
    BurnShares,
    /// Skim-recipient change.
    SetSkimRecipient,
    /// Delayed operation submitted.
    Submit,
    /// Delayed operation revoked.
    Revoke,
    /// Delayed operation accepted.
    Accept,
    /// Timelock increase.
    IncreaseTimelock,
    /// Timelock decrease.
    DecreaseTimelock,
    /// Selector abdication.
    Abdicate,
}

/// Exact Morpho singleton event family.
#[derive(Clone, Copy, Debug, PartialEq, Eq, Structural)]
pub enum MorphoEventKind {
    /// Supply.
    Supply,
    /// Withdrawal.
    Withdraw,
    /// Borrow.
    Borrow,
    /// Repayment.
    Repay,
    /// Liquidation or bad-debt realization.
    Liquidate,
    /// Interest accrual.
    AccrueInterest,
    /// Market fee change.
    SetFee,
    /// Global fee-recipient change.
    SetFeeRecipient,
}

/// Typed watched event identity.
#[derive(Clone, Copy, Debug, PartialEq, Eq, Structural)]
pub enum WatchedEventKind {
    /// Vault V2 family.
    Vault(VaultEventKind),
    /// Direct-adapter family.
    Adapter(AdapterEventKind),
    /// Morpho family.
    Morpho(MorphoEventKind),
    /// Adaptive Curve IRM rate update.
    BorrowRateUpdate,
    /// ERC-20 transfer.
    Transfer,
}

/// State invalidated by canonical events. No event-derived balance is authoritative.
#[derive(Clone, Copy, Debug, PartialEq, Eq, Structural)]
pub enum StateInvalidation {
    /// Parent accounting.
    VaultAccounting(VaultAddress),
    /// Parent adapter topology.
    VaultTopology(VaultAddress),
    /// Vault-scoped cap.
    CapState {
        /// Parent vault.
        vault: VaultAddress,
        /// Cap identifier.
        cap: CapId,
    },
    /// Direct adapter state.
    AdapterState(AdapterAddress),
    /// Direct position state.
    PositionState(PositionKey),
    /// Morpho market state.
    MarketState(MarketId),
    /// Shared token liquidity.
    TokenLiquidity(TokenAddress),
    /// Pending administration index for a target.
    PendingAdministration(Address),
    /// Allocator/sentinel roles.
    RoleState(VaultAddress),
    /// Gate state.
    GateState(VaultAddress),
    /// Complete exact refresh for a vault.
    AllForVault(VaultAddress),
}

/// Transaction-level causal attribution.
#[derive(Clone, Copy, Debug, PartialEq, Eq, Structural)]
pub enum FlowOrigin {
    /// Known pending bot transaction.
    BotRebalance,
    /// Native vault user deposit.
    VaultUserDeposit,
    /// Native vault user withdrawal.
    VaultUserWithdrawal,
    /// Native force-deallocation path.
    VaultUserForceDeallocate,
    /// Approved external allocator action.
    ApprovedExternalAllocator,
    /// Unknown external allocator action.
    UnknownExternalAllocator,
    /// Sentinel deallocation.
    SentinelDeallocation,
    /// Curator administration.
    CuratorAdministration,
    /// Owner administration.
    OwnerAdministration,
    /// External Morpho activity.
    MorphoExternalUser,
    /// Direct token donation.
    DirectDonation,
    /// Liquidation or bad debt.
    LiquidationOrBadDebt,
    /// Insufficient evidence.
    Unknown,
}

impl EventSource {
    /// Address of the expected contract.
    pub open spec fn contract(self) -> Address {
        match self {
            EventSource::Vault(address) => address.0,
            EventSource::Adapter(address) => address.0,
            EventSource::Morpho(address) => address,
            EventSource::AdaptiveCurveIrm(address) => address,
            EventSource::Token(address) => address.0,
        }
    }

    fn address(self) -> (r: Address)
        ensures
            r == self.contract(),
    {
        match self {
            EventSource::Vault(address) => address.0,
            EventSource::Adapter(address) => address.0,
            EventSource::Morpho(address) => address,
            EventSource::AdaptiveCurveIrm(address) => address,
            EventSource::Token(address) => address.0,
        }
    }
}

/// Signature topics of the watched event families.
#[derive(Debug)]
pub struct EventSignatures {
    /// Vault V2 events.
    pub vault: Vec<(B256, VaultEventKind)>,
    /// Direct-adapter events.
    pub adapter: Vec<(B256, AdapterEventKind)>,
    /// Morpho singleton events.
    pub morpho: Vec<(B256, MorphoEventKind)>,
    /// Adaptive Curve rate update.
    pub borrow_rate_update: B256,
}

/// First kind from index `from` on that a signature names.
pub open spec fn kind_from<K>(table: Seq<(B256, K)>, signature: B256, from: int) -> Option<K>
    decreases table.len() - from,
{
    if from >= table.len() {
        None
    } else if table[from].0 == signature {
        Some(table[from].1)
    } else {
        kind_from(table, signature, from + 1)
    }
}

/// The event family that a signature names for a contract role.
pub open spec fn kind_of(
    source: EventSource,
    signatures: EventSignatures,
    signature: B256,
) -> Option<WatchedEventKind> {
    match source {
        EventSource::Vault(_) => match kind_from(signatures.vault@, signature, 0) {
            Some(kind) => Some(WatchedEventKind::Vault(kind)),
            None => None,
        },
        EventSource::Adapter(_) => match kind_from(signatures.adapter@, signature, 0) {
            Some(kind) => Some(WatchedEventKind::Adapter(kind)),
            None => None,
        },
        EventSource::Morpho(_) => match kind_from(signatures.morpho@, signature, 0) {
            Some(kind) => Some(WatchedEventKind::Morpho(kind)),
            None => None,
        },
        EventSource::AdaptiveCurveIrm(_) => if signature == signatures.borrow_rate_update {
            Some(WatchedEventKind::BorrowRateUpdate)
        } else {
            None
        },
        EventSource::Token(_) => if signature == transfer_topic() {
            Some(WatchedEventKind::Transfer)
        } else {
            None
        },
    }
}

fn find_kind<K: Copy>(table: &Vec<(B256, K)>, signature: B256) -> (r: Option<K>)
    ensures
        r == kind_from(table@, signature, 0),
{
    let mut i: usize = 0;
    while i < table.len()
        invariant
            i <= table.len(),
            kind_from(table@, signature, 0) == kind_from(table@, signature, i as int),
        decreases table.len() - i,
    {
        if table[i].0 == signature {
            return Some(table[i].1);
        }
        i = i + 1;
    }
    None
}

/// Identifies the event family that a signature names for a contract role.
pub fn identify_event(source: EventSource, signatures: &EventSignatures, signature: B256) -> (r:
    Option<WatchedEventKind>)
    ensures
        r == kind_of(source, *signatures, signature),
{
    match source {
        EventSource::Vault(_) => match find_kind(&signatures.vault, signature) {
            Some(kind) => Some(WatchedEventKind::Vault(kind)),
            None => None,
        },
        EventSource::Adapter(_) => match find_kind(&signatures.adapter, signature) {
            Some(kind) => Some(WatchedEventKind::Adapter(kind)),
            None => None,
        },
        EventSource::Morpho(_) => match find_kind(&signatures.morpho, signature) {
            Some(kind) => Some(WatchedEventKind::Morpho(kind)),
            None => None,
        },
        EventSource::AdaptiveCurveIrm(_) => {
            if signature == signatures.borrow_rate_update {
                Some(WatchedEventKind::BorrowRateUpdate)
            } else {
                None
            }
        },
        EventSource::Token(_) => {
            if signature == transfer_signature() {
                Some(WatchedEventKind::Transfer)
            } else {
                None
            }
        },
    }
}

/// Event re-encoded from its strictly decoded payload.
#[derive(Debug)]
pub struct EventEncoding {
    /// Complete ordered topics.
    pub topics: Vec<B256>,
    /// Event data.
    pub data: Vec<u8>,
}

/// Decoded event plus safe exact-state invalidations.
#[derive(Debug)]
pub struct DecodedEvent {
    /// Expected source role.
    pub source: EventSource,
    /// Exact event identity.
    pub kind: WatchedEventKind,
    /// Exact state that must be refreshed before planning.
    pub invalidations: Vec<StateInvalidation>,
}

/// What a decoded event holds.
pub ghost struct EventView {
    /// Source role.
    pub source: EventSource,
    /// Event identity.
    pub kind: WatchedEventKind,
    /// Invalidations.
    pub invalidations: Seq<StateInvalidation>,
}

impl View for DecodedEvent {
    type V = EventView;

    open spec fn view(&self) -> EventView {
        EventView {
            source: self.source,
            kind: self.kind,
            invalidations: self.invalidations@,
        }
    }
}

/// Event decoding failure retained without mutating authoritative state.
#[derive(Clone, Copy, Debug, PartialEq, Eq, Structural)]
pub enum EventDecodeError {
    /// Source address differs from the watched identity.
    AddressMismatch,
    /// Log has no signature topic.
    MissingSignature,
    /// Signature is not in the exact watched family.
    UnknownSignature(B256),
    /// Topics/data do not strictly decode for the matched official event.
    Malformed(WatchedEventKind),
    /// Generated re-encoding differs from the complete raw event.
    NonCanonical(WatchedEventKind),
}

/// The cap named by a topic, where there is one.
pub open spec fn cap_invalidation(vault: VaultAddress, topics: Seq<B256>, place: int) -> Seq<
    StateInvalidation,
> {
    if place < topics.len() {
        seq![StateInvalidation::CapState { vault, cap: CapId(topics[place]) }]
    } else {
        Seq::empty()
    }
}

/// State that a Vault V2 event invalidates.
pub open spec fn vault_invalidations(
    vault: VaultAddress,
    kind: VaultEventKind,
    topics: Seq<B256>,
) -> Seq<StateInvalidation> {
    match kind {
        VaultEventKind::AddAdapter => seq![StateInvalidation::VaultTopology(vault)],
        VaultEventKind::RemoveAdapter => seq![StateInvalidation::VaultTopology(vault)],
        VaultEventKind::SetAdapterRegistry => seq![StateInvalidation::VaultTopology(vault)],
        VaultEventKind::SetLiquidityAdapterAndData => seq![
            StateInvalidation::VaultTopology(vault),
        ],
        VaultEventKind::SetIsAllocator => seq![StateInvalidation::RoleState(vault)],
        VaultEventKind::SetIsSentinel => seq![StateInvalidation::RoleState(vault)],
        VaultEventKind::SetReceiveSharesGate => seq![StateInvalidation::GateState(vault)],
        VaultEventKind::SetSendSharesGate => seq![StateInvalidation::GateState(vault)],
        VaultEventKind::SetReceiveAssetsGate => seq![StateInvalidation::GateState(vault)],
        VaultEventKind::SetSendAssetsGate => seq![StateInvalidation::GateState(vault)],
        VaultEventKind::IncreaseAbsoluteCap => cap_invalidation(vault, topics, 1),
        VaultEventKind::IncreaseRelativeCap => cap_invalidation(vault, topics, 1),
        VaultEventKind::DecreaseAbsoluteCap => cap_invalidation(vault, topics, 2),
        VaultEventKind::DecreaseRelativeCap => cap_invalidation(vault, topics, 2),
        VaultEventKind::Submit => seq![StateInvalidation::PendingAdministration(vault.0)],
        VaultEventKind::Revoke => seq![StateInvalidation::PendingAdministration(vault.0)],
        VaultEventKind::Accept => seq![StateInvalidation::PendingAdministration(vault.0)],
        _ => seq![StateInvalidation::AllForVault(vault)],
    }
}

/// The market named by the first indexed topic, where there is one.
pub open spec fn market_invalidation(topics: Seq<B256>) -> Seq<StateInvalidation> {
    if topics.len() > 1 {
        seq![StateInvalidation::MarketState(MarketId(topics[1]))]
    } else {
        Seq::empty()
    }
}

/// State that an event of a contract role invalidates.
pub open spec fn invalidations_of(
    source: EventSource,
    kind: WatchedEventKind,
    topics: Seq<B256>,
) -> Seq<StateInvalidation> {
    match (source, kind) {
        (EventSource::Vault(vault), WatchedEventKind::Vault(vault_kind)) => vault_invalidations(
            vault,
            vault_kind,
            topics,
        ),
        (EventSource::Adapter(adapter), WatchedEventKind::Adapter(adapter_kind)) => {
            if adapter_kind == AdapterEventKind::Submit || adapter_kind == AdapterEventKind::Revoke
                || adapter_kind == AdapterEventKind::Accept {
                seq![
                    StateInvalidation::AdapterState(adapter),
                    StateInvalidation::PendingAdministration(adapter.0),
                ]
            } else {
                seq![StateInvalidation::AdapterState(adapter)]
            }
        },
        (EventSource::Morpho(_), WatchedEventKind::Morpho(_)) => market_invalidation(topics),
        (EventSource::AdaptiveCurveIrm(_), WatchedEventKind::BorrowRateUpdate) => {
            market_invalidation(topics)
        },
        (EventSource::Token(token), WatchedEventKind::Transfer) => seq![
            StateInvalidation::TokenLiquidity(token),
        ],
        _ => Seq::empty(),
    }
}

fn one(invalidation: StateInvalidation) -> (r: Vec<StateInvalidation>)
    ensures
        r@ == seq![invalidation],
{
    let list: Vec<StateInvalidation> = vec![invalidation];
    assert(list@ =~= seq![invalidation]);
    list
}

fn cap_at(vault: VaultAddress, topics: &Vec<B256>, place: usize) -> (r: Vec<StateInvalidation>)
    ensures
        r@ == cap_invalidation(vault, topics@, place as int),
{
    if place < topics.len() {
        one(StateInvalidation::CapState { vault, cap: CapId(topics[place]) })
    } else {
        Vec::new()
    }
}

fn market_at(topics: &Vec<B256>) -> (r: Vec<StateInvalidation>)
    ensures
        r@ == market_invalidation(topics@),
{
    if topics.len() > 1 {
        one(StateInvalidation::MarketState(MarketId(topics[1])))
    } else {
        Vec::new()
    }
}

fn invalidate_vault(vault: VaultAddress, kind: VaultEventKind, topics: &Vec<B256>) -> (r: Vec<
    StateInvalidation,
>)
    ensures
        r@ == vault_invalidations(vault, kind, topics@),
{
    match kind {
        VaultEventKind::AddAdapter
        | VaultEventKind::RemoveAdapter
        | VaultEventKind::SetAdapterRegistry
        | VaultEventKind::SetLiquidityAdapterAndData => {
            one(StateInvalidation::VaultTopology(vault))
        },
        VaultEventKind::SetIsAllocator | VaultEventKind::SetIsSentinel => {
            one(StateInvalidation::RoleState(vault))
        },
        VaultEventKind::SetReceiveSharesGate
        | VaultEventKind::SetSendSharesGate
        | VaultEventKind::SetReceiveAssetsGate
        | VaultEventKind::SetSendAssetsGate => one(StateInvalidation::GateState(vault)),
        VaultEventKind::IncreaseAbsoluteCap | VaultEventKind::IncreaseRelativeCap => {
            cap_at(vault, topics, 1)
        },
        VaultEventKind::DecreaseAbsoluteCap | VaultEventKind::DecreaseRelativeCap => {
            cap_at(vault, topics, 2)
        },
        VaultEventKind::Submit | VaultEventKind::Revoke | VaultEventKind::Accept => {
            one(StateInvalidation::PendingAdministration(vault.0))
        },
        _ => one(StateInvalidation::AllForVault(vault)),
    }
}

/// Lists the state that an event of a contract role invalidates.
pub fn invalidations(source: EventSource, kind: WatchedEventKind, raw: &RawEventLog) -> (r: Vec<
    StateInvalidation,
>)
    ensures
        r@ == invalidations_of(source, kind, raw.topics@),
{
    match (source, kind) {
        (EventSource::Vault(vault), WatchedEventKind::Vault(vault_kind)) => {
            invalidate_vault(vault, vault_kind, &raw.topics)
        },
        (EventSource::Adapter(adapter), WatchedEventKind::Adapter(adapter_kind)) => {
            let mut result = one(StateInvalidation::AdapterState(adapter));
            if adapter_kind == AdapterEventKind::Submit || adapter_kind == AdapterEventKind::Revoke
                || adapter_kind == AdapterEventKind::Accept {
                result.push(StateInvalidation::PendingAdministration(adapter.0));
                assert(result@ =~= seq![
                    StateInvalidation::AdapterState(adapter),
                    StateInvalidation::PendingAdministration(adapter.0),
                ]);
            }
            result
        },
        (EventSource::Morpho(_), WatchedEventKind::Morpho(_)) => market_at(&raw.topics),
        (EventSource::AdaptiveCurveIrm(_), WatchedEventKind::BorrowRateUpdate) => {
            market_at(&raw.topics)
        },
        (EventSource::Token(token), WatchedEventKind::Transfer) => {
            one(StateInvalidation::TokenLiquidity(token))
        },
        _ => Vec::new(),
    }
}

/// The decoded form of a raw log, given the re-encoding of what its data strictly decoded to.
pub open spec fn event_outcome(
    source: EventSource,
    raw: RawEventLog,
    signatures: EventSignatures,
    canonical: Option<EventEncoding>,
) -> Result<EventView, EventDecodeError> {
    if raw.address != source.contract() {
        Err(EventDecodeError::AddressMismatch)
    } else if raw.topics@.len() == 0 {
        Err(EventDecodeError::MissingSignature)
    } else {
        match kind_of(source, signatures, raw.topics@[0]) {
            None => Err(EventDecodeError::UnknownSignature(raw.topics@[0])),
            Some(kind) => match canonical {
                None => Err(EventDecodeError::Malformed(kind)),
                Some(encoding) => if encoding.topics@ != raw.topics@ || encoding.data@
                    != raw.data@ {
                    Err(EventDecodeError::NonCanonical(kind))
                } else {
                    Ok(
                        EventView {
                            source,
                            kind,
                            invalidations: invalidations_of(source, kind, raw.topics@),
                        },
                    )
                },
            },
        }
    }
}

fn same_topic_list(left: &Vec<B256>, right: &Vec<B256>) -> (r: bool)
    ensures
        r == (left@ == right@),
{
    if left.len() != right.len() {
        return false;
    }
    let mut i: usize = 0;
    while i < left.len()
        invariant
            i <= left.len(),
            left.len() == right.len(),
            forall|j: int| 0 <= j < i ==> left@[j] == right@[j],
        decreases left.len() - i,
    {
        if left[i] != right[i] {
            return false;
        }
        i = i + 1;
    }
    assert(left@ =~= right@);
    true
}

/// Strictly decodes one raw log using only its configured contract role. The caller supplies the
/// re-encoding of the generated payload, or none where the log does not decode.
pub fn decode_event(
    source: EventSource,
    raw: &RawEventLog,
    signatures: &EventSignatures,
    canonical: &Option<EventEncoding>,
) -> (r: Result<DecodedEvent, EventDecodeError>)
    ensures
        match event_outcome(source, *raw, *signatures, *canonical) {
            Ok(event) => r is Ok && r->Ok_0@ == event,
            Err(error) => r is Err && r->Err_0 == error,
        },
{
    if raw.address != source.address() {
        return Err(EventDecodeError::AddressMismatch);
    }
    if raw.topics.len() == 0 {
        return Err(EventDecodeError::MissingSignature);
    }
    let signature = raw.topics[0];
    let kind = match identify_event(source, signatures, signature) {
        Some(kind) => kind,
        None => return Err(EventDecodeError::UnknownSignature(signature)),
    };
    match canonical {
        None => Err(EventDecodeError::Malformed(kind)),
        Some(encoding) => {
            if !same_topic_list(&encoding.topics, &raw.topics) || !bytes_equal(
                &encoding.data,
                &raw.data,
            ) {
                return Err(EventDecodeError::NonCanonical(kind));
            }
            Ok(DecodedEvent { source, kind, invalidations: invalidations(source, kind, raw) })
        },
    }
}

/// Number of topics through the one that names the cap or market which an event invalidates, zero
/// for an event whose invalidations need no name.
pub open spec fn naming_topics(kind: WatchedEventKind) -> nat {
    match kind {
        WatchedEventKind::Vault(VaultEventKind::IncreaseAbsoluteCap) => 2,
        WatchedEventKind::Vault(VaultEventKind::IncreaseRelativeCap) => 2,
        WatchedEventKind::Vault(VaultEventKind::DecreaseAbsoluteCap) => 3,
        WatchedEventKind::Vault(VaultEventKind::DecreaseRelativeCap) => 3,
        WatchedEventKind::Morpho(_) => 2,
        WatchedEventKind::BorrowRateUpdate => 2,
        _ => 0,
    }
}

/// An accepted event comes from the configured contract, is exactly its canonical encoding, and
/// invalidates some state unless the topic that would name its cap or market is missing.
pub proof fn accepted_event_is_canonical(
    source: EventSource,
    raw: RawEventLog,
    signatures: EventSignatures,
    canonical: Option<EventEncoding>,
)
    requires
        event_outcome(source, raw, signatures, canonical) is Ok,
    ensures
        raw.address == source.contract(),
        canonical is Some && canonical->0.topics@ == raw.topics@ && canonical->0.data@
            == raw.data@,
        ({
            let event = event_outcome(source, raw, signatures, canonical)->Ok_0;
            event.invalidations.len() > 0 <==> raw.topics@.len() >= naming_topics(event.kind)
        }),
{
}

/// Whether some event of a transaction is of a kind.
pub open spec fn has_kind(events: Seq<DecodedEvent>, kind: WatchedEventKind) -> bool {
    exists|i: int| 0 <= i < events.len() && (#[trigger] events[i]).kind == kind
}

/// Whether some event of a transaction belongs to the Morpho family.
pub open spec fn has_morpho(events: Seq<DecodedEvent>) -> bool {
    exists|i: int| 0 <= i < events.len() && (#[trigger] events[i]).kind is Morpho
}

/// Attribution of an entire ordered transaction.
pub open spec fn origin_of(
    sender: Address,
    known_bot_transaction: bool,
    approved_allocators: Seq<Address>,
    events: Seq<DecodedEvent>,
) -> FlowOrigin {
    if known_bot_transaction {
        FlowOrigin::BotRebalance
    } else if has_kind(events, WatchedEventKind::Vault(VaultEventKind::Deposit)) {
        FlowOrigin::VaultUserDeposit
    } else if has_kind(events, WatchedEventKind::Vault(VaultEventKind::Withdraw)) {
        FlowOrigin::VaultUserWithdrawal
    } else if has_kind(events, WatchedEventKind::Vault(VaultEventKind::ForceDeallocate)) {
        FlowOrigin::VaultUserForceDeallocate
    } else if has_kind(events, WatchedEventKind::Vault(VaultEventKind::Allocate)) || has_kind(
        events,
        WatchedEventKind::Vault(VaultEventKind::Deallocate),
    ) {
        if has_key(approved_allocators, sender) {
            FlowOrigin::ApprovedExternalAllocator
        } else {
            FlowOrigin::UnknownExternalAllocator
        }
    } else if has_kind(events, WatchedEventKind::Morpho(MorphoEventKind::Liquidate)) {
        FlowOrigin::LiquidationOrBadDebt
    } else if has_morpho(events) {
        FlowOrigin::MorphoExternalUser
    } else {
        FlowOrigin::Unknown
    }
}

fn any_kind(events: &Vec<DecodedEvent>, kind: WatchedEventKind) -> (r: bool)
    ensures
        r == has_kind(events@, kind),
{
    let mut i: usize = 0;
    while i < events.len()
        invariant
            i <= events.len(),
            forall|j: int| 0 <= j < i ==> (#[trigger] events@[j]).kind != kind,
        decreases events.len() - i,
    {
        if events[i].kind == kind {
            assert(events@[i as int].kind == kind);
            return true;
        }
        i = i + 1;
    }
    false
}

fn any_morpho(events: &Vec<DecodedEvent>) -> (r: bool)
    ensures
        r == has_morpho(events@),
{
    let mut i: usize = 0;
    while i < events.len()
        invariant
            i <= events.len(),
            forall|j: int| 0 <= j < i ==> !((#[trigger] events@[j]).kind is Morpho),
        decreases events.len() - i,
    {
        match events[i].kind {
            WatchedEventKind::Morpho(_) => {
                assert(events@[i as int].kind is Morpho);
                return true;
            },
            _ => {},
        }
        i = i + 1;
    }
    false
}

/// Classifies an entire ordered transaction; individual logs never classify themselves.
pub fn classify_transaction(
    sender: Address,
    known_bot_transaction: bool,
    approved_allocators: &OrderedSet<Address>,
    ordered_events: &Vec<DecodedEvent>,
) -> (r: FlowOrigin)
    ensures
        r == origin_of(sender, known_bot_transaction, approved_allocators@, ordered_events@),
{
    if known_bot_transaction {
        return FlowOrigin::BotRebalance;
    }
    if any_kind(ordered_events, WatchedEventKind::Vault(VaultEventKind::Deposit)) {
        return FlowOrigin::VaultUserDeposit;
    }
    if any_kind(ordered_events, WatchedEventKind::Vault(VaultEventKind::Withdraw)) {
        return FlowOrigin::VaultUserWithdrawal;
    }
    if any_kind(ordered_events, WatchedEventKind::Vault(VaultEventKind::ForceDeallocate)) {
        return FlowOrigin::VaultUserForceDeallocate;
    }
    if any_kind(ordered_events, WatchedEventKind::Vault(VaultEventKind::Allocate)) || any_kind(
        ordered_events,
        WatchedEventKind::Vault(VaultEventKind::Deallocate),
    ) {
        return if approved_allocators.contains(sender) {
            FlowOrigin::ApprovedExternalAllocator
        } else {
            FlowOrigin::UnknownExternalAllocator
        };
    }
    if any_kind(ordered_events, WatchedEventKind::Morpho(MorphoEventKind::Liquidate)) {
        return FlowOrigin::LiquidationOrBadDebt;
    }
    if any_morpho(ordered_events) {
        return FlowOrigin::MorphoExternalUser;
    }
    FlowOrigin::Unknown
}

/// Exact watched address categories derived from validated static configuration and lock.
pub struct WatchedAddresses {
    /// Parent vaults.
    pub vaults: OrderedSet<Address>,
    /// Direct adapters.
    pub adapters: OrderedSet<Address>,
    /// Morpho singleton addresses.
    pub morpho: OrderedSet<Address>,
    /// Adaptive Curve IRMs.
    pub irms: OrderedSet<Address>,
    /// Vault asset tokens.
    pub tokens: OrderedSet<Address>,
    /// Nonzero gates.
    pub gates: OrderedSet<Address>,
    /// Adapter registries.
    pub registries: OrderedSet<Address>,
    /// Dedicated signer EOAs.
    pub signers: OrderedSet<Address>,
    /// Approved allocator and sentinel accounts.
    pub role_accounts: OrderedSet<Address>,
}

/// What watched addresses hold, category by category in address order.
pub ghost struct WatchedView {
    /// Parent vaults.
    pub vaults: Seq<Address>,
    /// Direct adapters.
    pub adapters: Seq<Address>,
    /// Morpho singletons.
    pub morpho: Seq<Address>,
    /// Adaptive Curve IRMs.
    pub irms: Seq<Address>,
    /// Vault asset tokens.
    pub tokens: Seq<Address>,
    /// Gates.
    pub gates: Seq<Address>,
    /// Adapter registries.
    pub registries: Seq<Address>,
    /// Signers.
    pub signers: Seq<Address>,
    /// Allocators and sentinels.
    pub role_accounts: Seq<Address>,
}

impl View for WatchedAddresses {
    type V = WatchedView;

    open spec fn view(&self) -> WatchedView {
        WatchedView {
            vaults: self.vaults@,
            adapters: self.adapters@,
            morpho: self.morpho@,
            irms: self.irms@,
            tokens: self.tokens@,
            gates: self.gates@,
            registries: self.registries@,
            signers: self.signers@,
            role_accounts: self.role_accounts@,
        }
    }
}

/// Watched-address construction failure.
#[derive(Clone, Copy, Debug, PartialEq, Eq, Structural)]
pub enum WatchedAddressError {
    /// Static config and protocol lock refer to different chains.
    ChainMismatch,
}

/// Addresses with the first `count` of a list added.
pub open spec fn with_addresses(set: Seq<Address>, list: Seq<Address>, count: int) -> Seq<Address>
    decreases count,
{
    if count <= 0 {
        set
    } else {
        with_key(with_addresses(set, list, count - 1), list[count - 1])
    }
}

fn add_addresses(set: &mut OrderedSet<Address>, list: &Vec<Address>)
    ensures
        final(set)@ == with_addresses(old(set)@, list@, list@.len() as int),
{
    let mut i: usize = 0;
    while i < list.len()
        invariant
            i <= list.len(),
            set@ == with_addresses(old(set)@, list@, i as int),
        decreases list.len() - i,
    {
        let _added = set.insert(list[i]);
        i = i + 1;
    }
}

fn add_set(set: &mut OrderedSet<Address>, other: &OrderedSet<Address>)
    ensures
        final(set)@ == with_addresses(old(set)@, other@, other@.len() as int),
{
    let mut i: usize = 0;
    while i < other.len()
        invariant
            i <= other@.len(),
            set@ == with_addresses(old(set)@, other@, i as int),
        decreases other@.len() - i,
    {
        let _added = set.insert(other.at(i));
        i = i + 1;
    }
}

/// Addresses of direct adapters.
pub open spec fn adapter_addresses(adapters: Seq<ValidatedAdapterConfig>) -> Seq<Address> {
    Seq::new(adapters.len(), |i: int| adapters[i].address.0)
}

/// Rate models of positions.
pub open spec fn irm_addresses(positions: Seq<ValidatedPositionConfig>) -> Seq<Address> {
    Seq::new(positions.len(), |i: int| positions[i].market_params.irm)
}

/// Watched addresses with those of one vault.
pub open spec fn watching_vault(watched: WatchedView, vault: VaultView) -> WatchedView {
    let adapters = adapter_addresses(vault.adapters);
    let irms = irm_addresses(vault.positions);
    WatchedView {
        vaults: with_key(watched.vaults, vault.address.0),
        tokens: with_key(watched.tokens, vault.asset.0),
        signers: with_key(watched.signers, vault.signer_address),
        role_accounts: with_addresses(
            with_addresses(
                watched.role_accounts,
                vault.approved_allocators,
                vault.approved_allocators.len() as int,
            ),
            vault.approved_sentinels,
            vault.approved_sentinels.len() as int,
        ),
        adapters: with_addresses(watched.adapters, adapters, adapters.len() as int),
        irms: with_addresses(watched.irms, irms, irms.len() as int),
        ..watched
    }
}

/// Watched addresses with one locked contract.
pub open spec fn watching_contract(
    watched: WatchedView,
    identity: ValidatedContractIdentity,
) -> WatchedView {
    match identity.kind {
        IdentityKind::VaultV2 => WatchedView {
            vaults: with_key(watched.vaults, identity.address),
            ..watched
        },
        IdentityKind::MorphoSingleton => WatchedView {
            morpho: with_key(watched.morpho, identity.address),
            ..watched
        },
        IdentityKind::AdaptiveCurveIrm => WatchedView {
            irms: with_key(watched.irms, identity.address),
            ..watched
        },
        IdentityKind::DirectAdapter => WatchedView {
            adapters: with_key(watched.adapters, identity.address),
            ..watched
        },
        IdentityKind::AssetToken => WatchedView {
            tokens: with_key(watched.tokens, identity.address),
            ..watched
        },
        IdentityKind::Gate => WatchedView {
            gates: with_key(watched.gates, identity.address),
            ..watched
        },
        IdentityKind::AdapterRegistry => WatchedView {
            registries: with_key(watched.registries, identity.address),
            ..watched
        },
        IdentityKind::Multicall3 => watched,
    }
}

/// No watched address.
pub open spec fn watching_nothing() -> WatchedView {
    WatchedView {
        vaults: Seq::empty(),
        adapters: Seq::empty(),
        morpho: Seq::empty(),
        irms: Seq::empty(),
        tokens: Seq::empty(),
        gates: Seq::empty(),
        registries: Seq::empty(),
        signers: Seq::empty(),
        role_accounts: Seq::empty(),
    }
}

/// Watched addresses with the first `count` vaults.
pub open spec fn watching_vaults(
    watched: WatchedView,
    vaults: Seq<VaultView>,
    count: int,
) -> WatchedView
    decreases count,
{
    if count <= 0 {
        watched
    } else {
        watching_vault(watching_vaults(watched, vaults, count - 1), vaults[count - 1])
    }
}

/// Watched addresses with the first `count` locked contracts.
pub open spec fn watching_contracts(
    watched: WatchedView,
    contracts: Seq<ValidatedContractIdentity>,
    count: int,
) -> WatchedView
    decreases count,
{
    if count <= 0 {
        watched
    } else {
        watching_contract(
            watching_contracts(watched, contracts, count - 1),
            contracts[count - 1],
        )
    }
}

/// Watched addresses of a configuration and lock of one chain.
pub open spec fn watched_by(
    morpho_blue: Address,
    vaults: Seq<VaultView>,
    contracts: Seq<ValidatedContractIdentity>,
) -> WatchedView {
    let first = WatchedView {
        morpho: with_key(Seq::empty(), morpho_blue),
        ..watching_nothing()
    };
    watching_contracts(
        watching_vaults(first, vaults, vaults.len() as int),
        contracts,
        contracts.len() as int,
    )
}

/// Union of every category.
pub open spec fn every_address(watched: WatchedView) -> Seq<Address> {
    let a = with_addresses(Seq::empty(), watched.vaults, watched.vaults.len() as int);
    let b = with_addresses(a, watched.adapters, watched.adapters.len() as int);
    let c = with_addresses(b, watched.morpho, watched.morpho.len() as int);
    let d = with_addresses(c, watched.irms, watched.irms.len() as int);
    let e = with_addresses(d, watched.tokens, watched.tokens.len() as int);
    let f = with_addresses(e, watched.gates, watched.gates.len() as int);
    let g = with_addresses(f, watched.registries, watched.registries.len() as int);
    let h = with_addresses(g, watched.signers, watched.signers.len() as int);
    with_addresses(h, watched.role_accounts, watched.role_accounts.len() as int)
}

impl WatchedAddresses {
    /// Builds the watched set and rejects a lock/config chain mismatch.
    pub fn build(config: &ValidatedConfig, lock: &ValidatedProtocolLock) -> (r: Result<
        Self,
        WatchedAddressError,
    >)
        ensures
            if config.app.chain.chain_id != lock.chain_id {
                r is Err && r->Err_0 == WatchedAddressError::ChainMismatch
            } else {
                r is Ok && r->Ok_0@ == watched_by(
                    config.app.chain.morpho_blue,
                    config.app@.vaults,
                    lock.contracts@,
                )
            },
    {
        if config.app.chain.chain_id != lock.chain_id {
            return Err(WatchedAddressError::ChainMismatch);
        }
        let mut watched = WatchedAddresses {
            vaults: OrderedSet::new(),
            adapters: OrderedSet::new(),
            morpho: OrderedSet::new(),
            irms: OrderedSet::new(),
            tokens: OrderedSet::new(),
            gates: OrderedSet::new(),
            registries: OrderedSet::new(),
            signers: OrderedSet::new(),
            role_accounts: OrderedSet::new(),
        };
        let _added = watched.morpho.insert(config.app.chain.morpho_blue);
        let ghost first = watched@;
        let ghost views = config.app@.vaults;
        let mut i: usize = 0;
        while i < config.app.vaults.len()
            invariant
                i <= config.app.vaults.len(),
                views == config.app@.vaults,
                watched@ == watching_vaults(first, views, i as int),
            decreases config.app.vaults.len() - i,
        {
            let vault = &config.app.vaults[i];
            assert(views[i as int] == vault@);
            watched.watch_vault(vault);
            i = i + 1;
        }
        let ghost second = watched@;
        let mut j: usize = 0;
        while j < lock.contracts.len()
            invariant
                j <= lock.contracts.len(),
                watched@ == watching_contracts(second, lock.contracts@, j as int),
            decreases lock.contracts.len() - j,
        {
            watched.watch_contract(&lock.contracts[j]);
            j = j + 1;
        }
        Ok(watched)
    }

    fn watch_vault(&mut self, vault: &crate::config::ValidatedVaultConfig)
        ensures
            final(self)@ == watching_vault(old(self)@, vault@),
    {
        let _vault = self.vaults.insert(vault.address.0);
        let _token = self.tokens.insert(vault.asset.0);
        let _signer = self.signers.insert(vault.signer_address);
        add_addresses(&mut self.role_accounts, &vault.approved_allocators);
        add_addresses(&mut self.role_accounts, &vault.approved_sentinels);
        let mut adapters: Vec<Address> = Vec::new();
        let mut i: usize = 0;
        while i < vault.adapters.len()
            invariant
                i <= vault.adapters.len(),
                adapters@ == adapter_addresses(vault.adapters@).subrange(0, i as int),
            decreases vault.adapters.len() - i,
        {
            adapters.push(vault.adapters[i].address.0);
            i = i + 1;
            assert(adapters@ =~= adapter_addresses(vault.adapters@).subrange(0, i as int));
        }
        assert(adapters@ =~= adapter_addresses(vault.adapters@));
        add_addresses(&mut self.adapters, &adapters);
        let mut irms: Vec<Address> = Vec::new();
        let mut j: usize = 0;
        while j < vault.positions.len()
            invariant
                j <= vault.positions.len(),
                irms@ == irm_addresses(vault.positions@).subrange(0, j as int),
            decreases vault.positions.len() - j,
        {
            irms.push(vault.positions[j].market_params.irm);
            j = j + 1;
            assert(irms@ =~= irm_addresses(vault.positions@).subrange(0, j as int));
        }
        assert(irms@ =~= irm_addresses(vault.positions@));
        add_addresses(&mut self.irms, &irms);
    }

    fn watch_contract(&mut self, identity: &ValidatedContractIdentity)
        ensures
            final(self)@ == watching_contract(old(self)@, *identity),
    {
        match identity.kind {
            IdentityKind::VaultV2 => {
                let _added = self.vaults.insert(identity.address);
            },
            IdentityKind::MorphoSingleton => {
                let _added = self.morpho.insert(identity.address);
            },
            IdentityKind::AdaptiveCurveIrm => {
                let _added = self.irms.insert(identity.address);
            },
            IdentityKind::DirectAdapter => {
                let _added = self.adapters.insert(identity.address);
            },
            IdentityKind::AssetToken => {
                let _added = self.tokens.insert(identity.address);
            },
            IdentityKind::Gate => {
                let _added = self.gates.insert(identity.address);
            },
            IdentityKind::AdapterRegistry => {
                let _added = self.registries.insert(identity.address);
            },
            IdentityKind::Multicall3 => {},
        }
    }

    /// Returns the union used for RPC log filters.
    pub fn all(&self) -> (r: OrderedSet<Address>)
        ensures
            r@ == every_address(self@),
    {
        let mut all: OrderedSet<Address> = OrderedSet::new();
        add_set(&mut all, &self.vaults);
        add_set(&mut all, &self.adapters);
        add_set(&mut all, &self.morpho);
        add_set(&mut all, &self.irms);
        add_set(&mut all, &self.tokens);
        add_set(&mut all, &self.gates);
        add_set(&mut all, &self.registries);
        add_set(&mut all, &self.signers);
        add_set(&mut all, &self.role_accounts);
        all
    }
}

} // verus!
