//! Semantic identifiers, quantities, snapshots, and plans.

use vstd::prelude::*;

use crate::collections::{OrderedKey, OrderedMap, OrderedSet};
use crate::primitives::{
    b256, big_endian, difference, group_b256, keccak256, keccak256_digest, sum, word_modulus,
    Address, B256, I256, U256,
};

verus! {

/// Parent Vault V2 address.
#[derive(Clone, Copy, Debug, PartialEq, Eq, Structural, Hash)]
pub struct VaultAddress(pub Address);

/// Adapter address.
#[derive(Clone, Copy, Debug, PartialEq, Eq, Structural, Hash)]
pub struct AdapterAddress(pub Address);

/// Token address.
#[derive(Clone, Copy, Debug, PartialEq, Eq, Structural, Hash)]
pub struct TokenAddress(pub Address);

/// Morpho market identifier.
#[derive(Clone, Copy, Debug, PartialEq, Eq, Structural, Hash)]
pub struct MarketId(pub B256);

/// Vault-local position identifier.
#[derive(Clone, Copy, Debug, PartialEq, Eq, Structural, Hash)]
pub struct PositionKey(pub B256);

/// Rate-group identifier.
#[derive(Clone, Copy, Debug, PartialEq, Eq, Structural, Hash)]
pub struct RateGroupId(pub B256);

/// Cap identifier, scoped by a vault.
#[derive(Clone, Copy, Debug, PartialEq, Eq, Structural, Hash)]
pub struct CapId(pub B256);

/// Plan identifier.
#[derive(Clone, Copy, Debug, PartialEq, Eq, Structural, Hash)]
pub struct PlanId(pub B256);

/// Transaction identifier.
#[derive(Clone, Copy, Debug, PartialEq, Eq, Structural, Hash)]
pub struct TransactionId(pub B256);

/// Rate-episode identifier.
#[derive(Clone, Copy, Debug, PartialEq, Eq, Structural, Hash)]
pub struct EpisodeId(pub B256);

/// Asset units.
#[derive(Clone, Copy, Debug, PartialEq, Eq, Structural, Hash)]
pub struct Assets(pub U256);

/// Share units.
#[derive(Clone, Copy, Debug, PartialEq, Eq, Structural, Hash)]
pub struct Shares(pub U256);

/// Asset units requested by an action.
#[derive(Clone, Copy, Debug, PartialEq, Eq, Structural, Hash)]
pub struct RequestedAssets(pub U256);

/// Asset units an adapter expects to hold.
#[derive(Clone, Copy, Debug, PartialEq, Eq, Structural, Hash)]
pub struct ExpectedAssets(pub U256);

/// Allocation recorded by the parent vault.
#[derive(Clone, Copy, Debug, PartialEq, Eq, Structural, Hash)]
pub struct RecordedAllocation(pub U256);

/// Signed change of a recorded allocation.
#[derive(Clone, Copy, Debug, PartialEq, Eq, Structural, Hash)]
pub struct AllocationDelta(pub I256);

/// Fixed-point quantity scaled by `10^18`.
#[derive(Clone, Copy, Debug, PartialEq, Eq, Structural, Hash)]
pub struct Wad(pub U256);

/// Fixed-point rate per second.
#[derive(Clone, Copy, Debug, PartialEq, Eq, Structural, Hash)]
pub struct RatePerSecond(pub U256);

/// Simple annual rate in basis points.
#[derive(Clone, Copy, Debug, PartialEq, Eq, Structural, Hash)]
pub struct AprBps(pub u32);

impl OrderedKey for VaultAddress {
    open spec fn rank(self) -> int {
        self.0.rank()
    }

    proof fn rank_injective(a: Self, b: Self) {
        OrderedKey::rank_injective(a.0, b.0);
    }

    fn before(self, other: Self) -> (r: bool) {
        self.0.before(other.0)
    }
}

impl OrderedKey for AdapterAddress {
    open spec fn rank(self) -> int {
        self.0.rank()
    }

    proof fn rank_injective(a: Self, b: Self) {
        OrderedKey::rank_injective(a.0, b.0);
    }

    fn before(self, other: Self) -> (r: bool) {
        self.0.before(other.0)
    }
}

impl OrderedKey for TokenAddress {
    open spec fn rank(self) -> int {
        self.0.rank()
    }

    proof fn rank_injective(a: Self, b: Self) {
        OrderedKey::rank_injective(a.0, b.0);
    }

    fn before(self, other: Self) -> (r: bool) {
        self.0.before(other.0)
    }
}

impl OrderedKey for MarketId {
    open spec fn rank(self) -> int {
        self.0.rank()
    }

    proof fn rank_injective(a: Self, b: Self) {
        OrderedKey::rank_injective(a.0, b.0);
    }

    fn before(self, other: Self) -> (r: bool) {
        self.0.before(other.0)
    }
}

impl OrderedKey for PositionKey {
    open spec fn rank(self) -> int {
        self.0.rank()
    }

    proof fn rank_injective(a: Self, b: Self) {
        OrderedKey::rank_injective(a.0, b.0);
    }

    fn before(self, other: Self) -> (r: bool) {
        self.0.before(other.0)
    }
}

/// Checked semantic arithmetic failure.
#[derive(Clone, Copy, Debug, PartialEq, Eq, Structural)]
pub enum ArithmeticError {
    /// The exact operation exceeds the underlying integer domain.
    Overflow,
    /// The exact operation would produce a negative unsigned quantity.
    Underflow,
    /// The exact operation has a zero denominator.
    DivisionByZero,
}

impl Assets {
    /// Zero assets.
    pub fn zero() -> (r: Assets)
        ensures
            r.0@ == 0,
    {
        broadcast use crate::primitives::group_u256;

        Assets(U256::zero())
    }

    /// Adds asset units exactly.
    pub fn checked_add(self, rhs: Assets) -> (r: Result<Assets, ArithmeticError>)
        ensures
            r == (match sum(self.0, rhs.0) {
                Some(value) => Ok(Assets(value)),
                None => Err(ArithmeticError::Overflow),
            }),
    {
        match self.0.checked_add(rhs.0) {
            Some(value) => Ok(Assets(value)),
            None => Err(ArithmeticError::Overflow),
        }
    }

    /// Subtracts asset units exactly.
    pub fn checked_sub(self, rhs: Assets) -> (r: Result<Assets, ArithmeticError>)
        ensures
            r == (match difference(self.0, rhs.0) {
                Some(value) => Ok(Assets(value)),
                None => Err(ArithmeticError::Underflow),
            }),
    {
        match self.0.checked_sub(rhs.0) {
            Some(value) => Ok(Assets(value)),
            None => Err(ArithmeticError::Underflow),
        }
    }
}

impl Shares {
    /// Zero shares.
    pub fn zero() -> (r: Shares)
        ensures
            r.0@ == 0,
    {
        broadcast use crate::primitives::group_u256;

        Shares(U256::zero())
    }

    /// Adds share units exactly.
    pub fn checked_add(self, rhs: Shares) -> (r: Result<Shares, ArithmeticError>)
        ensures
            r == (match sum(self.0, rhs.0) {
                Some(value) => Ok(Shares(value)),
                None => Err(ArithmeticError::Overflow),
            }),
    {
        match self.0.checked_add(rhs.0) {
            Some(value) => Ok(Shares(value)),
            None => Err(ArithmeticError::Overflow),
        }
    }

    /// Subtracts share units exactly.
    pub fn checked_sub(self, rhs: Shares) -> (r: Result<Shares, ArithmeticError>)
        ensures
            r == (match difference(self.0, rhs.0) {
                Some(value) => Ok(Shares(value)),
                None => Err(ArithmeticError::Underflow),
            }),
    {
        match self.0.checked_sub(rhs.0) {
            Some(value) => Ok(Shares(value)),
            None => Err(ArithmeticError::Underflow),
        }
    }
}

/// Subtracting what was added gives back the first summand.
pub proof fn asset_subtraction_undoes_addition(a: Assets, b: Assets)
    requires
        sum(a.0, b.0) is Some,
    ensures
        difference(sum(a.0, b.0)->0, b.0) == Some(a.0),
{
    broadcast use crate::primitives::group_u256;

}

/// A canonical EVM block and its parent relationship.
#[derive(Clone, Copy, Debug, PartialEq, Eq, Structural)]
pub struct BlockRef {
    /// EVM block number.
    pub number: u64,
    /// Canonical block hash.
    pub hash: B256,
    /// Parent block hash.
    pub parent_hash: B256,
    /// Block timestamp in Unix seconds.
    pub timestamp: u64,
    /// Block gas limit.
    pub gas_limit: u64,
}

/// Strength of the provider's block-number-to-hash binding.
#[derive(Clone, Copy, Debug, PartialEq, Eq, Structural)]
pub enum BlockHashBinding {
    /// Reads were cryptographically or RPC-context bound to the requested hash.
    Proven,
    /// Reads were checked against headers but the RPC lacks hash-bound calls.
    Unproven,
}

/// Complete identified block context for every planning value.
#[derive(Clone, Copy, Debug, PartialEq, Eq, Structural)]
pub struct StateContext {
    /// EVM chain ID.
    pub chain_id: u64,
    /// Canonical block.
    pub block: BlockRef,
    /// Strength of the read binding.
    pub block_hash_binding: BlockHashBinding,
    /// Hash of static validated configuration.
    pub static_config_revision: B256,
    /// Hash of live topology and administrative state.
    pub dynamic_topology_revision: B256,
}

/// Morpho Market V1 parameters in the exact Solidity field order.
#[derive(Clone, Copy, Debug, PartialEq, Eq, Structural, Hash)]
pub struct MarketParams {
    /// Loan token address.
    pub loan_token: Address,
    /// Collateral token address.
    pub collateral_token: Address,
    /// Oracle address.
    pub oracle: Address,
    /// Interest-rate-model address.
    pub irm: Address,
    /// Liquidation loan-to-value ratio in WAD units.
    pub lltv: U256,
}

/// `abi.encode(MarketParams)`: five left-padded 32-byte words in field order.
pub open spec fn market_params_encoding(params: MarketParams) -> Seq<u8> {
    big_endian(params.loan_token@, 32) + big_endian(params.collateral_token@, 32) + big_endian(
        params.oracle@,
        32,
    ) + big_endian(params.irm@, 32) + big_endian(params.lltv@, 32)
}

/// Encodes market parameters as `abi.encode(MarketParams)`.
pub fn encode_adapter_data(params: &MarketParams) -> (r: Vec<u8>)
    ensures
        r@ == market_params_encoding(*params),
{
    let mut data: Vec<u8> = params.loan_token.to_word().to_be_bytes();
    let mut collateral: Vec<u8> = params.collateral_token.to_word().to_be_bytes();
    let mut oracle: Vec<u8> = params.oracle.to_word().to_be_bytes();
    let mut irm: Vec<u8> = params.irm.to_word().to_be_bytes();
    let mut lltv: Vec<u8> = params.lltv.to_be_bytes();
    data.append(&mut collateral);
    data.append(&mut oracle);
    data.append(&mut irm);
    data.append(&mut lltv);
    data
}

/// Whether two byte strings are equal.
pub fn bytes_equal(left: &Vec<u8>, right: &Vec<u8>) -> (r: bool)
    ensures
        r == (left@ == right@),
{
    if left.len() != right.len() {
        return false;
    }
    let mut i: usize = 0;
    while i < left.len()
        invariant
            i <= left.len(),
            left.len() == right.len(),
            forall|j: int| 0 <= j < i ==> left@[j] == right@[j],
        decreases left.len() - i,
    {
        if left[i] != right[i] {
            return false;
        }
        i = i + 1;
    }
    assert(left@ =~= right@);
    true
}

/// Copies a byte string.
pub fn copy_bytes(bytes: &Vec<u8>) -> (r: Vec<u8>)
    ensures
        r@ == bytes@,
{
    let mut copy: Vec<u8> = Vec::new();
    let mut i: usize = 0;
    while i < bytes.len()
        invariant
            i <= bytes.len(),
            copy@ == bytes@.subrange(0, i as int),
        decreases bytes.len() - i,
    {
        copy.push(bytes[i]);
        i = i + 1;
    }
    assert(copy@ =~= bytes@);
    copy
}

/// The market ID of parameters: `keccak256(abi.encode(MarketParams))`.
pub open spec fn market_id_of(params: MarketParams) -> MarketId {
    MarketId(b256(keccak256_digest(market_params_encoding(params))))
}

/// Derives the Morpho market ID as `keccak256(abi.encode(MarketParams))`.
pub fn derive_market_id(params: &MarketParams) -> (r: MarketId)
    ensures
        r == market_id_of(*params),
{
    broadcast use group_b256;

    MarketId(keccak256(&encode_adapter_data(params)))
}

/// The position key of an adapter and market: the hash of the adapter's 20 bytes followed by the
/// encoded parameters.
pub open spec fn position_key_of(adapter: AdapterAddress, params: MarketParams) -> PositionKey {
    PositionKey(
        b256(keccak256_digest(big_endian(adapter.0@, 20) + market_params_encoding(params))),
    )
}

/// Derives a vault-local direct-position key from adapter and canonical market data.
pub fn derive_position_key(adapter: AdapterAddress, params: &MarketParams) -> (r: PositionKey)
    ensures
        r == position_key_of(adapter, *params),
{
    broadcast use group_b256;

    let mut input: Vec<u8> = adapter.0.to_bytes();
    let mut market_data: Vec<u8> = encode_adapter_data(params);
    input.append(&mut market_data);
    PositionKey(keccak256(&input))
}

/// The synthetic position key of a liquidity-only adapter: the hash of its 20 bytes, followed by
/// no market data.
pub open spec fn liquidity_position_key_of(adapter: AdapterAddress) -> PositionKey {
    PositionKey(b256(keccak256_digest(big_endian(adapter.0@, 20))))
}

/// Derives the synthetic position key of a liquidity-only adapter.
pub fn derive_liquidity_position_key(adapter: AdapterAddress) -> (r: PositionKey)
    ensures
        r == liquidity_position_key_of(adapter),
{
    broadcast use group_b256;

    PositionKey(keccak256(&adapter.0.to_bytes()))
}

/// Configured movement mode for a direct market position.
#[derive(Clone, Copy, Debug, PartialEq, Eq, Structural)]
pub enum MarketMode {
    /// May supply and withdraw.
    Active,
    /// Accounted and reported but never moved.
    Fixed,
    /// May withdraw but never receive assets.
    SourceOnly,
    /// Excluded from automation.
    Disabled,
    /// Requires reviewed synchronization before routine planning.
    SyncRequired,
}

/// Explicit reward treatment for terminal-value comparison and movement eligibility.
#[derive(Clone, Copy, Debug, PartialEq, Eq, Structural)]
pub enum RewardPolicy {
    /// Evidence establishes no material allocation-dependent rewards for a finite period.
    NoMaterialRewards {
        /// Canonical evidence block.
        checked_at_block: u64,
        /// Unix timestamp through which the evidence remains valid.
        valid_until_timestamp: u64,
        /// Hash of the reviewed evidence artifact.
        evidence_hash: B256,
    },
    /// A versioned curator mandate deliberately omits rewards.
    IgnoreRewardsByCuratorMandate {
        /// Curator policy revision.
        policy_revision: B256,
    },
    /// Position remains fixed until a model is approved.
    FixedUntilModeled,
    /// Approved reward model valid for a finite period.
    Modeled {
        /// Reward model revision.
        model_revision: B256,
        /// Unix timestamp through which the model remains valid.
        valid_until_timestamp: u64,
    },
}

/// The parent quantities that drive interest and fee accrual.
#[derive(Clone, Copy, Debug, PartialEq, Eq, Structural)]
pub struct ParentAccounting {
    /// Unallocated asset balance held by the parent.
    pub idle_assets: U256,
    /// Stored parent total assets.
    pub stored_total_assets: U256,
    /// Last parent accrual timestamp.
    pub last_update: u64,
    /// Maximum parent accrual rate.
    pub max_rate: U256,
    /// Parent ERC-4626 share supply.
    pub total_supply: U256,
    /// Parent virtual shares.
    pub virtual_shares: U256,
    /// Performance fee WAD.
    pub performance_fee: U256,
    /// Whether the performance-fee recipient passes the receive-shares gate.
    pub performance_fee_recipient_allowed: bool,
    /// Management fee WAD.
    pub management_fee: U256,
    /// Whether the management-fee recipient passes the receive-shares gate.
    pub management_fee_recipient_allowed: bool,
}

/// Exact parent Vault V2 state at one block context.
pub struct ParentVaultState {
    /// Parent vault address.
    pub vault: Address,
    /// Vault asset address.
    pub asset: Address,
    /// Unallocated asset balance held by the parent.
    pub idle_assets: U256,
    /// Stored parent total assets.
    pub stored_total_assets: U256,
    /// Last parent accrual timestamp.
    pub last_update: u64,
    /// Maximum parent accrual rate.
    pub max_rate: U256,
    /// Parent ERC-4626 share supply.
    pub total_supply: U256,
    /// Parent virtual shares.
    pub virtual_shares: U256,
    /// Performance fee WAD.
    pub performance_fee: U256,
    /// Performance fee recipient.
    pub performance_fee_recipient: Address,
    /// Whether the recipient passes the receive-shares gate.
    pub performance_fee_recipient_allowed: bool,
    /// Management fee WAD.
    pub management_fee: U256,
    /// Management fee recipient.
    pub management_fee_recipient: Address,
    /// Whether the recipient passes the receive-shares gate.
    pub management_fee_recipient_allowed: bool,
    /// Receive-shares gate.
    pub receive_shares_gate: Address,
    /// Send-shares gate.
    pub send_shares_gate: Address,
    /// Receive-assets gate.
    pub receive_assets_gate: Address,
    /// Send-assets gate.
    pub send_assets_gate: Address,
    /// Adapter registry.
    pub adapter_registry: Address,
    /// Configured liquidity adapter.
    pub liquidity_adapter: Address,
    /// Canonical liquidity-adapter data.
    pub liquidity_data: Vec<u8>,
    /// Force-deallocation penalties by adapter.
    pub force_deallocate_penalties: OrderedMap<AdapterAddress, U256>,
    /// Allocators approved by static policy.
    pub approved_allocators: OrderedSet<Address>,
    /// Sentinels approved by static policy.
    pub approved_sentinels: OrderedSet<Address>,
    /// Required dead-share address.
    pub dead_address: Address,
    /// Current dead-address share balance.
    pub dead_share_balance: U256,
    /// Required dead shares for this implementation profile.
    pub required_dead_shares: U256,
}

impl ParentVaultState {
    /// The quantities that drive accrual.
    pub open spec fn accounting_spec(&self) -> ParentAccounting {
        ParentAccounting {
            idle_assets: self.idle_assets,
            stored_total_assets: self.stored_total_assets,
            last_update: self.last_update,
            max_rate: self.max_rate,
            total_supply: self.total_supply,
            virtual_shares: self.virtual_shares,
            performance_fee: self.performance_fee,
            performance_fee_recipient_allowed: self.performance_fee_recipient_allowed,
            management_fee: self.management_fee,
            management_fee_recipient_allowed: self.management_fee_recipient_allowed,
        }
    }

    /// The quantities that drive accrual.
    pub fn accounting(&self) -> (r: ParentAccounting)
        ensures
            r == self.accounting_spec(),
    {
        ParentAccounting {
            idle_assets: self.idle_assets,
            stored_total_assets: self.stored_total_assets,
            last_update: self.last_update,
            max_rate: self.max_rate,
            total_supply: self.total_supply,
            virtual_shares: self.virtual_shares,
            performance_fee: self.performance_fee,
            performance_fee_recipient_allowed: self.performance_fee_recipient_allowed,
            management_fee: self.management_fee,
            management_fee_recipient_allowed: self.management_fee_recipient_allowed,
        }
    }
}

/// Exact direct adapter state.
pub struct DirectAdapterState {
    /// Adapter address.
    pub adapter: AdapterAddress,
    /// Parent vault address.
    pub parent_vault: Address,
    /// Adapter asset address.
    pub asset: Address,
    /// Morpho singleton address.
    pub morpho: Address,
    /// Immutable Adaptive Curve IRM address.
    pub adaptive_curve_irm: Address,
    /// Adapter-scoped cap identifier.
    pub adapter_id: CapId,
    /// Current market IDs returned by the adapter.
    pub current_market_ids: Vec<MarketId>,
    /// All market IDs ever observed for this adapter.
    pub historical_market_ids: OrderedSet<MarketId>,
    /// Runtime bytecode hash.
    pub runtime_code_hash: B256,
    /// Adapter `realAssets`.
    pub real_assets: U256,
    /// Adapter skim recipient.
    pub skim_recipient: Address,
    /// Submitted pending adapter operations.
    pub pending_operations: Vec<PendingAdminOperation>,
}

/// Exact state of a liquidity-only adapter that wraps a Morpho Vault V1 idle market.
#[derive(Clone, Copy, Debug, PartialEq, Eq, Structural)]
pub struct VaultV1LiquidityAdapterState {
    /// Adapter address.
    pub adapter: AdapterAddress,
    /// Parent vault address.
    pub parent_vault: Address,
    /// Wrapped MetaMorpho V1 vault.
    pub morpho_vault_v1: Address,
    /// Adapter-scoped cap identifier.
    pub adapter_id: CapId,
    /// Adapter runtime bytecode hash.
    pub runtime_code_hash: B256,
    /// Wrapped vault runtime bytecode hash.
    pub morpho_vault_v1_runtime_code_hash: B256,
    /// Redeem value of the adapter's shares.
    pub real_assets: U256,
    /// Parent-recorded allocation.
    pub recorded_allocation: U256,
    /// Adapter balance of wrapped-vault shares.
    pub share_balance: U256,
    /// Wrapped vault total assets.
    pub vault_total_assets: U256,
    /// Wrapped vault share supply.
    pub vault_total_supply: U256,
    /// Wrapped vault decimals offset.
    pub decimals_offset: u8,
    /// Largest deposit the wrapped vault accepts.
    pub max_deposit: U256,
    /// Largest withdrawal the wrapped vault serves.
    pub max_withdraw: U256,
    /// Idle Morpho market of the wrapped vault.
    pub idle_market_id: MarketId,
    /// Idle market supply assets.
    pub idle_market_total_supply_assets: U256,
    /// Idle market supply shares.
    pub idle_market_total_supply_shares: U256,
    /// Wrapped vault's supply shares in the idle market.
    pub idle_market_supply_shares: U256,
    /// Adapter skim recipient.
    pub skim_recipient: Address,
}

/// Vault-scoped cap reference.
#[derive(Clone, Copy, Debug, PartialEq, Eq, Structural, Hash)]
pub struct CapRef {
    /// Parent vault.
    pub vault: VaultAddress,
    /// Cap identifier scoped by `vault`.
    pub id: CapId,
}

impl OrderedKey for CapRef {
    open spec fn rank(self) -> int {
        (self.vault.0@ * word_modulus() + self.id.0@) as int
    }

    proof fn rank_injective(a: Self, b: Self) {
        broadcast use group_b256, crate::primitives::group_address;

        if a.vault.0@ < b.vault.0@ {
            assert(a.vault.0@ + 1 <= b.vault.0@);
        } else if b.vault.0@ < a.vault.0@ {
            assert(b.vault.0@ + 1 <= a.vault.0@);
        }
        crate::primitives::lemma_address_injective(a.vault.0, b.vault.0);
        OrderedKey::rank_injective(a.id.0, b.id.0);
    }

    fn before(self, other: Self) -> (r: bool) {
        broadcast use group_b256;

        if self.vault.0.lt(other.vault.0) {
            true
        } else if other.vault.0.lt(self.vault.0) {
            false
        } else {
            self.id.0.before(other.id.0)
        }
    }
}

/// Exact direct Morpho market position state.
#[derive(Clone, Copy, Debug)]
pub struct DirectMarketPositionState {
    /// Derived position key.
    pub position_key: PositionKey,
    /// Owning adapter.
    pub adapter: AdapterAddress,
    /// Canonical market parameters.
    pub market_params: MarketParams,
    /// Derived Morpho market ID.
    pub market_id: MarketId,
    /// Adapter internal tracked supply shares.
    pub internal_supply_shares: U256,
    /// Actual Morpho supply shares.
    pub actual_morpho_supply_shares: U256,
    /// Untracked donated shares.
    pub ignored_donation_shares: U256,
    /// Required market dead supply shares.
    pub market_dead_supply_shares: U256,
    /// Exact adapter expected assets.
    pub expected_assets: U256,
    /// Parent's recorded allocation for the position.
    pub parent_recorded_market_allocation: U256,
    /// Adapter, collateral, and exact-market cap references.
    pub affected_caps: [CapRef; 3],
    /// Movement mode.
    pub mode: MarketMode,
    /// Reward policy.
    pub reward_policy: RewardPolicy,
}

/// Stored Morpho market state before local accrual.
#[derive(Clone, Copy, Debug, PartialEq, Eq, Structural)]
pub struct StoredMarketState {
    /// Market ID.
    pub market_id: MarketId,
    /// Canonical market parameters.
    pub params: MarketParams,
    /// Stored supply assets.
    pub total_supply_assets: U256,
    /// Stored supply shares.
    pub total_supply_shares: U256,
    /// Stored borrow assets.
    pub total_borrow_assets: U256,
    /// Stored borrow shares.
    pub total_borrow_shares: U256,
    /// Last market accrual timestamp.
    pub last_update: u64,
    /// Morpho market fee WAD.
    pub fee: U256,
    /// Market IRM address.
    pub irm: Address,
    /// Adaptive Curve stored rate-at-target.
    pub stored_rate_at_target: U256,
    /// Morpho's balance of the loan token.
    pub morpho_loan_token_balance: U256,
}

/// Exact cap values and recorded allocation.
#[derive(Clone, Copy, Debug, PartialEq, Eq, Structural)]
pub struct CapState {
    /// Vault-scoped reference.
    pub reference: CapRef,
    /// Hash of canonical cap ID data.
    pub id_data_hash: B256,
    /// Absolute cap in vault-asset units.
    pub absolute_cap: U256,
    /// Relative cap in WAD units.
    pub relative_cap: U256,
    /// Parent-recorded allocation in vault-asset units.
    pub recorded_allocation: U256,
}

/// Decoded planning-relevant effect of a pending administration call.
#[derive(Clone, Copy, Debug, PartialEq, Eq, Structural)]
pub enum AdminEffect {
    /// Cap configuration may change.
    CapChange,
    /// Adapter membership may change.
    AdapterMembership,
    /// Allocator membership may change.
    AllocatorMembership,
    /// Gate configuration may change.
    GateChange,
    /// Liquidity adapter may change.
    LiquidityAdapterChange,
    /// Parent max rate may change.
    MaxRateChange,
    /// Fee configuration may change.
    FeeChange,
    /// Force-deallocation penalty may change.
    ForceDeallocationPenaltyChange,
    /// Adapter burn-shares or timelock may change.
    AdapterAccountingChange,
    /// Unknown effect retained fail-closed.
    Unknown,
}

/// Submitted delayed administration operation.
#[derive(Debug)]
pub struct PendingAdminOperation {
    /// Call target.
    pub target: Address,
    /// Function selector.
    pub selector: [u8; 4],
    /// Hash of complete calldata.
    pub calldata_hash: B256,
    /// Complete calldata.
    pub calldata: Vec<u8>,
    /// Earliest execution timestamp.
    pub executable_at: u64,
    /// Decoded planning effect.
    pub effect: AdminEffect,
    /// Canonical submission block.
    pub submitted_block: u64,
    /// Submission transaction hash.
    pub submitted_transaction: B256,
}

/// Per-vault capability state derived from exact checks.
#[derive(Clone, Copy, Debug, PartialEq, Eq, Structural)]
pub struct VaultCapabilities {
    /// Observation is supported.
    pub can_observe: bool,
    /// Exact local projection is supported.
    pub can_project: bool,
    /// Allocation is supported.
    pub can_allocate: bool,
    /// Supported-position deallocation is supported.
    pub can_deallocate_supported_position: bool,
    /// Native deposit inclusion drift can be modeled.
    pub can_model_user_deposit: bool,
    /// Native withdrawal inclusion drift can be modeled.
    pub can_model_user_withdrawal: bool,
    /// Idle-lock reconstruction is verified.
    pub lock_ledger_verified: bool,
    /// Dead-deposit requirements are verified.
    pub seed_requirements_verified: bool,
    /// Reward evidence is ready.
    pub reward_policy_ready: bool,
    /// Rate episode state is verified.
    pub rate_episode_state_verified: bool,
}

/// Immutable idle-lock entry included in an exact snapshot.
#[derive(Clone, Copy, Debug, PartialEq, Eq)]
pub struct IdleLockSnapshot {
    /// Stable lock identifier.
    pub lock_id: B256,
    /// Locked vault-asset units remaining.
    pub remaining_assets: U256,
    /// Canonical creation order.
    pub created_block: u64,
    /// Optional release timestamp.
    pub release_timestamp: Option<u64>,
}

/// Ordered idle-lock ledger at one exact snapshot.
pub struct IdleLockLedgerSnapshot {
    /// Locks ordered by canonical creation sequence.
    pub locks: Vec<IdleLockSnapshot>,
    /// Total amount whose attribution is not yet verified.
    pub unattributed_idle_assets: U256,
    /// Whether canonical replay and attribution are complete.
    pub verified: bool,
}

/// Complete exact vault snapshot at one identified block.
pub struct ExactVaultSnapshot {
    /// Block and configuration context.
    pub context: StateContext,
    /// Parent state.
    pub parent: ParentVaultState,
    /// Direct adapters.
    pub adapters: OrderedMap<AdapterAddress, DirectAdapterState>,
    /// Optional liquidity-only adapter.
    pub liquidity_adapter: Option<VaultV1LiquidityAdapterState>,
    /// Direct positions.
    pub positions: OrderedMap<PositionKey, DirectMarketPositionState>,
    /// Morpho markets.
    pub markets: OrderedMap<MarketId, StoredMarketState>,
    /// Vault-scoped caps.
    pub caps: OrderedMap<CapRef, CapState>,
    /// Pending parent and adapter operations.
    pub pending_admin: Vec<PendingAdminOperation>,
    /// Derived capabilities.
    pub capabilities: VaultCapabilities,
    /// Ordered idle-lock state.
    pub idle_locks: IdleLockLedgerSnapshot,
    /// Canonical exact snapshot hash.
    pub snapshot_hash: B256,
}

/// Exact locally projected Morpho market state.
#[derive(Clone, Copy, Debug, PartialEq, Eq, Structural)]
pub struct ProjectedMarketState {
    /// Market ID.
    pub market_id: MarketId,
    /// Projection timestamp.
    pub timestamp: u64,
    /// Accrued supply assets.
    pub total_supply_assets: U256,
    /// Accrued supply shares after fee minting.
    pub total_supply_shares: U256,
    /// Accrued borrow assets.
    pub total_borrow_assets: U256,
    /// Borrow shares.
    pub total_borrow_shares: U256,
    /// Average borrow rate used for elapsed accrual.
    pub average_accrual_borrow_rate: U256,
    /// Ending Adaptive Curve rate-at-target.
    pub ending_rate_at_target: U256,
    /// Immediate post-action spot borrow rate.
    pub spot_borrow_rate: U256,
    /// Immediate post-action spot supply rate.
    pub spot_supply_rate: U256,
    /// Utilization in WAD units.
    pub utilization: U256,
    /// Shared accounting liquidity in loan-token units.
    pub accounting_liquidity: U256,
}

/// Parent fee shares projected by exact accrual.
#[derive(Clone, Copy, Debug, PartialEq, Eq, Structural)]
pub struct FeeShareProjection {
    /// Performance fee shares minted.
    pub performance_fee_shares: U256,
    /// Management fee shares minted.
    pub management_fee_shares: U256,
}

/// Exact locally projected parent and position state.
pub struct ProjectedVaultState {
    /// Projection timestamp.
    pub timestamp: u64,
    /// Projected parent total assets.
    pub parent_total_assets: U256,
    /// Projected parent total supply.
    pub projected_total_supply: U256,
    /// Projected fee shares.
    pub fee_shares: FeeShareProjection,
    /// Expected assets per direct position.
    pub position_expected_assets: OrderedMap<PositionKey, U256>,
    /// Signed recorded-allocation catch-up per cap.
    pub cap_catch_up: OrderedMap<CapRef, I256>,
    /// Maximum executable native deposit.
    pub max_executable_deposit_assets: U256,
    /// Atomic native exit coverage.
    pub atomic_exit_coverage_assets: U256,
}

/// Projection of a snapshot to one inclusion head.
pub struct ProjectedVaultView {
    /// Head the projection is made for.
    pub head: BlockRef,
    /// Projected Morpho markets.
    pub markets: OrderedMap<MarketId, ProjectedMarketState>,
    /// Projected parent and position state.
    pub vault: ProjectedVaultState,
}

/// Routine plan class.
#[derive(Clone, Copy, Debug, PartialEq, Eq, Structural)]
pub enum PlanReason {
    /// Preserve native user withdrawal/deposit service constraints.
    LiquidityMaintenance,
    /// Deploy strictly attributable idle assets.
    CapitalDeployment,
    /// Equalize configured direct-market spot borrow rates.
    RateRebalance,
    /// Diversify direct capital across the best native-supply-yield markets.
    TopKApyRebalance,
    /// Report a required reviewed zero-asset synchronization.
    PositionSyncRequired,
}

/// Semantic Vault V2 action before encoding.
#[derive(Debug)]
pub enum V2Action {
    /// Withdraw from one configured direct position.
    Deallocate {
        /// Derived direct-position key.
        position: PositionKey,
        /// Configured direct adapter.
        adapter: AdapterAddress,
        /// Canonical `abi.encode(MarketParams)`.
        data: Vec<u8>,
        /// Requested vault-asset units.
        requested_assets: RequestedAssets,
    },
    /// Supply into one configured direct position.
    Allocate {
        /// Derived direct-position key.
        position: PositionKey,
        /// Configured direct adapter.
        adapter: AdapterAddress,
        /// Canonical `abi.encode(MarketParams)`.
        data: Vec<u8>,
        /// Requested vault-asset units.
        requested_assets: RequestedAssets,
    },
}

/// Direction of an action.
#[derive(Clone, Copy, Debug, PartialEq, Eq, Structural)]
pub enum ActionKind {
    /// Withdraw from a position.
    Deallocate,
    /// Supply into a position.
    Allocate,
}

/// What an action says.
pub ghost struct ActionView {
    /// Direction.
    pub kind: ActionKind,
    /// Position acted on.
    pub position: PositionKey,
    /// Adapter acted through.
    pub adapter: AdapterAddress,
    /// Adapter data.
    pub data: Seq<u8>,
    /// Requested vault-asset units.
    pub requested: U256,
}

impl View for V2Action {
    type V = ActionView;

    open spec fn view(&self) -> ActionView {
        match *self {
            V2Action::Deallocate { position, adapter, data, requested_assets } => ActionView {
                kind: ActionKind::Deallocate,
                position,
                adapter,
                data: data@,
                requested: requested_assets.0,
            },
            V2Action::Allocate { position, adapter, data, requested_assets } => ActionView {
                kind: ActionKind::Allocate,
                position,
                adapter,
                data: data@,
                requested: requested_assets.0,
            },
        }
    }
}

/// What a sequence of actions says.
pub open spec fn actions_view(actions: Seq<V2Action>) -> Seq<ActionView> {
    Seq::new(actions.len(), |i: int| actions[i]@)
}

impl V2Action {
    /// Builds the action of the given direction.
    pub fn build(
        kind: ActionKind,
        position: PositionKey,
        adapter: AdapterAddress,
        data: Vec<u8>,
        requested: U256,
    ) -> (r: V2Action)
        ensures
            r@ == (ActionView { kind, position, adapter, data: data@, requested }),
    {
        match kind {
            ActionKind::Deallocate => V2Action::Deallocate {
                position,
                adapter,
                data,
                requested_assets: RequestedAssets(requested),
            },
            ActionKind::Allocate => V2Action::Allocate {
                position,
                adapter,
                data,
                requested_assets: RequestedAssets(requested),
            },
        }
    }

    /// Direction of the action.
    pub fn kind(&self) -> (r: ActionKind)
        ensures
            r == self@.kind,
    {
        match self {
            V2Action::Deallocate { .. } => ActionKind::Deallocate,
            V2Action::Allocate { .. } => ActionKind::Allocate,
        }
    }

    /// Position acted on.
    pub fn position(&self) -> (r: PositionKey)
        ensures
            r == self@.position,
    {
        match self {
            V2Action::Deallocate { position, .. } => *position,
            V2Action::Allocate { position, .. } => *position,
        }
    }

    /// Adapter acted through.
    pub fn adapter(&self) -> (r: AdapterAddress)
        ensures
            r == self@.adapter,
    {
        match self {
            V2Action::Deallocate { adapter, .. } => *adapter,
            V2Action::Allocate { adapter, .. } => *adapter,
        }
    }

    /// Adapter data.
    pub fn data(&self) -> (r: &Vec<u8>)
        ensures
            r@ == self@.data,
    {
        match self {
            V2Action::Deallocate { data, .. } => data,
            V2Action::Allocate { data, .. } => data,
        }
    }

    /// Requested vault-asset units.
    pub fn requested(&self) -> (r: U256)
        ensures
            r == self@.requested,
    {
        match self {
            V2Action::Deallocate { requested_assets, .. } => requested_assets.0,
            V2Action::Allocate { requested_assets, .. } => requested_assets.0,
        }
    }
}

impl Clone for V2Action {
    fn clone(&self) -> (r: Self)
        ensures
            r@ == self@,
    {
        V2Action::build(
            self.kind(),
            self.position(),
            self.adapter(),
            copy_bytes(self.data()),
            self.requested(),
        )
    }
}

/// Copies a sequence of actions.
pub fn copy_actions(actions: &Vec<V2Action>) -> (r: Vec<V2Action>)
    ensures
        actions_view(r@) == actions_view(actions@),
{
    let mut copy: Vec<V2Action> = Vec::new();
    let mut i: usize = 0;
    while i < actions.len()
        invariant
            i <= actions.len(),
            copy.len() == i,
            forall|j: int| 0 <= j < i ==> (#[trigger] copy@[j])@ == actions@[j]@,
        decreases actions.len() - i,
    {
        copy.push(actions[i].clone());
        i = i + 1;
    }
    assert(actions_view(copy@) =~= actions_view(actions@));
    copy
}

/// Applicable rate-spread objective branch.
#[derive(Clone, Copy, Debug, PartialEq, Eq, Structural)]
pub enum RateObjectiveBranch {
    /// Optimize spread over the full frozen evaluation set.
    Portfolio,
    /// Optimize only the frozen controllable set.
    Controllable,
}

/// Deterministic bounded-search evidence.
#[derive(Clone, Copy, Debug, PartialEq, Eq)]
pub struct SolverCertificate {
    /// Hash of the generated candidate lattice.
    pub candidate_lattice_hash: B256,
    /// Search nodes evaluated.
    pub nodes_evaluated: u64,
    /// Configured hard node limit.
    pub node_limit: u64,
    /// Whether the complete configured lattice was searched.
    pub search_complete_for_lattice: bool,
    /// Frozen rate episode, when applicable.
    pub rate_episode_id: Option<B256>,
    /// Rate objective branch, when applicable.
    pub objective_branch: Option<RateObjectiveBranch>,
    /// Whether any candidate could reach the target band.
    pub target_reachable: bool,
    /// Whether this candidate reaches the target band.
    pub target_reached: bool,
}

/// Auditable exact before/after quantities for a plan.
#[derive(Clone, Copy, Debug, PartialEq, Eq, Structural)]
pub struct PlanProjection {
    /// Total requested movement in vault-asset units.
    pub movement_assets: U256,
    /// Pre-action applicable rate spread in per-second WAD units.
    pub before_spread: U256,
    /// Post-action applicable rate spread in per-second WAD units.
    pub after_spread: U256,
    /// Immediate action-local loss in vault-asset units.
    pub immediate_loss_assets: U256,
    /// Terminal existing-shareholder value delta in vault-asset units.
    pub terminal_value_delta_assets: I256,
}

/// Unvalidated semantic plan. Transaction code accepts only a later validated wrapper.
#[derive(Debug)]
pub struct V2Plan {
    /// Stable plan ID.
    pub plan_id: PlanId,
    /// Plan class.
    pub reason: PlanReason,
    /// Target vault.
    pub vault: VaultAddress,
    /// Exact planning context.
    pub snapshot: StateContext,
    /// Static configuration revision.
    pub config_revision: B256,
    /// Dynamic topology revision.
    pub topology_revision: B256,
    /// Planner generation that produced the plan.
    pub planner_generation: u64,
    /// Ordered deallocation-first actions.
    pub actions: Vec<V2Action>,
    /// Exact projected effects.
    pub projection: PlanProjection,
    /// Bounded-search certificate.
    pub solver_certificate: SolverCertificate,
    /// Frozen rate episode, when applicable.
    pub episode_id: Option<EpisodeId>,
    /// Canonical semantic plan hash.
    pub plan_hash: B256,
}

} // verus!
