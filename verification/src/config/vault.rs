//! Validation of one vault's topology and risk limits.

use vstd::prelude::*;
use vstd::string::*;
use vstd::utf8::*;

use crate::collections::{
    entry_bound_from, lemma_entry_bound, ordered_entries, value_of_with_value, with_key, with_value,
    OrderedMap, OrderedSet,
};
use crate::domain::{
    derive_liquidity_position_key, derive_market_id, derive_position_key,
    liquidity_position_key_of, market_id_of, position_key_of, AdapterAddress, MarketId, MarketMode,
    MarketParams, PositionKey, RateGroupId, RewardPolicy, TokenAddress, VaultAddress,
};
use crate::primitives::{b256, group_b256, keccak256, keccak256_digest, Address, U256};

use super::raw::{AdapterConfig, LiquidityAdapterConfig, PositionConfig, VaultConfig};
use super::text::{
    address_in, addresses_in, amount_in, are_addresses, checks, code_hash_failure, hash_in,
    invalid, is_address, is_amount, is_hash, not_a_hash, not_an_address, not_an_amount,
    parse_address, parse_addresses, parse_hash, parse_nonzero_hash, parse_u256, settles,
    validation, ConfigError, ConfigFailure,
};
use super::{
    RateGroupView, ValidatedAdapterConfig, ValidatedLiquidityAdapterConfig,
    ValidatedPositionConfig, ValidatedRateGroupConfig, ValidatedVaultConfig, VaultView,
};

verus! {

/// The first rule that a reward policy breaks.
pub open spec fn reward_policy_failure(policy: RewardPolicy, required_validity: u64) -> Option<
    ConfigFailure,
> {
    let expired = invalid(
        "vault.position.reward_policy.valid_until_timestamp",
        "reward evidence does not cover the configured benefit horizon",
    );
    match policy {
        RewardPolicy::NoMaterialRewards { valid_until_timestamp, evidence_hash, .. } => {
            if evidence_hash@ == 0 {
                Some(
                    invalid(
                        "vault.position.reward_policy.evidence_hash",
                        "evidence hash must be nonzero",
                    ),
                )
            } else if valid_until_timestamp < required_validity {
                Some(expired)
            } else {
                None
            }
        },
        RewardPolicy::Modeled { model_revision, valid_until_timestamp } => {
            if model_revision@ == 0 {
                Some(
                    invalid(
                        "vault.position.reward_policy.model_revision",
                        "model revision must be nonzero",
                    ),
                )
            } else if valid_until_timestamp < required_validity {
                Some(expired)
            } else {
                None
            }
        },
        RewardPolicy::IgnoreRewardsByCuratorMandate { policy_revision } => {
            if policy_revision@ == 0 {
                Some(
                    invalid(
                        "vault.position.reward_policy.policy_revision",
                        "policy revision must be nonzero",
                    ),
                )
            } else {
                None
            }
        },
        RewardPolicy::FixedUntilModeled => None,
    }
}

/// Validates reward evidence through a required timestamp.
pub fn validate_reward_policy(policy: &RewardPolicy, required_validity: u64) -> (r: Result<
    (),
    ConfigError,
>)
    ensures
        checks(r, reward_policy_failure(*policy, required_validity)),
{
    let validity: Option<u64> = match policy {
        RewardPolicy::NoMaterialRewards { valid_until_timestamp, evidence_hash, .. } => {
            if evidence_hash.is_zero() {
                return Err(
                    validation(
                        "vault.position.reward_policy.evidence_hash",
                        "evidence hash must be nonzero",
                    ),
                );
            }
            Some(*valid_until_timestamp)
        },
        RewardPolicy::Modeled { model_revision, valid_until_timestamp } => {
            if model_revision.is_zero() {
                return Err(
                    validation(
                        "vault.position.reward_policy.model_revision",
                        "model revision must be nonzero",
                    ),
                );
            }
            Some(*valid_until_timestamp)
        },
        RewardPolicy::IgnoreRewardsByCuratorMandate { policy_revision } => {
            if policy_revision.is_zero() {
                return Err(
                    validation(
                        "vault.position.reward_policy.policy_revision",
                        "policy revision must be nonzero",
                    ),
                );
            }
            None
        },
        RewardPolicy::FixedUntilModeled => None,
    };
    if let Some(timestamp) = validity {
        if timestamp < required_validity {
            return Err(
                validation(
                    "vault.position.reward_policy.valid_until_timestamp",
                    "reward evidence does not cover the configured benefit horizon",
                ),
            );
        }
    }
    Ok(())
}

/// Sorted distinct addresses of the first `count` elements.
pub open spec fn sorted_addresses(values: Seq<Address>, count: int) -> Seq<Address>
    decreases count,
{
    if count <= 0 {
        Seq::empty()
    } else {
        with_key(sorted_addresses(values, count - 1), values[count - 1])
    }
}

fn sort_addresses(values: &Vec<Address>) -> (r: Vec<Address>)
    ensures
        r@ == sorted_addresses(values@, values@.len() as int),
{
    let mut set: OrderedSet<Address> = OrderedSet::new();
    let mut i: usize = 0;
    while i < values.len()
        invariant
            i <= values.len(),
            set@ == sorted_addresses(values@, i as int),
        decreases values.len() - i,
    {
        let _added = set.insert(values[i]);
        i = i + 1;
    }
    let mut sorted: Vec<Address> = Vec::new();
    let mut j: usize = 0;
    while j < set.len()
        invariant
            j <= set@.len(),
            sorted@ == set@.subrange(0, j as int),
        decreases set@.len() - j,
    {
        sorted.push(set.at(j));
        j = j + 1;
    }
    assert(sorted@ =~= set@);
    sorted
}

fn has_address(values: &Vec<Address>, address: Address) -> (r: bool)
    ensures
        r == values@.contains(address),
{
    let mut i: usize = 0;
    while i < values.len()
        invariant
            i <= values.len(),
            forall|j: int| 0 <= j < i ==> values@[j] != address,
        decreases values.len() - i,
    {
        if values[i] == address {
            assert(values@[i as int] == address);
            return true;
        }
        i = i + 1;
    }
    false
}

/// The first rule that a direct adapter breaks.
pub open spec fn adapter_failure(adapter: AdapterConfig) -> Option<ConfigFailure> {
    if adapter.maximum_markets == 0 {
        Some(invalid("vault.adapter.maximum_markets", "must be positive"))
    } else if !is_address(adapter.address@) {
        Some(not_an_address("vault.adapter.address"))
    } else {
        code_hash_failure("vault.adapter.expected_code_hash", adapter.expected_code_hash@)
    }
}

/// The canonical form of a direct adapter.
pub open spec fn canonical_adapter(adapter: AdapterConfig) -> ValidatedAdapterConfig {
    ValidatedAdapterConfig {
        address: AdapterAddress(address_in(adapter.address@)),
        kind: adapter.kind,
        expected_code_hash: hash_in(adapter.expected_code_hash@),
        maximum_markets: adapter.maximum_markets,
    }
}

/// The first rule that the adapters from index `from` on break.
pub open spec fn adapters_failure_from(adapters: Seq<AdapterConfig>, from: int) -> Option<
    ConfigFailure,
>
    decreases adapters.len() - from,
{
    if from >= adapters.len() {
        None
    } else if adapter_failure(adapters[from]) is Some {
        adapter_failure(adapters[from])
    } else {
        adapters_failure_from(adapters, from + 1)
    }
}

/// Canonical adapters of the first `count`, by address.
pub open spec fn adapters_by_address(adapters: Seq<AdapterConfig>, count: int) -> Seq<
    (AdapterAddress, ValidatedAdapterConfig),
>
    decreases count,
{
    if count <= 0 {
        Seq::empty()
    } else {
        with_value(
            adapters_by_address(adapters, count - 1),
            canonical_adapter(adapters[count - 1]).address,
            canonical_adapter(adapters[count - 1]),
        )
    }
}

fn validate_adapter(adapter: &AdapterConfig) -> (r: Result<ValidatedAdapterConfig, ConfigError>)
    ensures
        match adapter_failure(*adapter) {
            Some(failure) => r is Err && r->Err_0@ == failure,
            None => r is Ok && r->Ok_0 == canonical_adapter(*adapter),
        },
{
    if adapter.maximum_markets == 0 {
        return Err(validation("vault.adapter.maximum_markets", "must be positive"));
    }
    let address = AdapterAddress(parse_address("vault.adapter.address", adapter.address.as_str())?);
    let expected_code_hash = parse_nonzero_hash(
        "vault.adapter.expected_code_hash",
        adapter.expected_code_hash.as_str(),
    )?;
    Ok(
        ValidatedAdapterConfig {
            address,
            kind: adapter.kind,
            expected_code_hash,
            maximum_markets: adapter.maximum_markets,
        },
    )
}

fn validate_adapters(adapters: &Vec<AdapterConfig>) -> (r: Result<
    OrderedMap<AdapterAddress, ValidatedAdapterConfig>,
    ConfigError,
>)
    ensures
        settles(
            r,
            adapters_failure_from(adapters@, 0),
            adapters_by_address(adapters@, adapters@.len() as int),
        ),
{
    let mut by_address: OrderedMap<AdapterAddress, ValidatedAdapterConfig> = OrderedMap::new();
    let mut i: usize = 0;
    while i < adapters.len()
        invariant
            i <= adapters.len(),
            adapters_failure_from(adapters@, 0) == adapters_failure_from(adapters@, i as int),
            by_address@ == adapters_by_address(adapters@, i as int),
        decreases adapters.len() - i,
    {
        let adapter = validate_adapter(&adapters[i])?;
        by_address.insert(adapter.address, adapter);
        i = i + 1;
    }
    Ok(by_address)
}

/// Whether entries hold an adapter address.
pub open spec fn is_direct_adapter(
    adapters: Seq<(AdapterAddress, ValidatedAdapterConfig)>,
    address: AdapterAddress,
) -> bool {
    crate::collections::value_of(adapters, address) is Some
}

/// The values of ordered entries.
pub open spec fn values_of<K, V>(entries: Seq<(K, V)>) -> Seq<V> {
    Seq::new(entries.len(), |i: int| entries[i].1)
}

fn list_adapters(entries: &OrderedMap<AdapterAddress, ValidatedAdapterConfig>) -> (r: Vec<
    ValidatedAdapterConfig,
>)
    ensures
        r@ == values_of(entries@),
{
    let mut adapters: Vec<ValidatedAdapterConfig> = Vec::new();
    let mut i: usize = 0;
    while i < entries.len()
        invariant
            i <= entries@.len(),
            adapters@ == values_of(entries@).subrange(0, i as int),
        decreases entries@.len() - i,
    {
        adapters.push(entries.at(i).1);
        i = i + 1;
        assert(adapters@ =~= values_of(entries@).subrange(0, i as int));
    }
    assert(adapters@ =~= values_of(entries@));
    adapters
}

/// The rule on the action limit of a liquidity-only adapter, where it is broken.
pub open spec fn action_limit_failure(maximum_action_assets: U256) -> Option<ConfigFailure> {
    if maximum_action_assets@ > 0 {
        None
    } else {
        Some(invalid("vault.liquidity_adapter.maximum_action_assets", "must be positive"))
    }
}

/// Checks the parsed action limit of a liquidity-only adapter.
pub fn check_action_limit(maximum_action_assets: U256) -> (r: Result<(), ConfigError>)
    ensures
        checks(r, action_limit_failure(maximum_action_assets)),
{
    if maximum_action_assets.is_zero() {
        return Err(validation("vault.liquidity_adapter.maximum_action_assets", "must be positive"));
    }
    Ok(())
}

/// The first rule that a liquidity-only adapter breaks.
pub open spec fn liquidity_adapter_failure(
    adapter: LiquidityAdapterConfig,
    adapters: Seq<(AdapterAddress, ValidatedAdapterConfig)>,
) -> Option<ConfigFailure> {
    let code = code_hash_failure(
        "vault.liquidity_adapter.expected_code_hash",
        adapter.expected_code_hash@,
    );
    if !is_address(adapter.address@) {
        Some(not_an_address("vault.liquidity_adapter.address"))
    } else if is_direct_adapter(adapters, AdapterAddress(address_in(adapter.address@))) {
        Some(
            invalid(
                "vault.liquidity_adapter.address",
                "liquidity-only adapter must not also be configured as a direct adapter",
            ),
        )
    } else if !is_amount(adapter.maximum_action_assets@) {
        Some(not_an_amount("vault.liquidity_adapter.maximum_action_assets"))
    } else if action_limit_failure(amount_in(adapter.maximum_action_assets@)) is Some {
        action_limit_failure(amount_in(adapter.maximum_action_assets@))
    } else if code is Some {
        code
    } else if !is_address(adapter.morpho_vault_v1@) {
        Some(not_an_address("vault.liquidity_adapter.morpho_vault_v1"))
    } else {
        code_hash_failure(
            "vault.liquidity_adapter.expected_morpho_vault_v1_code_hash",
            adapter.expected_morpho_vault_v1_code_hash@,
        )
    }
}

/// The canonical form of a liquidity-only adapter.
pub open spec fn canonical_liquidity_adapter(
    adapter: LiquidityAdapterConfig,
) -> ValidatedLiquidityAdapterConfig {
    let address = AdapterAddress(address_in(adapter.address@));
    ValidatedLiquidityAdapterConfig {
        position_key: liquidity_position_key_of(address),
        address,
        kind: adapter.kind,
        expected_code_hash: hash_in(adapter.expected_code_hash@),
        morpho_vault_v1: address_in(adapter.morpho_vault_v1@),
        expected_morpho_vault_v1_code_hash: hash_in(adapter.expected_morpho_vault_v1_code_hash@),
        maximum_action_assets: amount_in(adapter.maximum_action_assets@),
    }
}

fn validate_liquidity_adapter(
    adapter: &LiquidityAdapterConfig,
    adapters: &OrderedMap<AdapterAddress, ValidatedAdapterConfig>,
) -> (r: Result<ValidatedLiquidityAdapterConfig, ConfigError>)
    ensures
        match liquidity_adapter_failure(*adapter, adapters@) {
            Some(failure) => r is Err && r->Err_0@ == failure,
            None => r is Ok && r->Ok_0 == canonical_liquidity_adapter(*adapter),
        },
{
    let address = AdapterAddress(
        parse_address("vault.liquidity_adapter.address", adapter.address.as_str())?,
    );
    if adapters.contains_key(address) {
        return Err(
            validation(
                "vault.liquidity_adapter.address",
                "liquidity-only adapter must not also be configured as a direct adapter",
            ),
        );
    }
    let maximum_action_assets = parse_u256(
        "vault.liquidity_adapter.maximum_action_assets",
        adapter.maximum_action_assets.as_str(),
    )?;
    check_action_limit(maximum_action_assets)?;
    let expected_code_hash = parse_nonzero_hash(
        "vault.liquidity_adapter.expected_code_hash",
        adapter.expected_code_hash.as_str(),
    )?;
    let morpho_vault_v1 = parse_address(
        "vault.liquidity_adapter.morpho_vault_v1",
        adapter.morpho_vault_v1.as_str(),
    )?;
    let expected_morpho_vault_v1_code_hash = parse_nonzero_hash(
        "vault.liquidity_adapter.expected_morpho_vault_v1_code_hash",
        adapter.expected_morpho_vault_v1_code_hash.as_str(),
    )?;
    Ok(
        ValidatedLiquidityAdapterConfig {
            position_key: derive_liquidity_position_key(address),
            address,
            kind: adapter.kind,
            expected_code_hash,
            morpho_vault_v1,
            expected_morpho_vault_v1_code_hash,
            maximum_action_assets,
        },
    )
}

/// What positions of one vault are validated against.
pub ghost struct PositionContext {
    /// Direct adapters by address.
    pub adapters: Seq<(AdapterAddress, ValidatedAdapterConfig)>,
    /// Vault asset.
    pub asset: Address,
    /// Rate group name.
    pub group: Seq<char>,
    /// Rate group ID.
    pub group_id: RateGroupId,
    /// Timestamp through which reward evidence must be valid.
    pub required_validity: u64,
}

/// The market parameters of a position.
pub open spec fn params_in(position: PositionConfig) -> MarketParams {
    MarketParams {
        loan_token: address_in(position.loan_token@),
        collateral_token: address_in(position.collateral_token@),
        oracle: address_in(position.oracle@),
        irm: address_in(position.irm@),
        lltv: amount_in(position.lltv@),
    }
}

/// First broken rule of a position's identity.
pub open spec fn position_identity_failure(
    position: PositionConfig,
    context: PositionContext,
) -> Option<ConfigFailure> {
    if !is_address(position.adapter@) {
        Some(not_an_address("vault.position.adapter"))
    } else if !is_direct_adapter(
        context.adapters,
        AdapterAddress(address_in(position.adapter@)),
    ) {
        Some(
            invalid(
                "vault.position.adapter",
                "position references an unconfigured adapter",
            ),
        )
    } else if position.rate_group@ != context.group {
        Some(
            invalid(
                "vault.position.rate_group",
                "position references an unknown rate group",
            ),
        )
    } else if !is_address(position.loan_token@) {
        Some(not_an_address("vault.position.loan_token"))
    } else if !is_address(position.collateral_token@) {
        Some(not_an_address("vault.position.collateral_token"))
    } else if !is_address(position.oracle@) {
        Some(not_an_address("vault.position.oracle"))
    } else if !is_address(position.irm@) {
        Some(not_an_address("vault.position.irm"))
    } else if !is_amount(position.lltv@) {
        Some(not_an_amount("vault.position.lltv"))
    } else if address_in(position.loan_token@) != context.asset {
        Some(invalid("vault.position.loan_token", "loan token differs from vault asset"))
    } else if !is_hash(position.market_id@) {
        Some(not_a_hash("vault.position.market_id"))
    } else if MarketId(hash_in(position.market_id@)) != market_id_of(params_in(position)) {
        Some(
            invalid(
                "vault.position.market_id",
                "configured market ID differs from exact derivation",
            ),
        )
    } else {
        reward_policy_failure(position.reward_policy, context.required_validity)
    }
}

/// The rule on relevance thresholds of a position, where it is broken.
pub open spec fn relevance_failure(entry_assets: U256, exit_assets: U256) -> Option<ConfigFailure> {
    if exit_assets@ < entry_assets@ {
        None
    } else {
        Some(
            invalid(
                "vault.position.minimum_relevance_entry_assets",
                "entry relevance must exceed exit relevance",
            ),
        )
    }
}

/// Checks the parsed relevance thresholds of a position.
pub fn check_relevance(entry_assets: U256, exit_assets: U256) -> (r: Result<(), ConfigError>)
    ensures
        checks(r, relevance_failure(entry_assets, exit_assets)),
{
    if entry_assets.le(exit_assets) {
        return Err(
            validation(
                "vault.position.minimum_relevance_entry_assets",
                "entry relevance must exceed exit relevance",
            ),
        );
    }
    Ok(())
}

/// The rule on the asset range of a position, where it is broken.
pub open spec fn position_range_failure(
    minimum_assets: U256,
    maximum_assets: U256,
) -> Option<ConfigFailure> {
    if minimum_assets@ <= maximum_assets@ {
        None
    } else {
        Some(invalid("vault.position", "minimum position exceeds maximum position"))
    }
}

/// Checks the parsed asset range of a position.
pub fn check_position_range(
    minimum_assets: U256,
    maximum_assets: U256,
) -> (r: Result<(), ConfigError>)
    ensures
        checks(r, position_range_failure(minimum_assets, maximum_assets)),
{
    if maximum_assets.lt(minimum_assets) {
        return Err(validation("vault.position", "minimum position exceeds maximum position"));
    }
    Ok(())
}

/// First broken rule of a position's limits.
pub open spec fn position_limit_failure(position: PositionConfig) -> Option<ConfigFailure> {
    let relevance = relevance_failure(
        amount_in(position.minimum_relevance_entry_assets@),
        amount_in(position.minimum_relevance_exit_assets@),
    );
    let range = position_range_failure(
        amount_in(position.minimum_position_assets@),
        amount_in(position.maximum_position_assets@),
    );
    if !is_amount(position.minimum_relevance_entry_assets@) {
        Some(not_an_amount("vault.position.minimum_relevance_entry_assets"))
    } else if !is_amount(position.minimum_relevance_exit_assets@) {
        Some(not_an_amount("vault.position.minimum_relevance_exit_assets"))
    } else if relevance is Some {
        relevance
    } else if !is_amount(position.minimum_position_assets@) {
        Some(not_an_amount("vault.position.minimum_position_assets"))
    } else if !is_amount(position.maximum_position_assets@) {
        Some(not_an_amount("vault.position.maximum_position_assets"))
    } else if range is Some {
        range
    } else if !is_amount(position.minimum_source_liquidity_assets@) {
        Some(not_an_amount("vault.position.minimum_source_liquidity_assets"))
    } else if !is_amount(position.maximum_source_utilization_wad@) {
        Some(not_an_amount("vault.position.maximum_source_utilization_wad"))
    } else if !is_amount(position.minimum_rate_relevant_market_supply_assets@) {
        Some(not_an_amount("vault.position.minimum_rate_relevant_market_supply_assets"))
    } else if !is_amount(position.minimum_rate_relevant_market_borrow_assets@) {
        Some(not_an_amount("vault.position.minimum_rate_relevant_market_borrow_assets"))
    } else if !is_amount(position.minimum_destination_market_supply_assets@) {
        Some(not_an_amount("vault.position.minimum_destination_market_supply_assets"))
    } else if !is_amount(position.minimum_destination_market_supply_shares@) {
        Some(not_an_amount("vault.position.minimum_destination_market_supply_shares"))
    } else if !is_amount(position.maximum_action_assets@) {
        Some(not_an_amount("vault.position.maximum_action_assets"))
    } else if !is_amount(position.complete_exit_dust_threshold_assets@) {
        Some(not_an_amount("vault.position.complete_exit_dust_threshold_assets"))
    } else {
        None
    }
}

/// The first rule that a position breaks.
pub open spec fn position_failure(position: PositionConfig, context: PositionContext) -> Option<
    ConfigFailure,
> {
    if position_identity_failure(position, context) is Some {
        position_identity_failure(position, context)
    } else {
        position_limit_failure(position)
    }
}

/// The canonical form of a position.
pub open spec fn canonical_position(
    position: PositionConfig,
    group_id: RateGroupId,
) -> ValidatedPositionConfig {
    let adapter = AdapterAddress(address_in(position.adapter@));
    let params = params_in(position);
    ValidatedPositionConfig {
        position_key: position_key_of(adapter, params),
        adapter,
        market_params: params,
        market_id: market_id_of(params),
        mode: position.mode,
        rate_group: group_id,
        minimum_position_assets: amount_in(position.minimum_position_assets@),
        maximum_position_assets: amount_in(position.maximum_position_assets@),
        minimum_source_liquidity_assets: amount_in(position.minimum_source_liquidity_assets@),
        maximum_source_utilization_wad: amount_in(position.maximum_source_utilization_wad@),
        minimum_relevance_entry_assets: amount_in(position.minimum_relevance_entry_assets@),
        minimum_relevance_exit_assets: amount_in(position.minimum_relevance_exit_assets@),
        minimum_rate_relevant_market_supply_assets: amount_in(
            position.minimum_rate_relevant_market_supply_assets@,
        ),
        minimum_rate_relevant_market_borrow_assets: amount_in(
            position.minimum_rate_relevant_market_borrow_assets@,
        ),
        minimum_destination_market_supply_assets: amount_in(
            position.minimum_destination_market_supply_assets@,
        ),
        minimum_destination_market_supply_shares: amount_in(
            position.minimum_destination_market_supply_shares@,
        ),
        maximum_action_assets: amount_in(position.maximum_action_assets@),
        allow_active_complete_exit: position.allow_active_complete_exit,
        complete_exit_dust_threshold_assets: amount_in(
            position.complete_exit_dust_threshold_assets@,
        ),
        reward_policy: position.reward_policy,
    }
}

/// The first rule that the positions from index `from` on break.
pub open spec fn positions_failure_from(
    positions: Seq<PositionConfig>,
    context: PositionContext,
    from: int,
) -> Option<ConfigFailure>
    decreases positions.len() - from,
{
    if from >= positions.len() {
        None
    } else if position_failure(positions[from], context) is Some {
        position_failure(positions[from], context)
    } else {
        positions_failure_from(positions, context, from + 1)
    }
}

/// Canonical positions of the first `count`, by position key.
pub open spec fn positions_by_key(
    positions: Seq<PositionConfig>,
    group_id: RateGroupId,
    count: int,
) -> Seq<(PositionKey, ValidatedPositionConfig)>
    decreases count,
{
    if count <= 0 {
        Seq::empty()
    } else {
        let position = canonical_position(positions[count - 1], group_id);
        with_value(
            positions_by_key(positions, group_id, count - 1),
            position.position_key,
            position,
        )
    }
}

struct PositionRules<'a> {
    adapters: &'a OrderedMap<AdapterAddress, ValidatedAdapterConfig>,
    asset: Address,
    group: &'a String,
    group_id: RateGroupId,
    required_validity: u64,
}

impl<'a> PositionRules<'a> {
    spec fn context(&self) -> PositionContext {
        PositionContext {
            adapters: self.adapters@,
            asset: self.asset,
            group: self.group@,
            group_id: self.group_id,
            required_validity: self.required_validity,
        }
    }

    fn validate_identity(&self, position: &PositionConfig) -> (r: Result<
        (AdapterAddress, MarketParams, MarketId),
        ConfigError,
    >)
        ensures
            match position_identity_failure(*position, self.context()) {
                Some(failure) => r is Err && r->Err_0@ == failure,
                None => r is Ok && r->Ok_0 == (
                    AdapterAddress(address_in(position.adapter@)),
                    params_in(*position),
                    market_id_of(params_in(*position)),
                ),
            },
    {
        let adapter = AdapterAddress(
            parse_address("vault.position.adapter", position.adapter.as_str())?,
        );
        if !self.adapters.contains_key(adapter) {
            return Err(
                validation("vault.position.adapter", "position references an unconfigured adapter"),
            );
        }
        if position.rate_group != *self.group {
            return Err(
                validation("vault.position.rate_group", "position references an unknown rate group"),
            );
        }
        let loan_token = parse_address("vault.position.loan_token", position.loan_token.as_str())?;
        let collateral_token = parse_address(
            "vault.position.collateral_token",
            position.collateral_token.as_str(),
        )?;
        let oracle = parse_address("vault.position.oracle", position.oracle.as_str())?;
        let irm = parse_address("vault.position.irm", position.irm.as_str())?;
        let lltv = parse_u256("vault.position.lltv", position.lltv.as_str())?;
        let params = MarketParams { loan_token, collateral_token, oracle, irm, lltv };
        if params.loan_token != self.asset {
            return Err(
                validation("vault.position.loan_token", "loan token differs from vault asset"),
            );
        }
        let derived_market_id = derive_market_id(&params);
        let configured_market_id = MarketId(
            parse_hash("vault.position.market_id", position.market_id.as_str())?,
        );
        if configured_market_id != derived_market_id {
            return Err(
                validation(
                    "vault.position.market_id",
                    "configured market ID differs from exact derivation",
                ),
            );
        }
        validate_reward_policy(&position.reward_policy, self.required_validity)?;
        Ok((adapter, params, derived_market_id))
    }

    fn validate(&self, position: &PositionConfig) -> (r: Result<
        ValidatedPositionConfig,
        ConfigError,
    >)
        ensures
            match position_failure(*position, self.context()) {
                Some(failure) => r is Err && r->Err_0@ == failure,
                None => r is Ok && r->Ok_0 == canonical_position(*position, self.group_id),
            },
    {
        let (adapter, market_params, market_id) = self.validate_identity(position)?;
        let minimum_relevance_entry_assets = parse_u256(
            "vault.position.minimum_relevance_entry_assets",
            position.minimum_relevance_entry_assets.as_str(),
        )?;
        let minimum_relevance_exit_assets = parse_u256(
            "vault.position.minimum_relevance_exit_assets",
            position.minimum_relevance_exit_assets.as_str(),
        )?;
        check_relevance(minimum_relevance_entry_assets, minimum_relevance_exit_assets)?;
        let minimum_position_assets = parse_u256(
            "vault.position.minimum_position_assets",
            position.minimum_position_assets.as_str(),
        )?;
        let maximum_position_assets = parse_u256(
            "vault.position.maximum_position_assets",
            position.maximum_position_assets.as_str(),
        )?;
        check_position_range(minimum_position_assets, maximum_position_assets)?;
        let minimum_source_liquidity_assets = parse_u256(
            "vault.position.minimum_source_liquidity_assets",
            position.minimum_source_liquidity_assets.as_str(),
        )?;
        let maximum_source_utilization_wad = parse_u256(
            "vault.position.maximum_source_utilization_wad",
            position.maximum_source_utilization_wad.as_str(),
        )?;
        let minimum_rate_relevant_market_supply_assets = parse_u256(
            "vault.position.minimum_rate_relevant_market_supply_assets",
            position.minimum_rate_relevant_market_supply_assets.as_str(),
        )?;
        let minimum_rate_relevant_market_borrow_assets = parse_u256(
            "vault.position.minimum_rate_relevant_market_borrow_assets",
            position.minimum_rate_relevant_market_borrow_assets.as_str(),
        )?;
        let minimum_destination_market_supply_assets = parse_u256(
            "vault.position.minimum_destination_market_supply_assets",
            position.minimum_destination_market_supply_assets.as_str(),
        )?;
        let minimum_destination_market_supply_shares = parse_u256(
            "vault.position.minimum_destination_market_supply_shares",
            position.minimum_destination_market_supply_shares.as_str(),
        )?;
        let maximum_action_assets = parse_u256(
            "vault.position.maximum_action_assets",
            position.maximum_action_assets.as_str(),
        )?;
        let complete_exit_dust_threshold_assets = parse_u256(
            "vault.position.complete_exit_dust_threshold_assets",
            position.complete_exit_dust_threshold_assets.as_str(),
        )?;
        Ok(
            ValidatedPositionConfig {
                position_key: derive_position_key(adapter, &market_params),
                adapter,
                market_params,
                market_id,
                mode: position.mode,
                rate_group: self.group_id,
                minimum_position_assets,
                maximum_position_assets,
                minimum_source_liquidity_assets,
                maximum_source_utilization_wad,
                minimum_relevance_entry_assets,
                minimum_relevance_exit_assets,
                minimum_rate_relevant_market_supply_assets,
                minimum_rate_relevant_market_borrow_assets,
                minimum_destination_market_supply_assets,
                minimum_destination_market_supply_shares,
                maximum_action_assets,
                allow_active_complete_exit: position.allow_active_complete_exit,
                complete_exit_dust_threshold_assets,
                reward_policy: position.reward_policy,
            },
        )
    }

    fn validate_all(&self, positions: &Vec<PositionConfig>) -> (r: Result<
        OrderedMap<PositionKey, ValidatedPositionConfig>,
        ConfigError,
    >)
        ensures
            settles(
                r,
                positions_failure_from(positions@, self.context(), 0),
                positions_by_key(positions@, self.group_id, positions@.len() as int),
            ),
    {
        let mut by_key: OrderedMap<PositionKey, ValidatedPositionConfig> = OrderedMap::new();
        let mut i: usize = 0;
        while i < positions.len()
            invariant
                i <= positions.len(),
                positions_failure_from(positions@, self.context(), 0) == positions_failure_from(
                    positions@,
                    self.context(),
                    i as int,
                ),
                by_key@ == positions_by_key(positions@, self.group_id, i as int),
            decreases positions.len() - i,
        {
            let position = self.validate(&positions[i])?;
            by_key.insert(position.position_key, position);
            i = i + 1;
        }
        Ok(by_key)
    }
}

/// Distinct market IDs of the first `count` positions.
pub open spec fn markets_in(
    positions: Seq<(PositionKey, ValidatedPositionConfig)>,
    count: int,
) -> Seq<MarketId>
    decreases count,
{
    if count <= 0 {
        Seq::empty()
    } else {
        with_key(markets_in(positions, count - 1), positions[count - 1].1.market_id)
    }
}

/// Number of movable positions among the first `count`.
pub open spec fn active_in(
    positions: Seq<(PositionKey, ValidatedPositionConfig)>,
    count: int,
) -> nat
    decreases count,
{
    if count <= 0 {
        0
    } else {
        active_in(positions, count - 1) + if positions[count - 1].1.mode == MarketMode::Active {
            1nat
        } else {
            0
        }
    }
}

fn count_markets(positions: &OrderedMap<PositionKey, ValidatedPositionConfig>) -> (r: usize)
    ensures
        r == markets_in(positions@, positions@.len() as int).len(),
{
    let mut markets: OrderedSet<MarketId> = OrderedSet::new();
    let mut i: usize = 0;
    while i < positions.len()
        invariant
            i <= positions@.len(),
            markets@ == markets_in(positions@, i as int),
        decreases positions@.len() - i,
    {
        let _added = markets.insert(positions.at(i).1.market_id);
        i = i + 1;
    }
    markets.len()
}

fn count_active(positions: &OrderedMap<PositionKey, ValidatedPositionConfig>) -> (r: usize)
    ensures
        r == active_in(positions@, positions@.len() as int),
{
    let mut active: usize = 0;
    let mut i: usize = 0;
    while i < positions.len()
        invariant
            i <= positions@.len(),
            active == active_in(positions@, i as int),
            active <= i,
        decreases positions@.len() - i,
    {
        if positions.at(i).1.mode == MarketMode::Active {
            active = active + 1;
        }
        i = i + 1;
    }
    active
}

fn list_positions(entries: &OrderedMap<PositionKey, ValidatedPositionConfig>) -> (r: Vec<
    ValidatedPositionConfig,
>)
    ensures
        r@ == values_of(entries@),
{
    let mut positions: Vec<ValidatedPositionConfig> = Vec::new();
    let mut i: usize = 0;
    while i < entries.len()
        invariant
            i <= entries@.len(),
            positions@ == values_of(entries@).subrange(0, i as int),
        decreases entries@.len() - i,
    {
        positions.push(entries.at(i).1);
        i = i + 1;
        assert(positions@ =~= values_of(entries@).subrange(0, i as int));
    }
    assert(positions@ =~= values_of(entries@));
    positions
}

/// The rate group ID of a name.
pub open spec fn group_id_of(name: Seq<char>) -> RateGroupId {
    RateGroupId(b256(keccak256_digest(encode_utf8(name))))
}

/// The rule on movement limits of a vault, where it is broken.
pub open spec fn movement_failure(
    action_assets: U256,
    hourly_assets: U256,
    daily_assets: U256,
    event_assets: U256,
) -> Option<ConfigFailure> {
    if 0 < action_assets@ <= hourly_assets@ <= daily_assets@ && event_assets@ > 0 {
        None
    } else {
        Some(
            invalid(
                "vault.movement_limits",
                "minimum action and event amount must be positive, with hourly >= action and daily >= hourly",
            ),
        )
    }
}

/// Checks the parsed movement limits of a vault.
pub fn check_movement_limits(
    action_assets: U256,
    hourly_assets: U256,
    daily_assets: U256,
    event_assets: U256,
) -> (r: Result<(), ConfigError>)
    ensures
        checks(r, movement_failure(action_assets, hourly_assets, daily_assets, event_assets)),
{
    if action_assets.is_zero() || hourly_assets.lt(action_assets) || daily_assets.lt(hourly_assets)
        || event_assets.is_zero() {
        return Err(
            validation(
                "vault.movement_limits",
                "minimum action and event amount must be positive, with hourly >= action and daily >= hourly",
            ),
        );
    }
    Ok(())
}

/// The rule on the deposit headroom search of a vault, where it is broken.
pub open spec fn headroom_search_failure(
    minimum_headroom_assets: U256,
    search_upper_bound_assets: U256,
) -> Option<ConfigFailure> {
    if search_upper_bound_assets@ > 0 && minimum_headroom_assets@ <= search_upper_bound_assets@ {
        None
    } else {
        Some(
            invalid(
                "vault.deposit_headroom_search_upper_bound_assets",
                "must be nonzero and cover minimum deposit headroom",
            ),
        )
    }
}

/// Checks the parsed deposit headroom search of a vault.
pub fn check_headroom_search(
    minimum_headroom_assets: U256,
    search_upper_bound_assets: U256,
) -> (r: Result<(), ConfigError>)
    ensures
        checks(r, headroom_search_failure(minimum_headroom_assets, search_upper_bound_assets)),
{
    if search_upper_bound_assets.is_zero() || search_upper_bound_assets.lt(minimum_headroom_assets) {
        return Err(
            validation(
                "vault.deposit_headroom_search_upper_bound_assets",
                "must be nonzero and cover minimum deposit headroom",
            ),
        );
    }
    Ok(())
}

/// First broken rule of a vault's identity, movement limits and allowlists.
pub open spec fn vault_limit_failure(vault: VaultConfig) -> Option<ConfigFailure> {
    let movement = movement_failure(
        amount_in(vault.minimum_action_assets@),
        amount_in(vault.maximum_movement_per_hour_assets@),
        amount_in(vault.maximum_movement_per_day_assets@),
        amount_in(vault.minimum_independent_event_assets@),
    );
    let headroom = headroom_search_failure(
        amount_in(vault.minimum_deposit_headroom_assets@),
        amount_in(vault.deposit_headroom_search_upper_bound_assets@),
    );
    if vault.rate_group@.len() != 1 {
        Some(
            invalid("vault.rate_group", "release one requires exactly one active rate group"),
        )
    } else if !is_address(vault.address@) {
        Some(not_an_address("vault.address"))
    } else if !is_address(vault.asset@) {
        Some(not_an_address("vault.asset"))
    } else if !is_address(vault.signer_address@) {
        Some(not_an_address("vault.signer_address"))
    } else if vault.asset_decimals == 0 {
        Some(invalid("vault.asset_decimals", "asset decimals must be nonzero"))
    } else if !is_amount(vault.minimum_action_assets@) {
        Some(not_an_amount("vault.minimum_action_assets"))
    } else if !is_amount(vault.maximum_movement_per_hour_assets@) {
        Some(not_an_amount("vault.maximum_movement_per_hour_assets"))
    } else if !is_amount(vault.maximum_movement_per_day_assets@) {
        Some(not_an_amount("vault.maximum_movement_per_day_assets"))
    } else if !is_amount(vault.minimum_independent_event_assets@) {
        Some(not_an_amount("vault.minimum_independent_event_assets"))
    } else if movement is Some {
        movement
    } else if !is_amount(vault.minimum_deposit_headroom_assets@) {
        Some(not_an_amount("vault.minimum_deposit_headroom_assets"))
    } else if !is_amount(vault.deposit_headroom_search_upper_bound_assets@) {
        Some(not_an_amount("vault.deposit_headroom_search_upper_bound_assets"))
    } else if headroom is Some {
        headroom
    } else if !are_addresses(vault.approved_allocators@) {
        Some(not_an_address("vault.approved_allocators"))
    } else if !addresses_in(vault.approved_allocators@).contains(
        address_in(vault.signer_address@),
    ) {
        Some(invalid("vault.signer_address", "signer is absent from approved allocators"))
    } else if !are_addresses(vault.approved_sentinels@) {
        Some(not_an_address("vault.approved_sentinels"))
    } else {
        None
    }
}

/// The rule on the assets of a rate group, where it is broken.
pub open spec fn group_assets_failure(
    minimum_assets: U256,
    target_assets: U256,
    maximum_assets: U256,
) -> Option<ConfigFailure> {
    if minimum_assets@ <= target_assets@ <= maximum_assets@ {
        None
    } else {
        Some(invalid("vault.rate_group", "group assets must satisfy minimum <= target <= maximum"))
    }
}

/// Checks the parsed assets of a rate group.
pub fn check_group_assets(
    minimum_assets: U256,
    target_assets: U256,
    maximum_assets: U256,
) -> (r: Result<(), ConfigError>)
    ensures
        checks(r, group_assets_failure(minimum_assets, target_assets, maximum_assets)),
{
    if target_assets.lt(minimum_assets) || maximum_assets.lt(target_assets) {
        return Err(
            validation(
                "vault.rate_group",
                "group assets must satisfy minimum <= target <= maximum",
            ),
        );
    }
    Ok(())
}

/// First broken rule of a vault's rate group.
pub open spec fn vault_group_failure(vault: VaultConfig) -> Option<ConfigFailure> {
    let group = vault.rate_group@[0];
    let assets = group_assets_failure(
        amount_in(group.minimum_assets@),
        amount_in(group.target_assets@),
        amount_in(group.maximum_assets@),
    );
    if !is_amount(group.minimum_assets@) {
        Some(not_an_amount("vault.rate_group.minimum_assets"))
    } else if !is_amount(group.target_assets@) {
        Some(not_an_amount("vault.rate_group.target_assets"))
    } else if !is_amount(group.maximum_assets@) {
        Some(not_an_amount("vault.rate_group.maximum_assets"))
    } else if assets is Some {
        assets
    } else if group.allow_cross_group_movement {
        Some(
            invalid(
                "vault.rate_group.allow_cross_group_movement",
                "release one does not support cross-group movement",
            ),
        )
    } else {
        None
    }
}

/// Canonical direct adapters of a vault.
pub open spec fn vault_adapters(vault: VaultConfig) -> Seq<
    (AdapterAddress, ValidatedAdapterConfig),
> {
    adapters_by_address(vault.adapter@, vault.adapter@.len() as int)
}

/// Canonical positions of a vault.
pub open spec fn vault_positions(vault: VaultConfig) -> Seq<
    (PositionKey, ValidatedPositionConfig),
> {
    positions_by_key(
        vault.position@,
        group_id_of(vault.rate_group@[0].name@),
        vault.position@.len() as int,
    )
}

/// First broken rule of a vault's adapters.
pub open spec fn vault_adapter_failure(vault: VaultConfig) -> Option<ConfigFailure> {
    if adapters_failure_from(vault.adapter@, 0) is Some {
        adapters_failure_from(vault.adapter@, 0)
    } else if vault_adapters(vault).len() != vault.adapter@.len() {
        Some(invalid("vault.adapter.address", "direct adapter address is duplicated"))
    } else {
        match vault.liquidity_adapter {
            Some(adapter) => liquidity_adapter_failure(adapter, vault_adapters(vault)),
            None => None,
        }
    }
}

/// What the positions of a vault are validated against.
pub open spec fn position_context(vault: VaultConfig, required_validity: u64) -> PositionContext {
    PositionContext {
        adapters: vault_adapters(vault),
        asset: address_in(vault.asset@),
        group: vault.rate_group@[0].name@,
        group_id: group_id_of(vault.rate_group@[0].name@),
        required_validity,
    }
}

/// First broken rule of a vault's positions.
pub open spec fn vault_position_failure(vault: VaultConfig, required_validity: u64) -> Option<
    ConfigFailure,
> {
    let context = position_context(vault, required_validity);
    let positions = vault_positions(vault);
    if positions_failure_from(vault.position@, context, 0) is Some {
        positions_failure_from(vault.position@, context, 0)
    } else if positions.len() != vault.position@.len() {
        Some(invalid("vault.position", "position identity is duplicated"))
    } else if markets_in(positions, positions.len() as int).len() != positions.len() {
        Some(
            invalid(
                "vault.position.market_id",
                "one Morpho market may appear only once per managed vault",
            ),
        )
    } else if vault.minimum_active_positions_after_economic_exit > active_in(
        positions,
        positions.len() as int,
    ) {
        Some(
            invalid(
                "vault.minimum_active_positions_after_economic_exit",
                "cannot exceed the configured Active position count",
            ),
        )
    } else {
        None
    }
}

/// First broken rule of a vault's remaining amounts.
pub open spec fn vault_amount_failure(vault: VaultConfig) -> Option<ConfigFailure> {
    let code = code_hash_failure("vault.expected_vault_code_hash", vault.expected_vault_code_hash@);
    if code is Some {
        code
    } else if !is_amount(vault.maximum_rounding_dust_assets@) {
        Some(not_an_amount("vault.maximum_rounding_dust_assets"))
    } else if !is_amount(vault.maximum_immediate_rebalance_loss_assets@) {
        Some(not_an_amount("vault.maximum_immediate_rebalance_loss_assets"))
    } else if !is_amount(vault.maximum_terminal_value_sacrifice_assets@) {
        Some(not_an_amount("vault.maximum_terminal_value_sacrifice_assets"))
    } else if !is_amount(vault.minimum_atomic_exit_coverage_assets@) {
        Some(not_an_amount("vault.minimum_atomic_exit_coverage_assets"))
    } else if !is_amount(vault.minimum_liquidity_adapter_assets@) {
        Some(not_an_amount("vault.minimum_liquidity_adapter_assets"))
    } else if !is_amount(vault.minimum_source_token_liquidity_assets@) {
        Some(not_an_amount("vault.minimum_source_token_liquidity_assets"))
    } else if !is_address(vault.required_vault_dead_address@) {
        Some(not_an_address("vault.required_vault_dead_address"))
    } else if !is_amount(vault.minimum_market_dead_supply_shares@) {
        Some(not_an_amount("vault.minimum_market_dead_supply_shares"))
    } else {
        None
    }
}

/// The first rule that a vault breaks.
pub open spec fn vault_failure(vault: VaultConfig, required_validity: u64) -> Option<
    ConfigFailure,
> {
    if vault_limit_failure(vault) is Some {
        vault_limit_failure(vault)
    } else if vault_group_failure(vault) is Some {
        vault_group_failure(vault)
    } else if vault_adapter_failure(vault) is Some {
        vault_adapter_failure(vault)
    } else if vault_position_failure(vault, required_validity) is Some {
        vault_position_failure(vault, required_validity)
    } else {
        vault_amount_failure(vault)
    }
}

/// The canonical form of a vault.
pub open spec fn canonical_vault(vault: VaultConfig) -> VaultView {
    let group = vault.rate_group@[0];
    let allocators = addresses_in(vault.approved_allocators@);
    let sentinels = addresses_in(vault.approved_sentinels@);
    VaultView {
        name: vault.name@,
        address: VaultAddress(address_in(vault.address@)),
        asset: TokenAddress(address_in(vault.asset@)),
        asset_decimals: vault.asset_decimals,
        expected_vault_code_hash: hash_in(vault.expected_vault_code_hash@),
        deployment_block: vault.deployment_block,
        signer_address: address_in(vault.signer_address@),
        strategy: vault.strategy,
        strict_zero_routine_idle: vault.strict_zero_routine_idle,
        minimum_action_assets: amount_in(vault.minimum_action_assets@),
        maximum_rounding_dust_assets: amount_in(vault.maximum_rounding_dust_assets@),
        maximum_immediate_rebalance_loss_assets: amount_in(
            vault.maximum_immediate_rebalance_loss_assets@,
        ),
        maximum_terminal_value_sacrifice_assets: amount_in(
            vault.maximum_terminal_value_sacrifice_assets@,
        ),
        minimum_active_positions_after_economic_exit:
            vault.minimum_active_positions_after_economic_exit,
        maximum_movement_per_hour_assets: amount_in(vault.maximum_movement_per_hour_assets@),
        maximum_movement_per_day_assets: amount_in(vault.maximum_movement_per_day_assets@),
        minimum_independent_event_assets: amount_in(vault.minimum_independent_event_assets@),
        minimum_atomic_exit_coverage_assets: amount_in(vault.minimum_atomic_exit_coverage_assets@),
        minimum_liquidity_adapter_assets: amount_in(vault.minimum_liquidity_adapter_assets@),
        minimum_deposit_headroom_assets: amount_in(vault.minimum_deposit_headroom_assets@),
        deposit_headroom_search_upper_bound_assets: amount_in(
            vault.deposit_headroom_search_upper_bound_assets@,
        ),
        minimum_source_token_liquidity_assets: amount_in(
            vault.minimum_source_token_liquidity_assets@,
        ),
        lock_operator_clearance_required: vault.lock_operator_clearance_required,
        unattributed_idle_fail_closed: vault.unattributed_idle_fail_closed,
        require_supported_nonzero_liquidity_adapter:
            vault.require_supported_nonzero_liquidity_adapter,
        require_zero_gates: vault.require_zero_gates,
        required_vault_dead_address: address_in(vault.required_vault_dead_address@),
        minimum_market_dead_supply_shares: amount_in(vault.minimum_market_dead_supply_shares@),
        approved_allocators: sorted_addresses(allocators, allocators.len() as int),
        approved_sentinels: sorted_addresses(sentinels, sentinels.len() as int),
        rate_group: RateGroupView {
            name: group.name@,
            id: group_id_of(group.name@),
            minimum_assets: amount_in(group.minimum_assets@),
            target_assets: amount_in(group.target_assets@),
            maximum_assets: amount_in(group.maximum_assets@),
            allow_cross_group_movement: group.allow_cross_group_movement,
        },
        adapters: values_of(vault_adapters(vault)),
        liquidity_adapter: match vault.liquidity_adapter {
            Some(adapter) => Some(canonical_liquidity_adapter(adapter)),
            None => None,
        },
        positions: values_of(vault_positions(vault)),
    }
}

struct VaultLimits {
    address: VaultAddress,
    asset: TokenAddress,
    signer_address: Address,
    minimum_action_assets: U256,
    maximum_movement_per_hour_assets: U256,
    maximum_movement_per_day_assets: U256,
    minimum_independent_event_assets: U256,
    minimum_deposit_headroom_assets: U256,
    deposit_headroom_search_upper_bound_assets: U256,
    approved_allocators: Vec<Address>,
    approved_sentinels: Vec<Address>,
}

impl VaultLimits {
    spec fn of(self, vault: VaultConfig) -> bool {
        let canonical = canonical_vault(vault);
        &&& self.address == canonical.address
        &&& self.asset == canonical.asset
        &&& self.signer_address == canonical.signer_address
        &&& self.minimum_action_assets == canonical.minimum_action_assets
        &&& self.maximum_movement_per_hour_assets == canonical.maximum_movement_per_hour_assets
        &&& self.maximum_movement_per_day_assets == canonical.maximum_movement_per_day_assets
        &&& self.minimum_independent_event_assets == canonical.minimum_independent_event_assets
        &&& self.minimum_deposit_headroom_assets == canonical.minimum_deposit_headroom_assets
        &&& self.deposit_headroom_search_upper_bound_assets
            == canonical.deposit_headroom_search_upper_bound_assets
        &&& self.approved_allocators@ == canonical.approved_allocators
        &&& self.approved_sentinels@ == canonical.approved_sentinels
    }
}

fn validate_limits(vault: &VaultConfig) -> (r: Result<VaultLimits, ConfigError>)
    ensures
        match vault_limit_failure(*vault) {
            Some(failure) => r is Err && r->Err_0@ == failure,
            None => r is Ok && r->Ok_0.of(*vault),
        },
{
    if vault.rate_group.len() != 1 {
        return Err(
            validation("vault.rate_group", "release one requires exactly one active rate group"),
        );
    }
    let address = VaultAddress(parse_address("vault.address", vault.address.as_str())?);
    let asset = TokenAddress(parse_address("vault.asset", vault.asset.as_str())?);
    let signer_address = parse_address("vault.signer_address", vault.signer_address.as_str())?;
    if vault.asset_decimals == 0 {
        return Err(validation("vault.asset_decimals", "asset decimals must be nonzero"));
    }
    let minimum_action_assets = parse_u256(
        "vault.minimum_action_assets",
        vault.minimum_action_assets.as_str(),
    )?;
    let maximum_movement_per_hour_assets = parse_u256(
        "vault.maximum_movement_per_hour_assets",
        vault.maximum_movement_per_hour_assets.as_str(),
    )?;
    let maximum_movement_per_day_assets = parse_u256(
        "vault.maximum_movement_per_day_assets",
        vault.maximum_movement_per_day_assets.as_str(),
    )?;
    let minimum_independent_event_assets = parse_u256(
        "vault.minimum_independent_event_assets",
        vault.minimum_independent_event_assets.as_str(),
    )?;
    check_movement_limits(
        minimum_action_assets,
        maximum_movement_per_hour_assets,
        maximum_movement_per_day_assets,
        minimum_independent_event_assets,
    )?;
    let minimum_deposit_headroom_assets = parse_u256(
        "vault.minimum_deposit_headroom_assets",
        vault.minimum_deposit_headroom_assets.as_str(),
    )?;
    let deposit_headroom_search_upper_bound_assets = parse_u256(
        "vault.deposit_headroom_search_upper_bound_assets",
        vault.deposit_headroom_search_upper_bound_assets.as_str(),
    )?;
    check_headroom_search(
        minimum_deposit_headroom_assets,
        deposit_headroom_search_upper_bound_assets,
    )?;
    let allocators = parse_addresses("vault.approved_allocators", &vault.approved_allocators)?;
    if !has_address(&allocators, signer_address) {
        return Err(
            validation("vault.signer_address", "signer is absent from approved allocators"),
        );
    }
    let sentinels = parse_addresses("vault.approved_sentinels", &vault.approved_sentinels)?;
    Ok(
        VaultLimits {
            address,
            asset,
            signer_address,
            minimum_action_assets,
            maximum_movement_per_hour_assets,
            maximum_movement_per_day_assets,
            minimum_independent_event_assets,
            minimum_deposit_headroom_assets,
            deposit_headroom_search_upper_bound_assets,
            approved_allocators: sort_addresses(&allocators),
            approved_sentinels: sort_addresses(&sentinels),
        },
    )
}

fn validate_group(vault: &VaultConfig) -> (r: Result<ValidatedRateGroupConfig, ConfigError>)
    requires
        vault.rate_group@.len() == 1,
    ensures
        settles(r, vault_group_failure(*vault), canonical_vault(*vault).rate_group),
{
    broadcast use group_b256;

    let group = &vault.rate_group[0];
    let minimum_assets = parse_u256(
        "vault.rate_group.minimum_assets",
        group.minimum_assets.as_str(),
    )?;
    let target_assets = parse_u256("vault.rate_group.target_assets", group.target_assets.as_str())?;
    let maximum_assets = parse_u256(
        "vault.rate_group.maximum_assets",
        group.maximum_assets.as_str(),
    )?;
    check_group_assets(minimum_assets, target_assets, maximum_assets)?;
    if group.allow_cross_group_movement {
        return Err(
            validation(
                "vault.rate_group.allow_cross_group_movement",
                "release one does not support cross-group movement",
            ),
        );
    }
    Ok(
        ValidatedRateGroupConfig {
            name: group.name.clone(),
            id: RateGroupId(keccak256(group.name.as_str().as_bytes())),
            minimum_assets,
            target_assets,
            maximum_assets,
            allow_cross_group_movement: group.allow_cross_group_movement,
        },
    )
}

/// Parses and validates one vault; reward evidence must be valid through `required_reward_validity`.
#[verifier::rlimit(40)]
pub fn validate_vault(vault: &VaultConfig, required_reward_validity: u64) -> (r: Result<
    ValidatedVaultConfig,
    ConfigError,
>)
    ensures
        settles(r, vault_failure(*vault, required_reward_validity), canonical_vault(*vault)),
{
    let limits = validate_limits(vault)?;
    let rate_group = validate_group(vault)?;
    let adapters = validate_adapters(&vault.adapter)?;
    if adapters.len() != vault.adapter.len() {
        return Err(validation("vault.adapter.address", "direct adapter address is duplicated"));
    }
    let liquidity_adapter = match &vault.liquidity_adapter {
        Some(adapter) => Some(validate_liquidity_adapter(adapter, &adapters)?),
        None => None,
    };
    let rules = PositionRules {
        adapters: &adapters,
        asset: limits.asset.0,
        group: &rate_group.name,
        group_id: rate_group.id,
        required_validity: required_reward_validity,
    };
    assert(rules.context() == position_context(*vault, required_reward_validity));
    let positions = rules.validate_all(&vault.position)?;
    if positions.len() != vault.position.len() {
        return Err(validation("vault.position", "position identity is duplicated"));
    }
    if count_markets(&positions) != positions.len() {
        return Err(
            validation(
                "vault.position.market_id",
                "one Morpho market may appear only once per managed vault",
            ),
        );
    }
    if vault.minimum_active_positions_after_economic_exit > count_active(&positions) {
        return Err(
            validation(
                "vault.minimum_active_positions_after_economic_exit",
                "cannot exceed the configured Active position count",
            ),
        );
    }
    let expected_vault_code_hash = parse_nonzero_hash(
        "vault.expected_vault_code_hash",
        vault.expected_vault_code_hash.as_str(),
    )?;
    let maximum_rounding_dust_assets = parse_u256(
        "vault.maximum_rounding_dust_assets",
        vault.maximum_rounding_dust_assets.as_str(),
    )?;
    let maximum_immediate_rebalance_loss_assets = parse_u256(
        "vault.maximum_immediate_rebalance_loss_assets",
        vault.maximum_immediate_rebalance_loss_assets.as_str(),
    )?;
    let maximum_terminal_value_sacrifice_assets = parse_u256(
        "vault.maximum_terminal_value_sacrifice_assets",
        vault.maximum_terminal_value_sacrifice_assets.as_str(),
    )?;
    let minimum_atomic_exit_coverage_assets = parse_u256(
        "vault.minimum_atomic_exit_coverage_assets",
        vault.minimum_atomic_exit_coverage_assets.as_str(),
    )?;
    let minimum_liquidity_adapter_assets = parse_u256(
        "vault.minimum_liquidity_adapter_assets",
        vault.minimum_liquidity_adapter_assets.as_str(),
    )?;
    let minimum_source_token_liquidity_assets = parse_u256(
        "vault.minimum_source_token_liquidity_assets",
        vault.minimum_source_token_liquidity_assets.as_str(),
    )?;
    let required_vault_dead_address = parse_address(
        "vault.required_vault_dead_address",
        vault.required_vault_dead_address.as_str(),
    )?;
    let minimum_market_dead_supply_shares = parse_u256(
        "vault.minimum_market_dead_supply_shares",
        vault.minimum_market_dead_supply_shares.as_str(),
    )?;
    Ok(
        ValidatedVaultConfig {
            name: vault.name.clone(),
            address: limits.address,
            asset: limits.asset,
            asset_decimals: vault.asset_decimals,
            expected_vault_code_hash,
            deployment_block: vault.deployment_block,
            signer_address: limits.signer_address,
            strategy: vault.strategy,
            strict_zero_routine_idle: vault.strict_zero_routine_idle,
            minimum_action_assets: limits.minimum_action_assets,
            maximum_rounding_dust_assets,
            maximum_immediate_rebalance_loss_assets,
            maximum_terminal_value_sacrifice_assets,
            minimum_active_positions_after_economic_exit:
                vault.minimum_active_positions_after_economic_exit,
            maximum_movement_per_hour_assets: limits.maximum_movement_per_hour_assets,
            maximum_movement_per_day_assets: limits.maximum_movement_per_day_assets,
            minimum_independent_event_assets: limits.minimum_independent_event_assets,
            minimum_atomic_exit_coverage_assets,
            minimum_liquidity_adapter_assets,
            minimum_deposit_headroom_assets: limits.minimum_deposit_headroom_assets,
            deposit_headroom_search_upper_bound_assets:
                limits.deposit_headroom_search_upper_bound_assets,
            minimum_source_token_liquidity_assets,
            lock_operator_clearance_required: vault.lock_operator_clearance_required,
            unattributed_idle_fail_closed: vault.unattributed_idle_fail_closed,
            require_supported_nonzero_liquidity_adapter:
                vault.require_supported_nonzero_liquidity_adapter,
            require_zero_gates: vault.require_zero_gates,
            required_vault_dead_address,
            minimum_market_dead_supply_shares,
            approved_allocators: limits.approved_allocators,
            approved_sentinels: limits.approved_sentinels,
            adapters: list_adapters(&adapters),
            liquidity_adapter,
            positions: list_positions(&positions),
            rate_group,
        },
    )
}

/// Whether an entry is the canonical form of one of the first `count` positions.
spec fn entry_configured(
    entry: (PositionKey, ValidatedPositionConfig),
    positions: Seq<PositionConfig>,
    group_id: RateGroupId,
    count: int,
) -> bool {
    exists|j: int|
        0 <= j < count && entry.1 == canonical_position(#[trigger] positions[j], group_id) && entry.0
            == entry.1.position_key
}

proof fn lemma_entry_origin(
    held: Seq<(PositionKey, ValidatedPositionConfig)>,
    added: ValidatedPositionConfig,
    i: int,
)
    requires
        ordered_entries(held),
        0 <= i < with_value(held, added.position_key, added).len(),
    ensures
        ({
            let entry = with_value(held, added.position_key, added)[i];
            entry == (added.position_key, added) || held.contains(entry)
        }),
{
    let entries = with_value(held, added.position_key, added);
    lemma_entry_bound(held, added.position_key, 0);
    let at = entry_bound_from(held, added.position_key, 0);
    if i != at {
        let old_index = if i < at || entries.len() == held.len() {
            i
        } else {
            i - 1
        };
        assert(entries[i] == held[old_index]);
    }
}

proof fn lemma_positions_configured(
    positions: Seq<PositionConfig>,
    group_id: RateGroupId,
    count: int,
)
    requires
        0 <= count <= positions.len(),
    ensures
        ordered_entries(positions_by_key(positions, group_id, count)),
        forall|i: int|
            0 <= i < positions_by_key(positions, group_id, count).len() ==> entry_configured(
                #[trigger] positions_by_key(positions, group_id, count)[i],
                positions,
                group_id,
                count,
            ),
    decreases count,
{
    if count > 0 {
        lemma_positions_configured(positions, group_id, count - 1);
        let held = positions_by_key(positions, group_id, count - 1);
        let added = canonical_position(positions[count - 1], group_id);
        let entries = positions_by_key(positions, group_id, count);
        value_of_with_value(held, added.position_key, added, added.position_key);
        assert forall|i: int| 0 <= i < entries.len() implies entry_configured(
            #[trigger] entries[i],
            positions,
            group_id,
            count,
        ) by {
            lemma_entry_origin(held, added, i);
            if entries[i] != (added.position_key, added) {
                let k = choose|k: int| 0 <= k < held.len() && held[k] == entries[i];
                assert(entry_configured(held[k], positions, group_id, count - 1));
            }
        }
    }
}

proof fn lemma_accepted_position(
    positions: Seq<PositionConfig>,
    context: PositionContext,
    from: int,
    index: int,
)
    requires
        0 <= from <= index < positions.len(),
        positions_failure_from(positions, context, from) is None,
    ensures
        position_failure(positions[index], context) is None,
    decreases index - from,
{
    if from < index {
        lemma_accepted_position(positions, context, from + 1, index);
    }
}

/// An accepted vault holds every configured position once, ordered by key. Each stands on a
/// configured direct adapter, lends the vault's asset, carries the derived market identity, and has
/// reward evidence that is valid for the required time.
pub proof fn accepted_positions_are_ordered_and_bound(vault: VaultConfig, required_validity: u64)
    requires
        vault_failure(vault, required_validity) is None,
    ensures
        vault_positions(vault).len() == vault.position@.len(),
        ordered_entries(vault_positions(vault)),
        forall|i: int|
            #![trigger vault_positions(vault)[i]]
            0 <= i < vault_positions(vault).len() ==> {
                let (key, position) = vault_positions(vault)[i];
                &&& key == position.position_key
                &&& is_direct_adapter(vault_adapters(vault), position.adapter)
                &&& position.market_params.loan_token == address_in(vault.asset@)
                &&& position.market_id == market_id_of(position.market_params)
                &&& reward_policy_failure(position.reward_policy, required_validity) is None
            },
{
    let group_id = group_id_of(vault.rate_group@[0].name@);
    let count = vault.position@.len() as int;
    let context = position_context(vault, required_validity);
    lemma_positions_configured(vault.position@, group_id, count);
    assert forall|i: int|
        #![trigger vault_positions(vault)[i]]
        0 <= i < vault_positions(vault).len() implies {
        let (key, position) = vault_positions(vault)[i];
        &&& key == position.position_key
        &&& is_direct_adapter(vault_adapters(vault), position.adapter)
        &&& position.market_params.loan_token == address_in(vault.asset@)
        &&& position.market_id == market_id_of(position.market_params)
        &&& reward_policy_failure(position.reward_policy, required_validity) is None
    } by {
        let entry = positions_by_key(vault.position@, group_id, count)[i];
        assert(entry_configured(entry, vault.position@, group_id, count));
        let j = choose|j: int|
            0 <= j < count && entry.1 == canonical_position(
                #[trigger] vault.position@[j],
                group_id,
            ) && entry.0 == entry.1.position_key;
        lemma_accepted_position(vault.position@, context, 0, j);
    }
}

} // verus!
