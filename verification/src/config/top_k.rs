//! Top-K APY configuration, validation, and canonical conversion.

use vstd::prelude::*;

use crate::primitives::{group_u256, U256};

use super::text::{
    amount_in, checks, invalid, is_amount, not_an_amount, parse_u256, settles, validation,
    ConfigError, ConfigFailure, Duration,
};
use super::units::{utilization_bps_to_wad, utilization_wad};
use super::{RuntimeMode, WAD};

verus! {

/// Basis points of one whole.
pub const BASIS_POINTS_SCALE: u32 = 10_000;

/// Largest target weight of one market.
pub const MAXIMUM_MARKET_WEIGHT_BPS: u32 = 7_000;

/// The one supported strategy tick interval.
pub const REQUIRED_TICK_INTERVAL_SECONDS: u64 = 300;

/// Minimum target yield improvement, when not configured.
pub fn default_enter_apy_bps() -> (r: u32)
    ensures
        r == 200,
{
    200
}

/// Exit underperformance, when not configured.
pub fn default_exit_apy_bps() -> (r: u32)
    ensures
        r == 250,
{
    250
}

/// Replacement margin, when not configured.
pub fn default_replacement_apy_bps() -> (r: u32)
    ensures
        r == 100,
{
    100
}

/// Best-to-fourth yield gap, when not configured.
pub fn default_fourth_market_max_gap_apy_bps() -> (r: u32)
    ensures
        r == 250,
{
    250
}

/// Boost activation gap, when not configured.
pub fn default_top_market_boost_threshold_apy_bps() -> (r: u32)
    ensures
        r == 200,
{
    200
}

/// Boosted top-market weight, when not configured.
pub fn default_top_market_boost_weight_bps() -> (r: u32)
    ensures
        r == MAXIMUM_MARKET_WEIGHT_BPS,
{
    MAXIMUM_MARKET_WEIGHT_BPS
}

/// Upward smoothing weight, when not configured.
pub fn default_upside_ema_alpha_bps() -> (r: u32)
    ensures
        r == 2_000,
{
    2_000
}

/// Probe allocation, when not configured.
pub fn default_probe_allocation_bps() -> (r: u32)
    ensures
        r == 500,
{
    500
}

/// Membership confirmation, when not configured.
pub fn default_membership_confirmation() -> (r: Duration)
    ensures
        r == Duration::of_secs(1_800),
{
    Duration::from_secs(1_800)
}

/// Tick interval, when not configured.
pub fn default_tick_interval() -> (r: Duration)
    ensures
        r == Duration::of_secs(REQUIRED_TICK_INTERVAL_SECONDS),
{
    Duration::from_secs(REQUIRED_TICK_INTERVAL_SECONDS)
}

/// Three-market weights, when not configured.
pub fn default_three_market_weights_bps() -> (r: Vec<u32>)
    ensures
        r@ == seq![5_000u32, 3_000, 2_000],
{
    let weights: Vec<u32> = vec![5_000, 3_000, 2_000];
    assert(weights@ =~= seq![5_000u32, 3_000, 2_000]);
    weights
}

/// Four-market weights, when not configured.
pub fn default_four_market_weights_bps() -> (r: Vec<u32>)
    ensures
        r@ == seq![4_000u32, 3_000, 2_000, 1_000],
{
    let weights: Vec<u32> = vec![4_000, 3_000, 2_000, 1_000];
    assert(weights@ =~= seq![4_000u32, 3_000, 2_000, 1_000]);
    weights
}

/// Raw Top-K APY diversification policy.
#[derive(Debug)]
pub struct TopKApyConfig {
    /// A new target must improve annualized native supply yield by this many basis points.
    pub enter_apy_bps: u32,
    /// A selected position is exit-eligible only after this annualized underperformance.
    pub exit_apy_bps: u32,
    /// A replacement candidate must beat the outgoing market by this annualized margin.
    pub replacement_apy_bps: u32,
    /// Maximum best-to-fourth annualized yield gap for using four markets.
    pub fourth_market_max_gap_apy_bps: u32,
    /// Best-versus-other-average APY gap that activates the top-market boost.
    pub top_market_boost_threshold_apy_bps: u32,
    /// Top-market target weight after the boost activates.
    pub top_market_boost_weight_bps: u32,
    /// Slow-path weight applied to an upward rate observation.
    pub upside_ema_alpha_bps: u32,
    /// Direct-capital share used to test post-deposit rate compression.
    pub probe_allocation_bps: u32,
    /// Canonical-time confirmation required for a yield-driven membership change.
    pub membership_confirmation: Duration,
    /// Mandatory canonical-time strategy evaluation interval.
    pub tick_interval: Duration,
    /// Three-market target weights in basis points, ordered by conservative yield rank.
    pub three_market_weights_bps: Vec<u32>,
    /// Four-market target weights in basis points, ordered by conservative yield rank.
    pub four_market_weights_bps: Vec<u32>,
    /// Allocation-distance score that activates rebalancing, in WAD units.
    pub entry_score_wad: String,
    /// Desired terminal allocation-distance score, in WAD units.
    pub target_score_wad: String,
    /// Minimum score improvement required from one plan, in WAD units.
    pub minimum_improvement_score_wad: String,
    /// Require projected recoverable gain to cover conservative gas cost before signing.
    pub enforce_gas_economic_gate: bool,
    /// Minimum net 24-hour gain after conservative gas and immediate-loss charges.
    pub minimum_net_gain_assets: String,
    /// Conservative multiplier applied to native transaction cost.
    pub gas_cost_multiplier: u32,
    /// Curator-approved maximum native-token price in vault-asset WAD units.
    pub native_token_price_ceiling_asset_wad: String,
    /// Maximum annualized yield sacrificed for concentration repair.
    pub maximum_diversification_cost_apy_bps: u32,
}

impl TopKApyConfig {
    /// Whether a policy is the one used when nothing is configured.
    pub open spec fn is_default(self) -> bool {
        &&& self.enter_apy_bps == 200
        &&& self.exit_apy_bps == 250
        &&& self.replacement_apy_bps == 100
        &&& self.fourth_market_max_gap_apy_bps == 250
        &&& self.top_market_boost_threshold_apy_bps == 200
        &&& self.top_market_boost_weight_bps == 7_000
        &&& self.upside_ema_alpha_bps == 2_000
        &&& self.probe_allocation_bps == 500
        &&& self.membership_confirmation == Duration::of_secs(1_800)
        &&& self.tick_interval == Duration::of_secs(300)
        &&& self.three_market_weights_bps@ == seq![5_000u32, 3_000, 2_000]
        &&& self.four_market_weights_bps@ == seq![4_000u32, 3_000, 2_000, 1_000]
        &&& self.entry_score_wad@ == "50000000000000000"@
        &&& self.target_score_wad@ == "10000000000000000"@
        &&& self.minimum_improvement_score_wad@ == "10000000000000000"@
        &&& self.enforce_gas_economic_gate
        &&& self.minimum_net_gain_assets@ == "0"@
        &&& self.gas_cost_multiplier == 3
        &&& self.native_token_price_ceiling_asset_wad@ == "0"@
        &&& self.maximum_diversification_cost_apy_bps == 25
    }
}

impl Default for TopKApyConfig {
    fn default() -> (r: Self)
        ensures
            r.is_default(),
    {
        TopKApyConfig {
            enter_apy_bps: default_enter_apy_bps(),
            exit_apy_bps: default_exit_apy_bps(),
            replacement_apy_bps: default_replacement_apy_bps(),
            fourth_market_max_gap_apy_bps: default_fourth_market_max_gap_apy_bps(),
            top_market_boost_threshold_apy_bps: default_top_market_boost_threshold_apy_bps(),
            top_market_boost_weight_bps: default_top_market_boost_weight_bps(),
            upside_ema_alpha_bps: default_upside_ema_alpha_bps(),
            probe_allocation_bps: default_probe_allocation_bps(),
            membership_confirmation: default_membership_confirmation(),
            tick_interval: default_tick_interval(),
            three_market_weights_bps: default_three_market_weights_bps(),
            four_market_weights_bps: default_four_market_weights_bps(),
            entry_score_wad: "50000000000000000".to_owned(),
            target_score_wad: "10000000000000000".to_owned(),
            minimum_improvement_score_wad: "10000000000000000".to_owned(),
            enforce_gas_economic_gate: true,
            minimum_net_gain_assets: "0".to_owned(),
            gas_cost_multiplier: 3,
            native_token_price_ceiling_asset_wad: "0".to_owned(),
            maximum_diversification_cost_apy_bps: 25,
        }
    }
}

/// Sum of the first `count` weights.
pub open spec fn weight_sum(weights: Seq<u32>, count: int) -> nat
    decreases count,
{
    if count <= 0 {
        0
    } else {
        weight_sum(weights, count - 1) + weights[count - 1] as nat
    }
}

proof fn lemma_weight_sum_grows(weights: Seq<u32>, from: int, to: int)
    requires
        0 <= from <= to <= weights.len(),
    ensures
        weight_sum(weights, from) <= weight_sum(weights, to),
    decreases to - from,
{
    if from < to {
        lemma_weight_sum_grows(weights, from, to - 1);
    }
}

/// Weights of the expected count that sum to one whole, never increase, and stay within the
/// largest single weight.
pub open spec fn weights_valid(weights: Seq<u32>, expected: nat) -> bool {
    &&& weights.len() == expected
    &&& weight_sum(weights, weights.len() as int) == BASIS_POINTS_SCALE
    &&& forall|i: int, j: int| 0 <= i <= j < weights.len() ==> weights[i] >= weights[j]
    &&& forall|i: int| 0 <= i < weights.len() ==> weights[i] <= MAXIMUM_MARKET_WEIGHT_BPS
}

/// Checks target weights.
pub fn valid_weights(weights: &Vec<u32>, expected_len: usize) -> (r: bool)
    ensures
        r == weights_valid(weights@, expected_len as nat),
{
    if weights.len() != expected_len {
        return false;
    }
    let mut total: u32 = 0;
    let mut i: usize = 0;
    while i < weights.len()
        invariant
            i <= weights.len(),
            total == weight_sum(weights@, i as int),
            forall|a: int, b: int| 0 <= a <= b < i ==> weights@[a] >= weights@[b],
            forall|a: int| 0 <= a < i ==> weights@[a] <= MAXIMUM_MARKET_WEIGHT_BPS,
        decreases weights.len() - i,
    {
        if weights[i] > MAXIMUM_MARKET_WEIGHT_BPS {
            return false;
        }
        if i > 0 && weights[i - 1] < weights[i] {
            assert(weights@[i - 1] < weights@[i as int]);
            return false;
        }
        match total.checked_add(weights[i]) {
            Some(next) => {
                total = next;
            },
            None => {
                proof {
                    lemma_weight_sum_grows(weights@, i as int + 1, weights@.len() as int);
                }
                return false;
            },
        }
        i = i + 1;
    }
    total == BASIS_POINTS_SCALE
}

fn copy_weights(weights: &Vec<u32>) -> (r: Vec<u32>)
    ensures
        r@ == weights@,
{
    let mut copy: Vec<u32> = Vec::new();
    let mut i: usize = 0;
    while i < weights.len()
        invariant
            i <= weights.len(),
            copy@ == weights@.subrange(0, i as int),
        decreases weights.len() - i,
    {
        copy.push(weights[i]);
        i = i + 1;
    }
    assert(copy@ =~= weights@);
    copy
}

/// Whether a raw value lies in `1..=limit`.
pub open spec fn within(value: u32, limit: u32) -> bool {
    1 <= value <= limit
}

/// Parsed amounts of a policy.
#[derive(Clone, Copy, Debug, PartialEq, Eq, Structural)]
pub struct TopKAmounts {
    /// Entry allocation-distance score.
    pub entry_score_wad: U256,
    /// Desired terminal allocation-distance score.
    pub target_score_wad: U256,
    /// Minimum score improvement.
    pub minimum_improvement_score_wad: U256,
    /// Minimum net gain in vault asset units.
    pub minimum_net_gain_assets: U256,
    /// Native-token price ceiling in vault-asset WAD units.
    pub native_token_price_ceiling_asset_wad: U256,
}

/// The amounts that the texts of a policy denote.
pub open spec fn amounts_of(config: TopKApyConfig) -> TopKAmounts {
    TopKAmounts {
        entry_score_wad: amount_in(config.entry_score_wad@),
        target_score_wad: amount_in(config.target_score_wad@),
        minimum_improvement_score_wad: amount_in(config.minimum_improvement_score_wad@),
        minimum_net_gain_assets: amount_in(config.minimum_net_gain_assets@),
        native_token_price_ceiling_asset_wad: amount_in(
            config.native_token_price_ceiling_asset_wad@,
        ),
    }
}

/// The rule on scores and gas multiplier, where it is broken.
pub open spec fn score_values_failure(
    entry_score: U256,
    target_score: U256,
    minimum_improvement: U256,
    gas_cost_multiplier: u32,
) -> Option<ConfigFailure> {
    if target_score@ < entry_score@ <= WAD && 1 <= minimum_improvement@ <= entry_score@
        && gas_cost_multiplier > 0 {
        None
    } else {
        Some(
            invalid(
                "strategy.top_k_apy.score",
                "scores must satisfy 0 <= target < entry <= WAD, improvement must be in 1..=entry, and gas multiplier must be positive",
            ),
        )
    }
}

/// Checks parsed scores and the gas multiplier.
pub fn check_scores(
    entry_score: U256,
    target_score: U256,
    minimum_improvement: U256,
    gas_cost_multiplier: u32,
) -> (r: Result<(), ConfigError>)
    ensures
        checks(
            r,
            score_values_failure(
                entry_score,
                target_score,
                minimum_improvement,
                gas_cost_multiplier,
            ),
        ),
{
    broadcast use group_u256;

    if U256::from_u64(WAD).lt(entry_score) || entry_score.le(target_score)
        || minimum_improvement.is_zero() || entry_score.lt(minimum_improvement)
        || gas_cost_multiplier == 0 {
        return Err(
            validation(
                "strategy.top_k_apy.score",
                "scores must satisfy 0 <= target < entry <= WAD, improvement must be in 1..=entry, and gas multiplier must be positive",
            ),
        );
    }
    Ok(())
}

/// The rule on the price ceiling of an enabled Execute strategy, where it is broken.
pub open spec fn price_ceiling_failure(ceiling: U256) -> Option<ConfigFailure> {
    if ceiling@ > 0 {
        None
    } else {
        Some(
            invalid(
                "strategy.top_k_apy.native_token_price_ceiling_asset_wad",
                "top-K Execute requires a nonzero curator-approved gas conversion ceiling",
            ),
        )
    }
}

/// Checks the parsed price ceiling of an enabled Execute strategy.
pub fn check_price_ceiling(ceiling: U256) -> (r: Result<(), ConfigError>)
    ensures
        checks(r, price_ceiling_failure(ceiling)),
{
    if ceiling.is_zero() {
        return Err(
            validation(
                "strategy.top_k_apy.native_token_price_ceiling_asset_wad",
                "top-K Execute requires a nonzero curator-approved gas conversion ceiling",
            ),
        );
    }
    Ok(())
}

/// Score fields of a policy, in order of validation.
pub open spec fn score_failure(config: TopKApyConfig) -> Option<ConfigFailure> {
    if !is_amount(config.entry_score_wad@) {
        Some(not_an_amount("strategy.top_k_apy.entry_score_wad"))
    } else if !is_amount(config.target_score_wad@) {
        Some(not_an_amount("strategy.top_k_apy.target_score_wad"))
    } else if !is_amount(config.minimum_improvement_score_wad@) {
        Some(not_an_amount("strategy.top_k_apy.minimum_improvement_score_wad"))
    } else {
        score_values_failure(
            amount_in(config.entry_score_wad@),
            amount_in(config.target_score_wad@),
            amount_in(config.minimum_improvement_score_wad@),
            config.gas_cost_multiplier,
        )
    }
}

/// The first rule that a policy breaks.
pub open spec fn top_k_failure(
    config: TopKApyConfig,
    mode: RuntimeMode,
    strategy_is_enabled: bool,
) -> Option<ConfigFailure> {
    let three = config.three_market_weights_bps@;
    let four = config.four_market_weights_bps@;
    if config.enter_apy_bps == 0 || config.exit_apy_bps < config.enter_apy_bps
        || config.replacement_apy_bps == 0 || config.replacement_apy_bps > config.exit_apy_bps
        || config.exit_apy_bps > BASIS_POINTS_SCALE {
        Some(
            invalid(
                "strategy.top_k_apy.hysteresis",
                "enter must be positive, exit must be at least enter, and replacement must be in 1..=exit",
            ),
        )
    } else if config.fourth_market_max_gap_apy_bps > BASIS_POINTS_SCALE || !within(
        config.top_market_boost_threshold_apy_bps,
        BASIS_POINTS_SCALE,
    ) || !within(config.top_market_boost_weight_bps, MAXIMUM_MARKET_WEIGHT_BPS) {
        Some(
            invalid(
                "strategy.top_k_apy.yield_weighting",
                "fourth-market gap must be at most 10000 bps, boost threshold must be in 1..=10000, and boosted top weight must be in 1..=7000",
            ),
        )
    } else if !within(config.upside_ema_alpha_bps, BASIS_POINTS_SCALE) || !within(
        config.probe_allocation_bps,
        BASIS_POINTS_SCALE,
    ) {
        Some(
            invalid(
                "strategy.top_k_apy.smoothing",
                "EMA alpha and probe allocation must be in 1..=10000",
            ),
        )
    } else if config.membership_confirmation.empty() || config.tick_interval.secs
        != REQUIRED_TICK_INTERVAL_SECONDS {
        Some(
            invalid(
                "strategy.top_k_apy.timing",
                "membership confirmation must be positive and tick_interval must be exactly 5m",
            ),
        )
    } else if !weights_valid(three, 3) || !weights_valid(four, 4)
        || config.top_market_boost_weight_bps <= three[0] || config.top_market_boost_weight_bps
        <= four[0] {
        Some(
            invalid(
                "strategy.top_k_apy.weights",
                "three/four market weights must have the expected lengths, sum to 10000, be non-increasing, stay at or below 70%, and leave room for the configured top-market boost",
            ),
        )
    } else if score_failure(config) is Some {
        score_failure(config)
    } else if mode == RuntimeMode::Execute && strategy_is_enabled && !is_amount(
        config.native_token_price_ceiling_asset_wad@,
    ) {
        Some(not_an_amount("strategy.top_k_apy.native_token_price_ceiling_asset_wad"))
    } else if mode == RuntimeMode::Execute && strategy_is_enabled {
        price_ceiling_failure(amount_in(config.native_token_price_ceiling_asset_wad@))
    } else {
        None
    }
}

/// The first amount of a policy that cannot be converted.
pub open spec fn canonical_failure(config: TopKApyConfig) -> Option<ConfigFailure> {
    if !is_amount(config.entry_score_wad@) {
        Some(not_an_amount("strategy.top_k_apy.entry_score_wad"))
    } else if !is_amount(config.target_score_wad@) {
        Some(not_an_amount("strategy.top_k_apy.target_score_wad"))
    } else if !is_amount(config.minimum_improvement_score_wad@) {
        Some(not_an_amount("strategy.top_k_apy.minimum_improvement_score_wad"))
    } else if !is_amount(config.minimum_net_gain_assets@) {
        Some(not_an_amount("strategy.top_k_apy.minimum_net_gain_assets"))
    } else if !is_amount(config.native_token_price_ceiling_asset_wad@) {
        Some(not_an_amount("strategy.top_k_apy.native_token_price_ceiling_asset_wad"))
    } else {
        None
    }
}

/// The canonical policy of an operator policy.
pub open spec fn canonical_policy(config: TopKApyConfig) -> TopKPolicyView {
    policy_with(config, amounts_of(config))
}

/// The canonical policy of an operator policy whose texts denote the given amounts.
pub open spec fn policy_with(config: TopKApyConfig, amounts: TopKAmounts) -> TopKPolicyView {
    TopKPolicyView {
        enter_apy_wad: utilization_wad(config.enter_apy_bps),
        exit_apy_wad: utilization_wad(config.exit_apy_bps),
        replacement_apy_wad: utilization_wad(config.replacement_apy_bps),
        fourth_market_max_gap_apy_wad: utilization_wad(config.fourth_market_max_gap_apy_bps),
        top_market_boost_threshold_apy_wad: utilization_wad(
            config.top_market_boost_threshold_apy_bps,
        ),
        top_market_boost_weight_bps: config.top_market_boost_weight_bps,
        upside_ema_alpha_bps: config.upside_ema_alpha_bps,
        probe_allocation_bps: config.probe_allocation_bps,
        membership_confirmation_seconds: config.membership_confirmation.secs,
        tick_interval_seconds: config.tick_interval.secs,
        three_market_weights_bps: config.three_market_weights_bps@,
        four_market_weights_bps: config.four_market_weights_bps@,
        entry_score_wad: amounts.entry_score_wad,
        target_score_wad: amounts.target_score_wad,
        minimum_improvement_score_wad: amounts.minimum_improvement_score_wad,
        enforce_gas_economic_gate: config.enforce_gas_economic_gate,
        minimum_net_gain_assets: amounts.minimum_net_gain_assets,
        gas_cost_multiplier: config.gas_cost_multiplier,
        native_token_price_ceiling_asset_wad: amounts.native_token_price_ceiling_asset_wad,
        maximum_diversification_cost_apy_wad: utilization_wad(
            config.maximum_diversification_cost_apy_bps,
        ),
    }
}

fn exact_utilization(bps: u32) -> (r: U256)
    ensures
        r == utilization_wad(bps),
{
    match utilization_bps_to_wad(bps) {
        Ok(value) => value,
        Err(_) => U256::zero(),
    }
}

impl TopKApyConfig {
    /// Validates the complete policy as one cohesive configuration group.
    pub fn validate(&self, mode: RuntimeMode, strategy_is_enabled: bool) -> (r: Result<
        (),
        ConfigError,
    >)
        ensures
            checks(r, top_k_failure(*self, mode, strategy_is_enabled)),
    {
        if self.enter_apy_bps == 0 || self.exit_apy_bps < self.enter_apy_bps
            || self.replacement_apy_bps == 0 || self.replacement_apy_bps > self.exit_apy_bps
            || self.exit_apy_bps > BASIS_POINTS_SCALE {
            return Err(
                validation(
                    "strategy.top_k_apy.hysteresis",
                    "enter must be positive, exit must be at least enter, and replacement must be in 1..=exit",
                ),
            );
        }
        if self.fourth_market_max_gap_apy_bps > BASIS_POINTS_SCALE
            || self.top_market_boost_threshold_apy_bps == 0
            || self.top_market_boost_threshold_apy_bps > BASIS_POINTS_SCALE
            || self.top_market_boost_weight_bps == 0 || self.top_market_boost_weight_bps
            > MAXIMUM_MARKET_WEIGHT_BPS {
            return Err(
                validation(
                    "strategy.top_k_apy.yield_weighting",
                    "fourth-market gap must be at most 10000 bps, boost threshold must be in 1..=10000, and boosted top weight must be in 1..=7000",
                ),
            );
        }
        if self.upside_ema_alpha_bps == 0 || self.upside_ema_alpha_bps > BASIS_POINTS_SCALE
            || self.probe_allocation_bps == 0 || self.probe_allocation_bps > BASIS_POINTS_SCALE {
            return Err(
                validation(
                    "strategy.top_k_apy.smoothing",
                    "EMA alpha and probe allocation must be in 1..=10000",
                ),
            );
        }
        if self.membership_confirmation.is_zero() || self.tick_interval.as_secs()
            != REQUIRED_TICK_INTERVAL_SECONDS {
            return Err(
                validation(
                    "strategy.top_k_apy.timing",
                    "membership confirmation must be positive and tick_interval must be exactly 5m",
                ),
            );
        }
        if !valid_weights(&self.three_market_weights_bps, 3) || !valid_weights(
            &self.four_market_weights_bps,
            4,
        ) || self.top_market_boost_weight_bps <= self.three_market_weights_bps[0]
            || self.top_market_boost_weight_bps <= self.four_market_weights_bps[0] {
            return Err(
                validation(
                    "strategy.top_k_apy.weights",
                    "three/four market weights must have the expected lengths, sum to 10000, be non-increasing, stay at or below 70%, and leave room for the configured top-market boost",
                ),
            );
        }
        let entry_score = parse_u256(
            "strategy.top_k_apy.entry_score_wad",
            self.entry_score_wad.as_str(),
        )?;
        let target_score = parse_u256(
            "strategy.top_k_apy.target_score_wad",
            self.target_score_wad.as_str(),
        )?;
        let minimum_improvement = parse_u256(
            "strategy.top_k_apy.minimum_improvement_score_wad",
            self.minimum_improvement_score_wad.as_str(),
        )?;
        check_scores(entry_score, target_score, minimum_improvement, self.gas_cost_multiplier)?;
        if mode == RuntimeMode::Execute && strategy_is_enabled {
            let ceiling = parse_u256(
                "strategy.top_k_apy.native_token_price_ceiling_asset_wad",
                self.native_token_price_ceiling_asset_wad.as_str(),
            )?;
            check_price_ceiling(ceiling)?;
        }
        Ok(())
    }

    /// Converts validated operator units into the exact canonical representation.
    pub fn canonical(&self) -> (r: Result<ValidatedTopKApyConfig, ConfigError>)
        ensures
            settles(r, canonical_failure(*self), canonical_policy(*self)),
    {
        let entry_score_wad = parse_u256(
            "strategy.top_k_apy.entry_score_wad",
            self.entry_score_wad.as_str(),
        )?;
        let target_score_wad = parse_u256(
            "strategy.top_k_apy.target_score_wad",
            self.target_score_wad.as_str(),
        )?;
        let minimum_improvement_score_wad = parse_u256(
            "strategy.top_k_apy.minimum_improvement_score_wad",
            self.minimum_improvement_score_wad.as_str(),
        )?;
        let minimum_net_gain_assets = parse_u256(
            "strategy.top_k_apy.minimum_net_gain_assets",
            self.minimum_net_gain_assets.as_str(),
        )?;
        let native_token_price_ceiling_asset_wad = parse_u256(
            "strategy.top_k_apy.native_token_price_ceiling_asset_wad",
            self.native_token_price_ceiling_asset_wad.as_str(),
        )?;
        Ok(
            self.canonical_with(
                TopKAmounts {
                    entry_score_wad,
                    target_score_wad,
                    minimum_improvement_score_wad,
                    minimum_net_gain_assets,
                    native_token_price_ceiling_asset_wad,
                },
            ),
        )
    }

    /// Converts operator units whose amounts are parsed into the exact canonical representation.
    pub fn canonical_with(&self, amounts: TopKAmounts) -> (r: ValidatedTopKApyConfig)
        ensures
            r@ == policy_with(*self, amounts),
    {
        ValidatedTopKApyConfig {
            enter_apy_wad: exact_utilization(self.enter_apy_bps),
            exit_apy_wad: exact_utilization(self.exit_apy_bps),
            replacement_apy_wad: exact_utilization(self.replacement_apy_bps),
            fourth_market_max_gap_apy_wad: exact_utilization(
                self.fourth_market_max_gap_apy_bps,
            ),
            top_market_boost_threshold_apy_wad: exact_utilization(
                self.top_market_boost_threshold_apy_bps,
            ),
            top_market_boost_weight_bps: self.top_market_boost_weight_bps,
            upside_ema_alpha_bps: self.upside_ema_alpha_bps,
            probe_allocation_bps: self.probe_allocation_bps,
            membership_confirmation_seconds: self.membership_confirmation.as_secs(),
            tick_interval_seconds: self.tick_interval.as_secs(),
            three_market_weights_bps: copy_weights(&self.three_market_weights_bps),
            four_market_weights_bps: copy_weights(&self.four_market_weights_bps),
            entry_score_wad: amounts.entry_score_wad,
            target_score_wad: amounts.target_score_wad,
            minimum_improvement_score_wad: amounts.minimum_improvement_score_wad,
            enforce_gas_economic_gate: self.enforce_gas_economic_gate,
            minimum_net_gain_assets: amounts.minimum_net_gain_assets,
            gas_cost_multiplier: self.gas_cost_multiplier,
            native_token_price_ceiling_asset_wad: amounts.native_token_price_ceiling_asset_wad,
            maximum_diversification_cost_apy_wad: exact_utilization(
                self.maximum_diversification_cost_apy_bps,
            ),
        }
    }
}

/// Canonical exact Top-K APY diversification policy.
#[derive(Debug)]
pub struct ValidatedTopKApyConfig {
    /// Minimum conservative target APY improvement in WAD units.
    pub enter_apy_wad: U256,
    /// Minimum exact current-position APY underperformance in WAD units.
    pub exit_apy_wad: U256,
    /// Minimum post-probe replacement APY improvement in WAD units.
    pub replacement_apy_wad: U256,
    /// Maximum best-to-fourth APY gap in WAD units.
    pub fourth_market_max_gap_apy_wad: U256,
    /// Best-versus-other-average APY gap that activates the top-market boost.
    pub top_market_boost_threshold_apy_wad: U256,
    /// Top-market target weight after the boost activates.
    pub top_market_boost_weight_bps: u32,
    /// Upward EMA alpha in basis points.
    pub upside_ema_alpha_bps: u32,
    /// Probe allocation in basis points.
    pub probe_allocation_bps: u32,
    /// Membership confirmation duration in seconds.
    pub membership_confirmation_seconds: u64,
    /// Mandatory canonical strategy tick interval in seconds.
    pub tick_interval_seconds: u64,
    /// Three-market target weights.
    pub three_market_weights_bps: Vec<u32>,
    /// Four-market target weights.
    pub four_market_weights_bps: Vec<u32>,
    /// Entry allocation-distance score.
    pub entry_score_wad: U256,
    /// Desired terminal allocation-distance score.
    pub target_score_wad: U256,
    /// Minimum score improvement.
    pub minimum_improvement_score_wad: U256,
    /// Whether the conservative gas-versus-gain policy is enforced before signing.
    pub enforce_gas_economic_gate: bool,
    /// Minimum net gain in vault asset units.
    pub minimum_net_gain_assets: U256,
    /// Conservative native gas-cost multiplier.
    pub gas_cost_multiplier: u32,
    /// Native-token price ceiling in vault-asset WAD units.
    pub native_token_price_ceiling_asset_wad: U256,
    /// Maximum annualized diversification sacrifice.
    pub maximum_diversification_cost_apy_wad: U256,
}

/// What a canonical Top-K policy holds.
pub ghost struct TopKPolicyView {
    /// Minimum conservative target APY improvement in WAD units.
    pub enter_apy_wad: U256,
    /// Minimum exact current-position APY underperformance in WAD units.
    pub exit_apy_wad: U256,
    /// Minimum post-probe replacement APY improvement in WAD units.
    pub replacement_apy_wad: U256,
    /// Maximum best-to-fourth APY gap in WAD units.
    pub fourth_market_max_gap_apy_wad: U256,
    /// Best-versus-other-average APY gap that activates the top-market boost.
    pub top_market_boost_threshold_apy_wad: U256,
    /// Top-market target weight after the boost activates.
    pub top_market_boost_weight_bps: u32,
    /// Upward EMA alpha in basis points.
    pub upside_ema_alpha_bps: u32,
    /// Probe allocation in basis points.
    pub probe_allocation_bps: u32,
    /// Membership confirmation duration in seconds.
    pub membership_confirmation_seconds: u64,
    /// Mandatory canonical strategy tick interval in seconds.
    pub tick_interval_seconds: u64,
    /// Three-market target weights.
    pub three_market_weights_bps: Seq<u32>,
    /// Four-market target weights.
    pub four_market_weights_bps: Seq<u32>,
    /// Entry allocation-distance score.
    pub entry_score_wad: U256,
    /// Desired terminal allocation-distance score.
    pub target_score_wad: U256,
    /// Minimum score improvement.
    pub minimum_improvement_score_wad: U256,
    /// Whether the conservative gas-versus-gain policy is enforced before signing.
    pub enforce_gas_economic_gate: bool,
    /// Minimum net gain in vault asset units.
    pub minimum_net_gain_assets: U256,
    /// Conservative native gas-cost multiplier.
    pub gas_cost_multiplier: u32,
    /// Native-token price ceiling in vault-asset WAD units.
    pub native_token_price_ceiling_asset_wad: U256,
    /// Maximum annualized diversification sacrifice.
    pub maximum_diversification_cost_apy_wad: U256,
}

impl View for ValidatedTopKApyConfig {
    type V = TopKPolicyView;

    open spec fn view(&self) -> TopKPolicyView {
        TopKPolicyView {
            enter_apy_wad: self.enter_apy_wad,
            exit_apy_wad: self.exit_apy_wad,
            replacement_apy_wad: self.replacement_apy_wad,
            fourth_market_max_gap_apy_wad: self.fourth_market_max_gap_apy_wad,
            top_market_boost_threshold_apy_wad: self.top_market_boost_threshold_apy_wad,
            top_market_boost_weight_bps: self.top_market_boost_weight_bps,
            upside_ema_alpha_bps: self.upside_ema_alpha_bps,
            probe_allocation_bps: self.probe_allocation_bps,
            membership_confirmation_seconds: self.membership_confirmation_seconds,
            tick_interval_seconds: self.tick_interval_seconds,
            three_market_weights_bps: self.three_market_weights_bps@,
            four_market_weights_bps: self.four_market_weights_bps@,
            entry_score_wad: self.entry_score_wad,
            target_score_wad: self.target_score_wad,
            minimum_improvement_score_wad: self.minimum_improvement_score_wad,
            enforce_gas_economic_gate: self.enforce_gas_economic_gate,
            minimum_net_gain_assets: self.minimum_net_gain_assets,
            gas_cost_multiplier: self.gas_cost_multiplier,
            native_token_price_ceiling_asset_wad: self.native_token_price_ceiling_asset_wad,
            maximum_diversification_cost_apy_wad: self.maximum_diversification_cost_apy_wad,
        }
    }
}

} // verus!
