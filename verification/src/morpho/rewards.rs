//! Fail-closed reward-policy eligibility for terminal-value projection.

use vstd::prelude::*;

use crate::domain::RewardPolicy;

verus! {

/// Reward contribution supported by the release-one terminal-value engine.
#[derive(Clone, Copy, Debug, PartialEq, Eq, Structural)]
pub enum RewardContribution {
    /// Reviewed evidence or mandate authorizes an exact zero contribution.
    ExplicitlyZero,
}

/// Reward policy cannot be evaluated by the approved local engine.
#[derive(Clone, Copy, Debug, PartialEq, Eq, Structural)]
pub enum RewardError {
    /// Evidence expires before the required benefit horizon.
    Expired,
    /// No approved reward cash-flow module is installed for the modeled revision.
    UnsupportedModel,
    /// Position is explicitly fixed pending a model.
    Fixed,
    /// Required evidence identity is zero.
    InvalidIdentity,
}

/// Outcome of a reward policy that must hold through a horizon.
pub open spec fn reward_contribution_spec(policy: RewardPolicy, required_through: u64) -> Result<
    RewardContribution,
    RewardError,
> {
    match policy {
        RewardPolicy::NoMaterialRewards {
            checked_at_block: _,
            valid_until_timestamp,
            evidence_hash,
        } => if evidence_hash@ == 0 {
            Err(RewardError::InvalidIdentity)
        } else if valid_until_timestamp < required_through {
            Err(RewardError::Expired)
        } else {
            Ok(RewardContribution::ExplicitlyZero)
        },
        RewardPolicy::IgnoreRewardsByCuratorMandate { policy_revision } => if policy_revision@
            == 0 {
            Err(RewardError::InvalidIdentity)
        } else {
            Ok(RewardContribution::ExplicitlyZero)
        },
        RewardPolicy::Modeled { .. } => Err(RewardError::UnsupportedModel),
        RewardPolicy::FixedUntilModeled => Err(RewardError::Fixed),
    }
}

/// Validates that release one may use exactly zero reward contribution through a horizon.
pub fn release_one_reward_contribution(policy: &RewardPolicy, required_through: u64) -> (r: Result<
    RewardContribution,
    RewardError,
>)
    ensures
        r == reward_contribution_spec(*policy, required_through),
{
    match policy {
        RewardPolicy::NoMaterialRewards { valid_until_timestamp, evidence_hash, .. } => {
            if evidence_hash.is_zero() {
                Err(RewardError::InvalidIdentity)
            } else if *valid_until_timestamp < required_through {
                Err(RewardError::Expired)
            } else {
                Ok(RewardContribution::ExplicitlyZero)
            }
        },
        RewardPolicy::IgnoreRewardsByCuratorMandate { policy_revision } => {
            if policy_revision.is_zero() {
                Err(RewardError::InvalidIdentity)
            } else {
                Ok(RewardContribution::ExplicitlyZero)
            }
        },
        RewardPolicy::Modeled { .. } => Err(RewardError::UnsupportedModel),
        RewardPolicy::FixedUntilModeled => Err(RewardError::Fixed),
    }
}

/// Evidence that covers a horizon covers every earlier one.
pub proof fn reward_coverage_is_monotone(policy: RewardPolicy, earlier: u64, later: u64)
    requires
        earlier <= later,
        reward_contribution_spec(policy, later) is Ok,
    ensures
        reward_contribution_spec(policy, earlier) is Ok,
{
}

} // verus!
