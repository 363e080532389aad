//! Canonical chain ingestion rules and exact RPC reads.

use vstd::prelude::*;

use self::provider::ProviderError;

pub mod heads;
pub mod hyper_evm;
pub mod laws;
pub mod logs;
pub mod multicall;
pub mod provider;
pub mod provider_consensus;
pub mod receipts;
pub mod reorg;

verus! {

/// Canonical chain ingestion failure.
#[derive(Debug, PartialEq, Eq)]
pub enum ChainError {
    /// Role-scoped provider failure.
    Provider(ProviderError),
    /// Durable storage failure.
    Storage,
    /// A receipt or log is not exactly attributable to the requested canonical block.
    InvalidBundle(&'static str),
    /// A latest-block log query and its transaction receipts are not yet mutually consistent.
    ///
    /// No data from this view is persisted. The caller may retry from the durable cursor because
    /// RPCs can expose newly built HyperEVM blocks through separate indexes at slightly different
    /// times.
    ProviderViewInconsistent,
    /// The provider chain diverged beyond the configured rewind bound.
    DeepReorg {
        /// Number of historical heights examined.
        searched_blocks: u64,
    },
    /// The primary and checkpoint providers disagree on canonical identity.
    ProviderDisagreement {
        /// Compared block number.
        block_number: u64,
    },
    /// A required bounded service channel closed.
    ChannelClosed,
    /// State consumer did not accept a canonical update inside the bounded deadline.
    ChannelTimeout,
    /// Chain service configuration violates a hard request bound.
    InvalidConfiguration(&'static str),
}

} // verus!
