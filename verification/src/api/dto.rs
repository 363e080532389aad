//! Stable read-only API data-transfer types.

use vstd::prelude::*;

use crate::domain::{BlockRef, MarketId, VaultAddress};
use crate::primitives::{B256, U256};

verus! {

/// API error with no internal provider/storage/secret detail.
#[derive(Clone, Copy, Debug, PartialEq, Eq)]
pub struct ErrorResponse {
    /// Stable machine-readable code.
    pub code: &'static str,
}

/// One read-only transaction lifecycle summary.
#[derive(Clone, Copy, Debug)]
pub struct TransactionView<S: Copy> {
    /// Canonical or latest signed attempt hash.
    pub transaction_hash: B256,
    /// Durable lifecycle state.
    pub state: S,
    /// Included block when known.
    pub included_block: Option<u64>,
    /// Stable vault controller revision that produced this view.
    pub revision: u64,
}

/// One durable signed transaction.
#[derive(Clone, Copy, Debug)]
pub struct TransactionSummary<S: Copy> {
    /// Canonical or latest signed attempt hash.
    pub transaction_hash: B256,
    /// Target vault.
    pub vault: VaultAddress,
    /// Durable lifecycle state.
    pub state: S,
    /// Included block when known.
    pub included_block: Option<u64>,
}

/// One market's exact integer rate view derived from a single projected block context.
#[derive(Clone, Copy, Debug, PartialEq, Eq, Structural)]
pub struct MarketRateView {
    /// Morpho market identifier.
    pub market_id: MarketId,
    /// Spot borrow rate per second in WAD units.
    pub spot_borrow_rate_per_second_wad: U256,
    /// Spot supply rate per second in WAD units.
    pub spot_supply_rate_per_second_wad: U256,
    /// Utilization in WAD units.
    pub utilization_wad: U256,
}

/// Immutable rate snapshot shared by runtime status, API, planner input, and metrics.
#[derive(Debug)]
pub struct RateSnapshotView {
    /// Parent vault.
    pub vault: VaultAddress,
    /// Exact snapshot on which the projection is based.
    pub snapshot_hash: B256,
    /// Canonical projected block.
    pub block: BlockRef,
    /// Maximum-minus-minimum spot borrow rate in WAD-per-second units.
    pub spread_rate_per_second_wad: U256,
    /// Same spread expressed as simple APR basis points, rounded down.
    pub spread_apr_bps: u64,
    /// Deterministically ordered market rates.
    pub markets: Vec<MarketRateView>,
}

} // verus!
