//! Raw HyperEVM replay data for deterministic recovery.

use vstd::prelude::*;

use crate::domain::BlockRef;

use super::provider::RpcReceipt;

verus! {

/// Raw block and complete ordered receipt bundle.
#[derive(Debug)]
pub struct RawBlockBundle {
    /// Exact block identity.
    pub block: BlockRef,
    /// Complete raw receipts for the block.
    pub receipts: Vec<RpcReceipt>,
}

} // verus!
