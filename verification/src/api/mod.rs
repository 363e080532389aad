//! Read-only operator data: exact artifacts by vault and transaction summaries.

pub mod dto;
pub mod routes;
pub mod store;

pub use store::{ApiDataStore, ApiStateEpoch, ApiStatePublication};
