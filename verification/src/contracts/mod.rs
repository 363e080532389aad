//! Contract selectors and runtime code identity.

pub mod code_identity;
pub mod selectors;
