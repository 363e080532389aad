//! Authoritative state rules.

pub mod caps;
