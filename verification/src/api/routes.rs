//! Decisions of the read-only route handlers.

use vstd::prelude::*;

use crate::domain::VaultAddress;
use crate::primitives::{
    address_from_text, address_literal, b256_from_text, b256_literal, B256,
};

use super::dto::ErrorResponse;

verus! {

/// Parses the vault address of a route.
pub fn parse_vault(value: &str) -> (r: Option<VaultAddress>)
    ensures
        match address_literal(value@) {
            Some(address) => r is Some && (r->0).0@ == address,
            None => r is None,
        },
{
    match address_from_text(value) {
        Some(address) => Some(VaultAddress(address)),
        None => None,
    }
}

/// Parses the transaction hash of a route.
pub fn parse_transaction_hash(value: &str) -> (r: Option<B256>)
    ensures
        match b256_literal(value@) {
            Some(hash) => r is Some && r->0@ == hash,
            None => r is None,
        },
{
    b256_from_text(value)
}

/// HTTP status of a health route.
pub fn health_status(healthy: bool) -> (r: u16)
    ensures
        r == if healthy {
            200u16
        } else {
            503u16
        },
{
    if healthy {
        200
    } else {
        503
    }
}

/// Status and body for an artifact that is not held.
pub fn not_found() -> (r: (u16, ErrorResponse))
    ensures
        r.0 == 404,
        r.1.code@ == "not_found"@,
{
    (404, ErrorResponse { code: "not_found" })
}

/// Status and body for a failure that is not detailed.
pub fn internal_error() -> (r: (u16, ErrorResponse))
    ensures
        r.0 == 500,
        r.1.code@ == "internal_error"@,
{
    (500, ErrorResponse { code: "internal_error" })
}

} // verus!
