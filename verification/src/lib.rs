//! Morpho Vault V2 direct-adapter reallocation engine.
//!
//! The crate holds the exact protocol arithmetic, the sequential action simulator, the bounded
//! deterministic planners, the configuration rules, the chain-ingestion decisions and the operator
//! data of the reallocator. Network, storage and signer access stay outside.

use vstd::prelude::*;
use vstd::string::*;

pub mod api;
pub mod chain;
pub mod collections;
pub mod config;
pub mod contracts;
pub mod domain;
pub mod endpoint;
pub mod error;
pub mod morpho;
pub mod planner;
pub mod primitives;
pub mod protocol_lock;
pub mod startup;
pub mod state;

verus! {

/// Package version.
pub const PACKAGE_VERSION: &'static str = "0.1.0";

/// Build-time identity exposed through health and Prometheus endpoints.
#[derive(Clone, Copy, Debug, PartialEq, Eq)]
pub struct BuildInfo {
    /// Package version.
    pub version: &'static str,
    /// Git revision supplied by the build, or `unknown` for an unannotated local build.
    pub revision: &'static str,
}

/// Returns immutable build identity for the revision that the build supplied, if any.
pub fn build_info(revision: Option<&'static str>) -> (r: BuildInfo)
    ensures
        r.version == PACKAGE_VERSION,
        r.revision@ == (match revision {
            Some(text) => text@,
            None => "unknown"@,
        }),
{
    BuildInfo {
        version: PACKAGE_VERSION,
        revision: match revision {
            Some(text) => text,
            None => "unknown",
        },
    }
}

/// Whether a character is a hexadecimal digit.
pub open spec fn is_hex_digit(c: char) -> bool {
    ('0' <= c && c <= '9') || ('a' <= c && c <= 'f') || ('A' <= c && c <= 'F')
}

/// Returns whether a text is a complete Git revision: forty hexadecimal digits.
pub fn is_git_revision(value: &str) -> (r: bool)
    ensures
        r == (value@.len() == 40 && forall|i: int|
            0 <= i < 40 ==> is_hex_digit(#[trigger] value@[i])),
{
    if value.unicode_len() != 40 {
        return false;
    }
    let mut i: usize = 0;
    while i < 40
        invariant
            i <= 40,
            value@.len() == 40,
            forall|j: int| 0 <= j < i ==> is_hex_digit(#[trigger] value@[j]),
        decreases 40 - i,
    {
        let c = value.get_char(i);
        if !(('0' <= c && c <= '9') || ('a' <= c && c <= 'f') || ('A' <= c && c <= 'F')) {
            assert(!is_hex_digit(value@[i as int]));
            return false;
        }
        i = i + 1;
    }
    true
}

} // verus!
