//! Shared top-level error taxonomy.

use vstd::prelude::*;

verus! {

/// Errors of the process as a whole.
#[derive(Clone, Copy, Debug, PartialEq, Eq)]
pub enum Error {
    /// A fail-closed readiness precondition was not satisfied.
    Readiness(&'static str),
}

} // verus!
