//! Pure, exact Morpho and Vault V2 arithmetic.

use vstd::prelude::*;

use crate::domain::ArithmeticError;

pub mod adaptive_curve;
pub mod blue_math;
pub mod fees;
pub mod laws;
pub mod market_adapter;
pub mod rewards;
pub mod vault_v1_adapter;
pub mod vault_v2;

verus! {

/// Fail-closed protocol arithmetic or state-transition error.
#[derive(Clone, Copy, Debug, PartialEq, Eq, Structural)]
pub enum MathError {
    /// A checked integer operation failed.
    Arithmetic(ArithmeticError),
    /// A timestamp precedes the state timestamp it is projecting.
    TimestampRegression,
    /// A source-level integer width or market invariant would be violated.
    Invariant,
    /// A value cannot be represented in the required signed domain.
    SignedConversion,
    /// The adapter's source-level minted-share check failed.
    SharePriceAboveOne,
    /// The adapter does not own enough internally accounted shares.
    InsufficientShares,
    /// Morpho does not have enough accounting or token liquidity.
    InsufficientLiquidity,
}

/// An arithmetic outcome as a protocol outcome.
pub open spec fn lifted<T>(result: Result<T, ArithmeticError>) -> Result<T, MathError> {
    match result {
        Ok(value) => Ok(value),
        Err(error) => Err(MathError::Arithmetic(error)),
    }
}

/// Reports an arithmetic failure as a protocol failure.
pub(crate) fn lift<T>(result: Result<T, ArithmeticError>) -> (r: Result<T, MathError>)
    ensures
        r == lifted(result),
{
    match result {
        Ok(value) => Ok(value),
        Err(error) => Err(MathError::Arithmetic(error)),
    }
}

} // verus!
