//! Parent allocation-cap admission.

use vstd::prelude::*;

use crate::domain::CapState;
use crate::morpho::blue_math::{mul_div_down, mul_div_down_spec, wad, WAD};
use crate::primitives::{group_u256, u256, U256};

verus! {

/// Allocation cap admission failure.
#[derive(Clone, Copy, Debug, PartialEq, Eq, Structural)]
pub struct CapAdmissionError;

/// Largest allocation the relative cap admits, unbounded at one WAD.
pub open spec fn relative_limit_admits(cap: CapState, total_assets: U256, allocation: U256) -> bool {
    cap.relative_cap@ == WAD || match mul_div_down_spec(
        total_assets,
        cap.relative_cap,
        u256(WAD as nat),
    ) {
        Ok(maximum) => allocation@ <= maximum@,
        Err(_) => false,
    }
}

/// Whether a cap admits an allocation: a nonzero absolute cap covers it, and so does a relative
/// cap of at most one WAD.
pub open spec fn cap_admits(cap: CapState, total_assets: U256, allocation: U256) -> bool {
    cap.absolute_cap@ != 0 && cap.relative_cap@ <= WAD && allocation@ <= cap.absolute_cap@
        && relative_limit_admits(cap, total_assets, allocation)
}

/// Admits an allocation under the absolute and relative limits of a cap.
pub fn validate_allocation_cap(cap: &CapState, total_assets: U256, allocation: U256) -> (r: Result<
    (),
    CapAdmissionError,
>)
    ensures
        r == (if cap_admits(*cap, total_assets, allocation) {
            Ok::<(), CapAdmissionError>(())
        } else {
            Err(CapAdmissionError)
        }),
{
    broadcast use group_u256;

    if cap.absolute_cap.is_zero() || wad().lt(cap.relative_cap) || cap.absolute_cap.lt(
        allocation,
    ) {
        return Err(CapAdmissionError);
    }
    if cap.relative_cap.lt(wad()) {
        match mul_div_down(total_assets, cap.relative_cap, wad()) {
            Ok(maximum) => {
                if maximum.lt(allocation) {
                    return Err(CapAdmissionError);
                }
            },
            Err(_) => {
                return Err(CapAdmissionError);
            },
        }
    }
    Ok(())
}

/// A cap that admits an allocation admits every smaller one.
pub proof fn cap_admission_is_downward_closed(
    cap: CapState,
    total_assets: U256,
    allocation: U256,
    smaller_allocation: U256,
)
    requires
        cap_admits(cap, total_assets, allocation),
        smaller_allocation@ <= allocation@,
    ensures
        cap_admits(cap, total_assets, smaller_allocation),
{
}

} // verus!
