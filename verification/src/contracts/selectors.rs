//! Selector constants of the contracts that routine writes and administration call.

use vstd::prelude::*;

verus! {

/// Vault V2 routine allocation selector, `allocate(address,bytes,uint256)`.
pub const ALLOCATE: [u8; 4] = [0x5c, 0x9c, 0xe0, 0x4d];

/// Vault V2 routine deallocation selector, `deallocate(address,bytes,uint256)`.
pub const DEALLOCATE: [u8; 4] = [0x4b, 0x21, 0x9d, 0x16];

/// Vault V2 multicall selector, `multicall(bytes[])`.
pub const MULTICALL: [u8; 4] = [0xac, 0x96, 0x50, 0xd8];

/// Complete release-one production write selector allowlist.
pub const ROUTINE_WRITE_ALLOWLIST: [[u8; 4]; 3] = [ALLOCATE, DEALLOCATE, MULTICALL];

/// Adapter burn-shares administration selector, `burnShares(bytes32)`.
pub const ADAPTER_BURN_SHARES: [u8; 4] = [0x3b, 0x2d, 0xe5, 0xac];

/// Whether a selector is in the write allowlist.
pub open spec fn routine_write(selector: [u8; 4]) -> bool {
    exists|i: int| 0 <= i < 3 && (#[trigger] ROUTINE_WRITE_ALLOWLIST@[i])@ == selector@
}

fn same_selector(left: [u8; 4], right: [u8; 4]) -> (r: bool)
    ensures
        r == (left@ == right@),
{
    let same = left[0] == right[0] && left[1] == right[1] && left[2] == right[2] && left[3]
        == right[3];
    proof {
        if same {
            assert(left@ =~= right@);
        }
    }
    same
}

/// Returns whether `selector` is one of the only three release-one routine writes.
pub fn is_routine_write(selector: [u8; 4]) -> (r: bool)
    ensures
        r == routine_write(selector),
{
    let mut i: usize = 0;
    while i < 3
        invariant
            i <= 3,
            forall|j: int|
                0 <= j < i ==> (#[trigger] ROUTINE_WRITE_ALLOWLIST@[j])@ != selector@,
        decreases 3 - i,
    {
        if same_selector(ROUTINE_WRITE_ALLOWLIST[i], selector) {
            assert(ROUTINE_WRITE_ALLOWLIST@[i as int]@ == selector@);
            return true;
        }
        i = i + 1;
    }
    false
}

/// The allowlist holds exactly the three routine writes.
pub proof fn allowlist_holds_exactly_the_routine_writes(selector: [u8; 4])
    ensures
        routine_write(selector) == (selector@ == ALLOCATE@ || selector@ == DEALLOCATE@
            || selector@ == MULTICALL@),
{
    assert(ROUTINE_WRITE_ALLOWLIST@[0] == ALLOCATE);
    assert(ROUTINE_WRITE_ALLOWLIST@[1] == DEALLOCATE);
    assert(ROUTINE_WRITE_ALLOWLIST@[2] == MULTICALL);
}

} // verus!
