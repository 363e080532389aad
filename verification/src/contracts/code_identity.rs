//! Runtime bytecode identity validation against the parsed protocol lock.

use vstd::prelude::*;

use crate::primitives::{b256, group_b256, keccak256, keccak256_digest, Address, B256};
use crate::protocol_lock::ValidatedContractIdentity;

verus! {

/// Runtime code identity mismatch.
#[derive(Clone, Copy, Debug, PartialEq, Eq, Structural)]
pub enum CodeIdentityError {
    /// No runtime bytecode exists at the locked address.
    EmptyCode {
        /// Locked address.
        address: Address,
    },
    /// Runtime code Keccak-256 differs from the locked deployment hash.
    HashMismatch {
        /// Locked address.
        address: Address,
        /// Protocol-lock hash.
        expected: B256,
        /// Observed code hash.
        observed: B256,
    },
}

/// Judgement of the bytecode at a locked address.
pub open spec fn code_identity(
    identity: ValidatedContractIdentity,
    runtime_code: Seq<u8>,
) -> Result<(), CodeIdentityError> {
    let observed = b256(keccak256_digest(runtime_code));
    if runtime_code.len() == 0 {
        Err(CodeIdentityError::EmptyCode { address: identity.address })
    } else if observed != identity.runtime_code_hash {
        Err(
            CodeIdentityError::HashMismatch {
                address: identity.address,
                expected: identity.runtime_code_hash,
                observed,
            },
        )
    } else {
        Ok(())
    }
}

/// Establishes that `runtime_code` is nonempty and exactly matches the locked runtime hash.
pub fn verify_runtime_code(identity: &ValidatedContractIdentity, runtime_code: &Vec<u8>) -> (r:
    Result<(), CodeIdentityError>)
    ensures
        r == code_identity(*identity, runtime_code@),
{
    broadcast use group_b256;

    if runtime_code.len() == 0 {
        return Err(CodeIdentityError::EmptyCode { address: identity.address });
    }
    let observed = keccak256(runtime_code.as_slice());
    if observed != identity.runtime_code_hash {
        return Err(
            CodeIdentityError::HashMismatch {
                address: identity.address,
                expected: identity.runtime_code_hash,
                observed,
            },
        );
    }
    Ok(())
}

} // verus!
