//! Locked identities of deployed contracts.

use vstd::prelude::*;

use crate::primitives::{Address, B256};

verus! {

/// Role of a locked contract.
#[derive(Clone, Copy, Debug, PartialEq, Eq, Structural)]
pub enum IdentityKind {
    /// Parent Vault V2.
    VaultV2,
    /// Morpho singleton.
    MorphoSingleton,
    /// Adaptive Curve interest-rate model.
    AdaptiveCurveIrm,
    /// Direct market adapter.
    DirectAdapter,
    /// Vault asset token.
    AssetToken,
    /// Share or asset gate.
    Gate,
    /// Adapter registry.
    AdapterRegistry,
    /// Multicall3 aggregator.
    Multicall3,
}

/// Locked identity of one deployed contract.
#[derive(Clone, Copy, Debug, PartialEq, Eq, Structural)]
pub struct ValidatedContractIdentity {
    /// Role.
    pub kind: IdentityKind,
    /// Deployed address.
    pub address: Address,
    /// Keccak-256 of the runtime bytecode.
    pub runtime_code_hash: B256,
}

/// Locked identities of one chain.
#[derive(Debug)]
pub struct ValidatedProtocolLock {
    /// EVM chain ID.
    pub chain_id: u64,
    /// Locked contracts.
    pub contracts: Vec<ValidatedContractIdentity>,
}

/// Pinned identity of the remote signer.
#[derive(Debug)]
pub struct RemoteSignerIdentity {
    /// Host that the signer endpoint must have.
    pub service_identity: String,
    /// Environment variable that names the client identity file.
    pub client_identity_env: String,
    /// Environment variable that holds the authentication secret.
    pub authentication_secret_env: String,
}

} // verus!
