//! The error taxonomy shared by every component of the node.

use vstd::prelude::*;

verus! {

/// Why an operation of the node failed.
#[derive(Debug, Clone, Copy, PartialEq, Eq, Structural)]
pub enum NodeError {
    /// A persistence adapter refused the operation.
    StorageError,
    /// A mutation could not be applied, or its transport failed.
    WriteStoreError,
    /// Signature recovery did not yield a valid address.
    InvalidSignature,
    /// The signed payload could not be decoded.
    MalformedPayload,
    /// The action code is outside the enumeration of actions.
    UnknownAction,
    /// The signer is not the configured administrator.
    PermissionDenied,
    /// The blob store or the chain refused a rollup, or its record could not be kept.
    RollupError,
    /// A listener is already registered under the contract address.
    AlreadyRegistered,
}

} // verus!
