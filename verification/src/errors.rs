//! The error taxonomy. Store and transport faults are never silently
//! swallowed: they surface at the request boundary as a generic internal
//! error, while business-rule rejections map to specific client-facing
//! responses. An exceeded quota is a soft rejection, not a fault: it is
//! carried by the admission [`Decision`], not by [`Failure`].

use vstd::prelude::*;

verus! {

/// Why an operation could not do its work.
#[derive(PartialEq, Eq, Structural, Clone, Copy, Debug)]
pub enum Failure {
    /// The token or user is absent.
    NotFound,
    /// A duplicate email or token.
    AlreadyExists,
    /// A required field is missing.
    EmptyInput,
    /// A stored value does not parse as the expected record shape: store
    /// corruption or a schema mismatch, treated as an internal fault.
    DecodeError,
    /// The store or the notifier cannot be reached. The in-memory adapter
    /// never raises this; a deployment over an external store maps its
    /// transport errors here.
    BackendUnavailable,
}

/// Why a request was turned away at the access gate.
#[derive(PartialEq, Eq, Structural, Clone, Copy, Debug)]
pub enum RejectReason {
    /// No token came with the request.
    MissingToken,
    /// The token is not a stored key.
    NotRegistered,
    /// The token's record is marked revoked.
    Revoked,
    /// Usage in the current period exceeds the record's monthly limit.
    LimitExceeded,
    /// A store fault or a malformed stored value.
    Internal,
}

/// The admission decision for one request.
#[derive(PartialEq, Eq, Structural, Clone, Copy, Debug)]
pub enum Decision {
    Allow,
    Reject(RejectReason),
}

} // verus!
