//! An access-key lifecycle and quota-enforcement gateway.
//!
//! The library authenticates bearer tokens against stored access records,
//! enforces a monthly usage quota per token, and manages the workflow by
//! which a requester becomes a token holder: waiting list, approval, active
//! token, optional revocation, plus a self-service trial-token path.
//!
//! All persistent state lives in a key-value record store. The store
//! adapter here is an in-memory one with a verified map model; the record
//! wire format, the per-request admission decision, the quota ledger and
//! the approval workflows are verified against it. Every decision is also
//! available as a pure step function over plain values, so a caller that
//! keeps its records in an external store can drive the same verified
//! logic around its own reads and writes.

pub mod approval;
pub mod errors;
pub mod gate;
pub mod json;
pub mod laws;
pub mod notifier;
pub mod quota;
pub mod records;
pub mod registry;
pub mod responses;
pub mod store;
pub mod text;
pub mod trial;
pub mod waitlist;
