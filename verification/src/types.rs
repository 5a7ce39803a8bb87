//! Core identifiers and the error taxonomy of the settlement ledger.

use vstd::prelude::*;

verus! {

/// Which of the venue's two assets a balance or an operation refers to.
#[derive(Clone, Copy, PartialEq, Eq, Structural, Debug, Hash)]
pub enum Asset {
    A,
    B,
}

/// Every way an operation can fail. Each failure aborts the whole operation:
/// the ledger, the nonce, and the configuration are left exactly as before.
#[derive(Clone, Copy, PartialEq, Eq, Structural, Debug)]
pub enum Error {
    /// The invocation does not carry an authorization proof for the principal
    /// that the operation requires (the depositing user, or the admin).
    AuthorizationFailure,
    /// A supplied amount is not strictly positive.
    InvalidAmount,
    /// The supplied sequence number differs from the current nonce: the call
    /// is a replay or an out-of-order submission.
    NonceMismatch,
    /// A balance to be decreased is smaller than the requested amount.
    InsufficientBalance,
    /// An increase would exceed the representable balance range.
    Overflow,
}

} // verus!
