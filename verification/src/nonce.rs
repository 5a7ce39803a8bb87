//! The nonce sequencer: one monotonic counter gating the order of
//! admin-authorized mutating operations.
//!
//! Withdrawals and settlements are submitted by an off-chain process that may
//! batch, retry, or resubmit, and the environment may reorder independent
//! submissions; requiring each to carry the exact current counter value makes
//! a replay or an out-of-order submission a hard failure instead of a
//! double effect.

use vstd::prelude::*;

use crate::types::Error;

verus! {

/// The monotonic counter. It starts at 0 and advances by exactly 1 on every
/// fully successful admin-gated operation; it never decreases and never skips.
pub struct NonceSequencer {
    current: u64,
}

impl View for NonceSequencer {
    type V = nat;

    closed spec fn view(&self) -> nat {
        self.current as nat
    }
}

/// Whether a supplied sequence number is the one the sequencer expects.
/// Shared by the sequencer and by any host-facing shell that keeps the
/// counter in its own storage.
pub fn nonce_matches(current: u64, provided: u64) -> (r: Result<(), Error>)
    ensures
        r is Ok <==> provided == current,
        r is Err ==> r == Err::<(), Error>(Error::NonceMismatch),
{
    if provided == current {
        Ok(())
    } else {
        Err(Error::NonceMismatch)
    }
}

impl NonceSequencer {
    /// A fresh sequencer, at 0.
    pub fn new() -> (r: NonceSequencer)
        ensures
            r@ == 0,
    {
        NonceSequencer { current: 0 }
    }

    /// The current counter value; side-effect-free.
    pub fn get_nonce(&self) -> (r: u64)
        ensures
            r as nat == self@,
    {
        self.current
    }

    /// Fails with `NonceMismatch` unless `provided` is the current value;
    /// never mutates the counter.
    pub fn validate_nonce(&self, provided: u64) -> (r: Result<(), Error>)
        ensures
            r is Ok <==> provided as nat == self@,
            r is Err ==> r == Err::<(), Error>(Error::NonceMismatch),
    {
        nonce_matches(self.current, provided)
    }

    /// Advances the counter by exactly 1; invoked only after every other
    /// effect of the operation has already succeeded.
    pub fn increment_nonce(&mut self)
        requires
            old(self)@ < u64::MAX,
        ensures
            final(self)@ == old(self)@ + 1,
    {
        self.current = self.current + 1;
    }
}

} // verus!
