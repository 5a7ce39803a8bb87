//! The authorization gate.
//!
//! Deposits are self-service: the depositing user signs its own deposit.
//! Withdrawals and settlements are custodial: only the admin signs them, and
//! the affected users cannot.

use vstd::prelude::*;

use crate::types::Error;

verus! {

/// Succeeds only when the verified signer is exactly the required principal;
/// otherwise the enclosing operation aborts with `AuthorizationFailure` and
/// no effect.
pub fn require_auth(signer: u64, principal: u64) -> (r: Result<(), Error>)
    ensures
        r is Ok <==> signer == principal,
        r is Err ==> r == Err::<(), Error>(Error::AuthorizationFailure),
{
    if signer == principal {
        Ok(())
    } else {
        Err(Error::AuthorizationFailure)
    }
}

} // verus!
