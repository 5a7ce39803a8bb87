//! The laws of the settlement ledger, stated over the step functions of
//! [`crate::model`] and proved once for all states and inputs.

use vstd::prelude::*;

use crate::model::{bal, deposit_step, settle_step, withdraw_step, StateView};
use crate::types::{Asset, Error};

verus! {

/// A deposit preserves non-negativity of every balance.
pub proof fn lemma_deposit_preserves_nonneg(
    s: StateView,
    signer: u64,
    user: u64,
    asset: Asset,
    amount: i128,
)
    requires
        s.balances_nonneg(),
    ensures
        deposit_step(s, signer, user, asset, amount).0.balances_nonneg(),
{
}

/// A withdrawal preserves non-negativity of every balance.
pub proof fn lemma_withdraw_preserves_nonneg(
    s: StateView,
    signer: u64,
    nonce: u64,
    user: u64,
    asset: Asset,
    amount: i128,
)
    requires
        s.balances_nonneg(),
    ensures
        withdraw_step(s, signer, nonce, user, asset, amount).0.balances_nonneg(),
{
}

/// A settlement preserves non-negativity of every balance.
pub proof fn lemma_settle_preserves_nonneg(
    s: StateView,
    signer: u64,
    nonce: u64,
    buyer: u64,
    seller: u64,
    asset_sold: Asset,
    amount_sold: i128,
    asset_bought: Asset,
    amount_bought: i128,
)
    requires
        s.balances_nonneg(),
    ensures
        settle_step(
            s,
            signer,
            nonce,
            buyer,
            seller,
            asset_sold,
            amount_sold,
            asset_bought,
            amount_bought,
        ).0.balances_nonneg(),
{
}

/// A deposit never touches the nonce or the configuration, and a failing
/// deposit leaves the whole state unchanged.
pub proof fn lemma_deposit_nonce_unchanged(
    s: StateView,
    signer: u64,
    user: u64,
    asset: Asset,
    amount: i128,
)
    ensures
        ({
            let (s2, r) = deposit_step(s, signer, user, asset, amount);
            &&& s2.nonce == s.nonce
            &&& s2.same_config(s)
            &&& r is Err ==> s2 == s
        }),
{
}

/// The nonce increases by exactly 1 after a successful withdrawal, and a
/// failing withdrawal leaves the whole state unchanged.
pub proof fn lemma_withdraw_nonce(
    s: StateView,
    signer: u64,
    nonce: u64,
    user: u64,
    asset: Asset,
    amount: i128,
)
    ensures
        ({
            let (s2, r) = withdraw_step(s, signer, nonce, user, asset, amount);
            &&& s2.same_config(s)
            &&& r is Ok ==> s2.nonce == s.nonce + 1
            &&& r is Err ==> s2 == s
        }),
{
}

/// The nonce increases by exactly 1 after a successful settlement, and a
/// failing settlement leaves the whole state unchanged: no leg of it is
/// retained, no balance moves, and the nonce does not advance.
pub proof fn lemma_settle_nonce_and_atomicity(
    s: StateView,
    signer: u64,
    nonce: u64,
    buyer: u64,
    seller: u64,
    asset_sold: Asset,
    amount_sold: i128,
    asset_bought: Asset,
    amount_bought: i128,
)
    ensures
        ({
            let (s2, r) = settle_step(
                s,
                signer,
                nonce,
                buyer,
                seller,
                asset_sold,
                amount_sold,
                asset_bought,
                amount_bought,
            );
            &&& s2.same_config(s)
            &&& r is Ok ==> s2.nonce == s.nonce + 1
            &&& r is Err ==> s2 == s
        }),
{
}

/// Replaying a withdrawal is rejected: after a withdrawal succeeds with some
/// nonce value, any second withdrawal carrying the same value fails and
/// changes nothing, and if it passes the authorization and amount checks the
/// failure is exactly `NonceMismatch`.
pub proof fn lemma_withdraw_replay_rejected(
    s: StateView,
    signer: u64,
    nonce: u64,
    user: u64,
    asset: Asset,
    amount: i128,
    signer2: u64,
    user2: u64,
    asset2: Asset,
    amount2: i128,
)
    requires
        withdraw_step(s, signer, nonce, user, asset, amount).1 is Ok,
    ensures
        ({
            let s2 = withdraw_step(s, signer, nonce, user, asset, amount).0;
            let (s3, r2) = withdraw_step(s2, signer2, nonce, user2, asset2, amount2);
            &&& r2 is Err
            &&& s3 == s2
            &&& signer2 == s.admin && amount2 > 0 ==> r2 == Err::<crate::events::WithdrawEvent,
            Error>(Error::NonceMismatch)
        }),
{
}

/// Replaying a settlement is rejected, in the same way.
pub proof fn lemma_settle_replay_rejected(
    s: StateView,
    signer: u64,
    nonce: u64,
    buyer: u64,
    seller: u64,
    asset_sold: Asset,
    amount_sold: i128,
    asset_bought: Asset,
    amount_bought: i128,
    signer2: u64,
    buyer2: u64,
    seller2: u64,
    asset_sold2: Asset,
    amount_sold2: i128,
    asset_bought2: Asset,
    amount_bought2: i128,
)
    requires
        settle_step(
            s,
            signer,
            nonce,
            buyer,
            seller,
            asset_sold,
            amount_sold,
            asset_bought,
            amount_bought,
        ).1 is Ok,
    ensures
        ({
            let s2 = settle_step(
                s,
                signer,
                nonce,
                buyer,
                seller,
                asset_sold,
                amount_sold,
                asset_bought,
                amount_bought,
            ).0;
            let (s3, r2) = settle_step(
                s2,
                signer2,
                nonce,
                buyer2,
                seller2,
                asset_sold2,
                amount_sold2,
                asset_bought2,
                amount_bought2,
            );
            &&& r2 is Err
            &&& s3 == s2
            &&& signer2 == s.admin && amount_sold2 > 0 && amount_bought2 > 0 ==> r2 == Err::<
                crate::events::SettleEvent,
                Error,
            >(Error::NonceMismatch)
        }),
{
}

/// The sum of the named parties' balances of one asset, counted once when
/// buyer and seller coincide.
pub open spec fn party_sum(s: StateView, buyer: u64, seller: u64, a: Asset) -> int {
    if buyer == seller {
        bal(s.balances, buyer, a)
    } else {
        bal(s.balances, buyer, a) + bal(s.balances, seller, a)
    }
}

/// A settlement only redistributes: it never touches a principal it does not
/// name, and for each asset the named parties' combined balance is unchanged.
pub proof fn lemma_settle_redistributes(
    s: StateView,
    signer: u64,
    nonce: u64,
    buyer: u64,
    seller: u64,
    asset_sold: Asset,
    amount_sold: i128,
    asset_bought: Asset,
    amount_bought: i128,
)
    ensures
        ({
            let s2 = settle_step(
                s,
                signer,
                nonce,
                buyer,
                seller,
                asset_sold,
                amount_sold,
                asset_bought,
                amount_bought,
            ).0;
            &&& forall|p: u64, a: Asset|
                p != buyer && p != seller ==> #[trigger] bal(s2.balances, p, a) == bal(
                    s.balances,
                    p,
                    a,
                )
            &&& forall|a: Asset|
                #[trigger] party_sum(s2, buyer, seller, a) == party_sum(s, buyer, seller, a)
        }),
{
}

} // verus!
