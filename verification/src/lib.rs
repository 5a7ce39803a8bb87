//! A custodial settlement ledger for a two-asset trading venue.
//!
//! The library keeps user entitlements to two fungible assets and lets a
//! single trusted admin apply deposits, withdrawals, and bilateral trade
//! settlements in a strictly ordered, all-or-nothing fashion. Principals and
//! custody addresses are plain identifiers; the host that performs the real
//! value transfers, verifies signatures, and delivers notification events
//! sits outside this crate and hands it plain values.
//!
//! Every operation is proved to agree exactly with the step functions of
//! [`model`]: it either succeeds with the described effect, or fails with the
//! described error and no effect at all.

use vstd::prelude::*;

mod auth;
mod events;
pub mod laws;
mod ledger;
mod model;
mod nonce;
mod types;

pub use auth::require_auth;
pub use events::DepositEvent;
pub use events::SettleEvent;
pub use events::WithdrawEvent;
pub use ledger::BalanceEntry;
pub use ledger::BalanceLedger;
pub use ledger::checked_decrease;
pub use ledger::checked_increase;
pub use model::StateView;
pub use model::bal;
pub use model::credit;
pub use model::debit;
pub use model::deposit_step;
pub use model::settle_step;
pub use model::withdraw_step;
pub use nonce::NonceSequencer;
pub use nonce::nonce_matches;
pub use types::Asset;
pub use types::Error;

verus! {

/// The order-book settlement contract: the immutable configuration written at
/// construction, the balance ledger, and the nonce sequencer.
///
/// It abstracts to a [`StateView`], and each mutating operation agrees
/// exactly with the corresponding step function of [`model`].
pub struct OrderBookContract {
    admin: u64,
    asset_a: u64,
    asset_b: u64,
    ledger: BalanceLedger,
    nonce: NonceSequencer,
}

impl View for OrderBookContract {
    type V = StateView;

    closed spec fn view(&self) -> StateView {
        StateView {
            admin: self.admin,
            custody_a: self.asset_a,
            custody_b: self.asset_b,
            balances: self.ledger@,
            nonce: self.nonce@,
        }
    }
}

impl OrderBookContract {
    /// Well-formed: the ledger holds one row per (principal, asset) and no
    /// negative amount. Construction establishes this and every operation
    /// preserves it.
    pub closed spec fn wf(&self) -> bool {
        self.ledger.wf()
    }

    /// The recorded total of one asset over all principals. Deposits raise
    /// it by their amount, withdrawals lower it by theirs, and settlements
    /// leave it unchanged: together with the external custody holdings this
    /// is the conservation of each asset.
    pub closed spec fn total(&self, asset: Asset) -> int {
        self.ledger.total(asset)
    }

    /// A well-formed contract records no negative balance.
    pub proof fn lemma_wf_balances_nonneg(&self)
        requires
            self.wf(),
        ensures
            self@.balances_nonneg(),
            forall|p: u64, a: Asset| 0 <= #[trigger] self@.balance(p, a),
    {
        self.ledger.lemma_wf_nonneg();
    }

    /// Construct the venue: the admin identity and the two custody
    /// addresses, fixed for the contract's lifetime; an empty ledger; the
    /// nonce at 0.
    pub fn new(admin: u64, asset_a: u64, asset_b: u64) -> (r: OrderBookContract)
        ensures
            r.wf(),
            r@.admin == admin,
            r@.custody_a == asset_a,
            r@.custody_b == asset_b,
            r@.balances == Map::<(u64, Asset), int>::empty(),
            r@.nonce == 0,
            forall|a: Asset| #[trigger] r.total(a) == 0,
    {
        OrderBookContract {
            admin,
            asset_a,
            asset_b,
            ledger: BalanceLedger::new(),
            nonce: NonceSequencer::new(),
        }
    }

    /// Deposit `amount` of `asset` for `user`: self-authorized, always
    /// additive, not nonce-gated.
    ///
    /// `signer` is the principal whose authorization proof the host verified
    /// for this invocation. The host moves the real value from `user` into
    /// custody before committing the new state; if that movement fails it
    /// discards the state, which is what the step function's failure cases
    /// already describe for every on-ledger reason.
    pub fn deposit(&mut self, signer: u64, user: u64, asset: Asset, amount: i128) -> (r: Result<
        DepositEvent,
        Error,
    >)
        requires
            old(self).wf(),
        ensures
            final(self).wf(),
            ({
                let (s2, res) = deposit_step(old(self)@, signer, user, asset, amount);
                final(self)@ == s2 && r == res
            }),
            forall|a: Asset|
                #[trigger] final(self).total(a) == old(self).total(a) + (if r is Ok && a == asset {
                    amount as int
                } else {
                    0
                }),
    {
        match require_auth(signer, user) {
            Err(e) => {
                return Err(e);
            },
            Ok(()) => {},
        }
        if amount <= 0 {
            return Err(Error::InvalidAmount);
        }
        match self.ledger.increase_balance(user, asset, amount) {
            Err(e) => Err(e),
            Ok(()) => Ok(DepositEvent { user, asset, amount }),
        }
    }

    /// Withdraw `amount` of `asset` for `user`: admin-authorized and
    /// nonce-sequenced.
    ///
    /// The host moves the real value from custody back to `user` after the
    /// debit; if that movement fails it discards the new state, so the debit
    /// is never retained without the matching transfer.
    pub fn withdraw(
        &mut self,
        signer: u64,
        nonce: u64,
        user: u64,
        asset: Asset,
        amount: i128,
    ) -> (r: Result<WithdrawEvent, Error>)
        requires
            old(self).wf(),
            old(self)@.nonce < u64::MAX,
        ensures
            final(self).wf(),
            ({
                let (s2, res) = withdraw_step(old(self)@, signer, nonce, user, asset, amount);
                final(self)@ == s2 && r == res
            }),
            forall|a: Asset|
                #[trigger] final(self).total(a) == old(self).total(a) - (if r is Ok && a == asset {
                    amount as int
                } else {
                    0
                }),
    {
        match require_auth(signer, self.admin) {
            Err(e) => {
                return Err(e);
            },
            Ok(()) => {},
        }
        if amount <= 0 {
            return Err(Error::InvalidAmount);
        }
        match self.nonce.validate_nonce(nonce) {
            Err(e) => {
                return Err(e);
            },
            Ok(()) => {},
        }
        match self.ledger.decrease_balance(user, asset, amount) {
            Err(e) => {
                return Err(e);
            },
            Ok(()) => {},
        }
        self.nonce.increment_nonce();
        Ok(WithdrawEvent { nonce, user, asset, amount })
    }

    /// Settle a trade between `buyer` and `seller`: admin-authorized,
    /// nonce-sequenced, and atomic over its four ledger legs.
    ///
    /// The legs run in the fixed order debit seller, credit seller, credit
    /// buyer, debit buyer, each checked against the state the earlier legs
    /// produced; a failing leg aborts the whole settlement with no leg
    /// retained. The amounts are trusted verbatim: pricing is decided
    /// entirely off-chain.
    pub fn settle(
        &mut self,
        signer: u64,
        nonce: u64,
        buyer: u64,
        seller: u64,
        asset_sold: Asset,
        amount_sold: i128,
        asset_bought: Asset,
        amount_bought: i128,
    ) -> (r: Result<SettleEvent, Error>)
        requires
            old(self).wf(),
            old(self)@.nonce < u64::MAX,
        ensures
            final(self).wf(),
            ({
                let (s2, res) = settle_step(
                    old(self)@,
                    signer,
                    nonce,
                    buyer,
                    seller,
                    asset_sold,
                    amount_sold,
                    asset_bought,
                    amount_bought,
                );
                final(self)@ == s2 && r == res
            }),
            forall|a: Asset| #[trigger] final(self).total(a) == old(self).total(a),
    {
        match require_auth(signer, self.admin) {
            Err(e) => {
                return Err(e);
            },
            Ok(()) => {},
        }
        if amount_sold <= 0 || amount_bought <= 0 {
            return Err(Error::InvalidAmount);
        }
        match self.nonce.validate_nonce(nonce) {
            Err(e) => {
                return Err(e);
            },
            Ok(()) => {},
        }
        // The four legs run on a working copy, committed only when all of
        // them have succeeded: either every mutation is retained or none is.
        let mut work = self.ledger.snapshot();
        match work.decrease_balance(seller, asset_sold, amount_sold) {
            Err(e) => {
                return Err(e);
            },
            Ok(()) => {},
        }
        match work.increase_balance(seller, asset_bought, amount_bought) {
            Err(e) => {
                return Err(e);
            },
            Ok(()) => {},
        }
        match work.increase_balance(buyer, asset_sold, amount_sold) {
            Err(e) => {
                return Err(e);
            },
            Ok(()) => {},
        }
        match work.decrease_balance(buyer, asset_bought, amount_bought) {
            Err(e) => {
                return Err(e);
            },
            Ok(()) => {},
        }
        self.ledger = work;
        self.nonce.increment_nonce();
        Ok(
            SettleEvent {
                nonce,
                buyer,
                seller,
                asset_sold,
                amount_sold,
                asset_bought,
                amount_bought,
            },
        )
    }

    /// The recorded balance of `user` for `asset`; side-effect-free.
    pub fn get_balance(&self, user: u64, asset: Asset) -> (r: i128)
        requires
            self.wf(),
        ensures
            r as int == self@.balance(user, asset),
    {
        self.ledger.get_user_balance(user, asset)
    }

    /// The admin identity fixed at construction; side-effect-free.
    pub fn get_admin(&self) -> (r: u64)
        ensures
            r == self@.admin,
    {
        self.admin
    }

    /// The custody address an asset was bound to at construction;
    /// side-effect-free.
    pub fn get_asset(&self, asset: Asset) -> (r: u64)
        ensures
            r == self@.custody_of(asset),
    {
        match asset {
            Asset::A => self.asset_a,
            Asset::B => self.asset_b,
        }
    }

    /// The current nonce value; side-effect-free.
    pub fn get_nonce(&self) -> (r: u64)
        ensures
            r as nat == self@.nonce,
    {
        self.nonce.get_nonce()
    }
}

} // verus!
