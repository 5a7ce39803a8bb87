//! The mathematical model of the venue.
//!
//! `StateView` is the abstract state: the immutable configuration, the balance
//! map, and the nonce. The three step functions say, for every input, whether
//! an operation succeeds and what the state becomes; a failing step returns
//! the state unchanged, which is the all-or-nothing contract in one place.
//! The executable operations are proved to agree with these steps exactly.

use vstd::prelude::*;

use crate::events::{DepositEvent, SettleEvent, WithdrawEvent};
use crate::types::{Asset, Error};

verus! {

/// The abstract state of the settlement ledger.
#[verifier::ext_equal]
pub ghost struct StateView {
    /// The one principal that authorizes withdrawals and settlements.
    pub admin: u64,
    /// External custody address bound to asset A at construction.
    pub custody_a: u64,
    /// External custody address bound to asset B at construction.
    pub custody_b: u64,
    /// Recorded entitlements; a pair that was never credited is absent.
    pub balances: Map<(u64, Asset), int>,
    /// The global sequence number of admin-gated operations.
    pub nonce: nat,
}

/// The recorded balance of `principal` for `asset`: 0 when no entry exists.
pub open spec fn bal(m: Map<(u64, Asset), int>, principal: u64, asset: Asset) -> int {
    if m.dom().contains((principal, asset)) {
        m[(principal, asset)]
    } else {
        0
    }
}

/// The balance map after adding `amount` to one balance.
pub open spec fn credit(
    m: Map<(u64, Asset), int>,
    principal: u64,
    asset: Asset,
    amount: int,
) -> Map<(u64, Asset), int> {
    m.insert((principal, asset), bal(m, principal, asset) + amount)
}

/// The balance map after subtracting `amount` from one balance.
pub open spec fn debit(
    m: Map<(u64, Asset), int>,
    principal: u64,
    asset: Asset,
    amount: int,
) -> Map<(u64, Asset), int> {
    m.insert((principal, asset), bal(m, principal, asset) - amount)
}

impl StateView {
    /// The recorded balance: 0 for a pair that was never credited.
    pub open spec fn balance(self, principal: u64, asset: Asset) -> int {
        bal(self.balances, principal, asset)
    }

    /// The custody address an asset was bound to at construction.
    pub open spec fn custody_of(self, asset: Asset) -> u64 {
        match asset {
            Asset::A => self.custody_a,
            Asset::B => self.custody_b,
        }
    }

    /// The configuration written at construction and read-only afterward.
    pub open spec fn same_config(self, other: StateView) -> bool {
        &&& self.admin == other.admin
        &&& self.custody_a == other.custody_a
        &&& self.custody_b == other.custody_b
    }

    /// Every recorded balance is non-negative.
    pub open spec fn balances_nonneg(self) -> bool {
        forall|k: (u64, Asset)| #[trigger] self.balances.dom().contains(k) ==> self.balances[k] >= 0
    }
}

/// One deposit attempt: self-authorized, always additive, not nonce-gated.
///
/// The real movement of value from `user` into custody precedes the credit
/// and is the host's to perform; a host that cannot move the value discards
/// the step's result, so the model only describes the successful movement.
pub open spec fn deposit_step(
    s: StateView,
    signer: u64,
    user: u64,
    asset: Asset,
    amount: i128,
) -> (StateView, Result<DepositEvent, Error>) {
    if signer != user {
        (s, Err(Error::AuthorizationFailure))
    } else if amount <= 0 {
        (s, Err(Error::InvalidAmount))
    } else if bal(s.balances, user, asset) + amount > i128::MAX {
        (s, Err(Error::Overflow))
    } else {
        (
            StateView { balances: credit(s.balances, user, asset, amount as int), ..s },
            Ok(DepositEvent { user, asset, amount }),
        )
    }
}

/// One withdrawal attempt: admin-authorized and nonce-sequenced.
pub open spec fn withdraw_step(
    s: StateView,
    signer: u64,
    nonce: u64,
    user: u64,
    asset: Asset,
    amount: i128,
) -> (StateView, Result<WithdrawEvent, Error>) {
    if signer != s.admin {
        (s, Err(Error::AuthorizationFailure))
    } else if amount <= 0 {
        (s, Err(Error::InvalidAmount))
    } else if nonce as nat != s.nonce {
        (s, Err(Error::NonceMismatch))
    } else if bal(s.balances, user, asset) < amount {
        (s, Err(Error::InsufficientBalance))
    } else {
        (
            StateView {
                balances: debit(s.balances, user, asset, amount as int),
                nonce: s.nonce + 1,
                ..s
            },
            Ok(WithdrawEvent { nonce, user, asset, amount }),
        )
    }
}

/// One settlement attempt: admin-authorized, nonce-sequenced, and made of
/// four ledger legs in a fixed order. The order matters when `buyer` and
/// `seller`, or the two assets, coincide: a leg's check sees the credits of
/// the legs before it, and nothing of the legs after it.
pub open spec fn settle_step(
    s: StateView,
    signer: u64,
    nonce: u64,
    buyer: u64,
    seller: u64,
    asset_sold: Asset,
    amount_sold: i128,
    asset_bought: Asset,
    amount_bought: i128,
) -> (StateView, Result<SettleEvent, Error>) {
    if signer != s.admin {
        (s, Err(Error::AuthorizationFailure))
    } else if amount_sold <= 0 || amount_bought <= 0 {
        (s, Err(Error::InvalidAmount))
    } else if nonce as nat != s.nonce {
        (s, Err(Error::NonceMismatch))
    } else {
        let m0 = s.balances;
        if bal(m0, seller, asset_sold) < amount_sold {
            (s, Err(Error::InsufficientBalance))
        } else {
            let m1 = debit(m0, seller, asset_sold, amount_sold as int);
            if bal(m1, seller, asset_bought) + amount_bought > i128::MAX {
                (s, Err(Error::Overflow))
            } else {
                let m2 = credit(m1, seller, asset_bought, amount_bought as int);
                if bal(m2, buyer, asset_sold) + amount_sold > i128::MAX {
                    (s, Err(Error::Overflow))
                } else {
                    let m3 = credit(m2, buyer, asset_sold, amount_sold as int);
                    if bal(m3, buyer, asset_bought) < amount_bought {
                        (s, Err(Error::InsufficientBalance))
                    } else {
                        let m4 = debit(m3, buyer, asset_bought, amount_bought as int);
                        (
                            StateView { balances: m4, nonce: s.nonce + 1, ..s },
                            Ok(
                                SettleEvent {
                                    nonce,
                                    buyer,
                                    seller,
                                    asset_sold,
                                    amount_sold,
                                    asset_bought,
                                    amount_bought,
                                },
                            ),
                        )
                    }
                }
            }
        }
    }
}

} // verus!
