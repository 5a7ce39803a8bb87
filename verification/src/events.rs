//! Notification records, one per successful mutating operation.
//!
//! The ledger itself is fire-and-forget about them: each operation returns the
//! record describing what it did, and the host forwards it to whatever
//! indexer or backend consumes such notifications.

use vstd::prelude::*;

use crate::types::Asset;

verus! {

/// A successful deposit: `amount` of `asset` moved from `user` into custody
/// and was credited to `user`'s entitlement.
#[derive(Clone, Copy, PartialEq, Eq, Structural, Debug)]
pub struct DepositEvent {
    pub user: u64,
    pub asset: Asset,
    pub amount: i128,
}

/// A successful withdrawal, sequenced at `nonce`: `amount` of `asset` was
/// debited from `user`'s entitlement and moves from custody back to `user`.
#[derive(Clone, Copy, PartialEq, Eq, Structural, Debug)]
pub struct WithdrawEvent {
    pub nonce: u64,
    pub user: u64,
    pub asset: Asset,
    pub amount: i128,
}

/// A successful settlement, sequenced at `nonce`: `seller` gave `amount_sold`
/// of `asset_sold` to `buyer`, and `buyer` gave `amount_bought` of
/// `asset_bought` to `seller`.
#[derive(Clone, Copy, PartialEq, Eq, Structural, Debug)]
pub struct SettleEvent {
    pub nonce: u64,
    pub buyer: u64,
    pub seller: u64,
    pub asset_sold: Asset,
    pub amount_sold: i128,
    pub asset_bought: Asset,
    pub amount_bought: i128,
}

} // verus!
