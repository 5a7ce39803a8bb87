//! The balance ledger: a persistent mapping from (principal, asset) to a
//! non-negative amount.
//!
//! Entries are created lazily on first credit and never removed, even when a
//! balance returns to zero. The ledger abstracts to the balance map of
//! [`crate::model`], and each mutation is proved to be exactly one `credit`
//! or `debit` of that map — or, on failure, no change at all.

use vstd::prelude::*;
use vstd::pervasive::VecAdditionalExecFns;

use crate::model::{bal, credit, debit};
use crate::types::{Asset, Error};

verus! {

/// One row of the ledger: the balance one principal holds of one asset.
#[derive(Clone, Copy, PartialEq, Eq, Structural, Debug)]
pub struct BalanceEntry {
    pub principal: u64,
    pub asset: Asset,
    pub amount: i128,
}

/// The key a row is looked up by.
pub open spec fn entry_key(e: BalanceEntry) -> (u64, Asset) {
    (e.principal, e.asset)
}

/// The balance map a sequence of rows denotes. A later row overrides an
/// earlier one with the same key, though a well-formed ledger never holds two.
pub open spec fn map_of(s: Seq<BalanceEntry>) -> Map<(u64, Asset), int>
    decreases s.len(),
{
    if s.len() == 0 {
        Map::empty()
    } else {
        map_of(s.drop_last()).insert(entry_key(s.last()), s.last().amount as int)
    }
}

/// The sum of all recorded balances of one asset, over every principal.
pub open spec fn asset_total(s: Seq<BalanceEntry>, asset: Asset) -> int
    decreases s.len(),
{
    if s.len() == 0 {
        0
    } else {
        asset_total(s.drop_last(), asset) + if s.last().asset == asset {
            s.last().amount as int
        } else {
            0
        }
    }
}

/// No two rows share a key.
pub open spec fn unique_keys(s: Seq<BalanceEntry>) -> bool {
    forall|i: int, j: int|
        0 <= i < j < s.len() ==> entry_key(#[trigger] s[i]) != entry_key(#[trigger] s[j])
}

/// Every row's amount is non-negative.
pub open spec fn entries_nonneg(s: Seq<BalanceEntry>) -> bool {
    forall|i: int| 0 <= i < s.len() ==> (#[trigger] s[i]).amount >= 0
}

/// A key is in the denoted map exactly when some row carries it.
proof fn lemma_map_of_contains(s: Seq<BalanceEntry>, k: (u64, Asset))
    ensures
        map_of(s).dom().contains(k) <==> exists|i: int| 0 <= i < s.len() && entry_key(s[i]) == k,
    decreases s.len(),
{
    if s.len() > 0 {
        lemma_map_of_contains(s.drop_last(), k);
        if entry_key(s.last()) == k {
            assert(entry_key(s[s.len() - 1]) == k);
        } else if map_of(s).dom().contains(k) {
            let i = choose|i: int| 0 <= i < s.drop_last().len() && entry_key(s.drop_last()[i]) == k;
            assert(entry_key(s[i]) == k);
        } else if exists|i: int| 0 <= i < s.len() && entry_key(s[i]) == k {
            let i = choose|i: int| 0 <= i < s.len() && entry_key(s[i]) == k;
            assert(i < s.len() - 1);
            assert(entry_key(s.drop_last()[i]) == k);
        }
    }
}

/// Under unique keys, the denoted map sends each row's key to its amount.
proof fn lemma_map_of_index(s: Seq<BalanceEntry>, i: int)
    requires
        unique_keys(s),
        0 <= i < s.len(),
    ensures
        map_of(s).dom().contains(entry_key(s[i])),
        map_of(s)[entry_key(s[i])] == s[i].amount as int,
    decreases s.len(),
{
    if i < s.len() - 1 {
        assert(unique_keys(s.drop_last())) by {
            assert(forall|x: int, y: int|
                0 <= x < y < s.drop_last().len() ==> entry_key(#[trigger] s.drop_last()[x]) != entry_key(
                    #[trigger] s.drop_last()[y],
                ));
        }
        lemma_map_of_index(s.drop_last(), i);
        assert(entry_key(s[i]) != entry_key(s[s.len() - 1]));
    }
}

/// Non-negative rows denote a map of non-negative balances.
proof fn lemma_map_of_nonneg(s: Seq<BalanceEntry>)
    requires
        entries_nonneg(s),
    ensures
        forall|k: (u64, Asset)| #[trigger] map_of(s).dom().contains(k) ==> map_of(s)[k] >= 0,
    decreases s.len(),
{
    if s.len() > 0 {
        assert(entries_nonneg(s.drop_last()));
        lemma_map_of_nonneg(s.drop_last());
        assert(s[s.len() - 1].amount >= 0);
        assert forall|k: (u64, Asset)| #[trigger] map_of(s).dom().contains(k) implies map_of(s)[k]
            >= 0 by {
            if k != entry_key(s.last()) {
                assert(map_of(s.drop_last()).dom().contains(k));
            }
        }
    }
}

/// Overwriting one row's amount denotes inserting at its key.
proof fn lemma_map_of_update(s: Seq<BalanceEntry>, i: int, e: BalanceEntry)
    requires
        unique_keys(s),
        0 <= i < s.len(),
        entry_key(e) == entry_key(s[i]),
    ensures
        map_of(s.update(i, e)) == map_of(s).insert(entry_key(e), e.amount as int),
    decreases s.len(),
{
    let t = s.update(i, e);
    if i == s.len() - 1 {
        assert(t.drop_last() =~= s.drop_last());
        assert(t.last() == e);
        assert(map_of(t) == map_of(s.drop_last()).insert(entry_key(e), e.amount as int));
        assert(map_of(s.drop_last()).insert(entry_key(s.last()), s.last().amount as int).insert(
            entry_key(e),
            e.amount as int,
        ) =~= map_of(s.drop_last()).insert(entry_key(e), e.amount as int));
    } else {
        assert(t.drop_last() =~= s.drop_last().update(i, e));
        assert(t.last() == s.last());
        assert(unique_keys(s.drop_last())) by {
            assert(forall|x: int, y: int|
                0 <= x < y < s.drop_last().len() ==> entry_key(#[trigger] s.drop_last()[x]) != entry_key(
                    #[trigger] s.drop_last()[y],
                ));
        }
        lemma_map_of_update(s.drop_last(), i, e);
        assert(entry_key(e) != entry_key(s.last())) by {
            assert(entry_key(s[i]) != entry_key(s[s.len() - 1]));
        }
        assert(map_of(s.drop_last()).insert(entry_key(e), e.amount as int).insert(
            entry_key(s.last()),
            s.last().amount as int,
        ) =~= map_of(s.drop_last()).insert(entry_key(s.last()), s.last().amount as int).insert(
            entry_key(e),
            e.amount as int,
        ));
    }
}

/// Appending a row denotes inserting at its key.
proof fn lemma_map_of_push(s: Seq<BalanceEntry>, e: BalanceEntry)
    ensures
        map_of(s.push(e)) == map_of(s).insert(entry_key(e), e.amount as int),
{
    assert(s.push(e).drop_last() =~= s);
    assert(s.push(e).last() == e);
}

/// Overwriting one row moves an asset's total by the difference of amounts.
proof fn lemma_total_update(s: Seq<BalanceEntry>, i: int, e: BalanceEntry, a: Asset)
    requires
        0 <= i < s.len(),
    ensures
        asset_total(s.update(i, e), a) == asset_total(s, a) + (if e.asset == a {
            e.amount as int
        } else {
            0
        }) - (if s[i].asset == a {
            s[i].amount as int
        } else {
            0
        }),
    decreases s.len(),
{
    let t = s.update(i, e);
    if i == s.len() - 1 {
        assert(t.drop_last() =~= s.drop_last());
        assert(t.last() == e);
    } else {
        assert(t.drop_last() =~= s.drop_last().update(i, e));
        assert(t.last() == s.last());
        lemma_total_update(s.drop_last(), i, e, a);
    }
}

/// Appending a row adds its amount to its asset's total.
proof fn lemma_total_push(s: Seq<BalanceEntry>, e: BalanceEntry, a: Asset)
    ensures
        asset_total(s.push(e), a) == asset_total(s, a) + (if e.asset == a {
            e.amount as int
        } else {
            0
        }),
{
    assert(s.push(e).drop_last() =~= s);
    assert(s.push(e).last() == e);
}

/// The balance a new amount would have to stay representable: the stored
/// balance plus `amount`, if that does not exceed the range.
///
/// This is the one increase primitive; the ledger and the host-facing shell
/// both go through it, so an overflow is an explicit failure, never a wrap.
pub fn checked_increase(balance: i128, amount: i128) -> (r: Result<i128, Error>)
    requires
        balance >= 0,
        amount > 0,
    ensures
        r is Ok <==> balance + amount <= i128::MAX,
        r matches Ok(b) ==> b == balance + amount,
        r is Err ==> r == Err::<i128, Error>(Error::Overflow),
{
    if balance > i128::MAX - amount {
        Err(Error::Overflow)
    } else {
        Ok(balance + amount)
    }
}

/// The stored balance minus `amount`, or `InsufficientBalance` when the
/// stored balance is smaller than `amount`. The check precedes any write, so
/// a failing decrease leaves the ledger exactly as before.
pub fn checked_decrease(balance: i128, amount: i128) -> (r: Result<i128, Error>)
    requires
        amount > 0,
    ensures
        r is Ok <==> balance >= amount,
        r matches Ok(b) ==> b == balance - amount,
        r is Err ==> r == Err::<i128, Error>(Error::InsufficientBalance),
{
    if balance < amount {
        Err(Error::InsufficientBalance)
    } else {
        Ok(balance - amount)
    }
}

/// The balance ledger. It abstracts to a map from (principal, asset) to the
/// recorded amount; a pair that was never credited is absent and reads as 0.
pub struct BalanceLedger {
    entries: Vec<BalanceEntry>,
}

impl View for BalanceLedger {
    type V = Map<(u64, Asset), int>;

    closed spec fn view(&self) -> Map<(u64, Asset), int> {
        map_of(self.entries@)
    }
}

impl BalanceLedger {
    /// Well-formed: one row per key, and every amount non-negative.
    pub closed spec fn wf(&self) -> bool {
        unique_keys(self.entries@) && entries_nonneg(self.entries@)
    }

    /// The recorded total of one asset over all principals.
    pub closed spec fn total(&self, asset: Asset) -> int {
        asset_total(self.entries@, asset)
    }

    /// A well-formed ledger records no negative balance.
    pub proof fn lemma_wf_nonneg(&self)
        requires
            self.wf(),
        ensures
            forall|k: (u64, Asset)| #[trigger] self@.dom().contains(k) ==> self@[k] >= 0,
    {
        lemma_map_of_nonneg(self.entries@);
    }

    /// An empty ledger: every balance reads as 0.
    pub fn new() -> (r: BalanceLedger)
        ensures
            r.wf(),
            r@ == Map::<(u64, Asset), int>::empty(),
            forall|a: Asset| #[trigger] r.total(a) == 0,
    {
        BalanceLedger { entries: Vec::new() }
    }

    /// The index of the row for (user, asset), if one exists.
    fn find(&self, user: u64, asset: Asset) -> (r: Option<usize>)
        ensures
            match r {
                Some(i) => i < self.entries@.len() && entry_key(self.entries@[i as int]) == (
                    user,
                    asset,
                ),
                None => forall|i: int|
                    0 <= i < self.entries@.len() ==> entry_key(#[trigger] self.entries@[i]) != (
                        user,
                        asset,
                    ),
            },
    {
        let n = self.entries.len();
        let mut i: usize = 0;
        while i < n
            invariant
                i <= n,
                n == self.entries@.len(),
                forall|j: int|
                    0 <= j < i ==> entry_key(#[trigger] self.entries@[j]) != (user, asset),
            decreases n - i,
        {
            let e = self.entries[i];
            if e.principal == user && e.asset == asset {
                return Some(i);
            }
            i = i + 1;
        }
        None
    }

    /// The recorded balance, 0 if no row exists; side-effect-free.
    pub fn get_user_balance(&self, user: u64, asset: Asset) -> (r: i128)
        requires
            self.wf(),
        ensures
            r as int == bal(self@, user, asset),
    {
        proof {
            lemma_map_of_contains(self.entries@, (user, asset));
        }
        match self.find(user, asset) {
            Some(i) => {
                proof {
                    lemma_map_of_index(self.entries@, i as int);
                }
                self.entries[i].amount
            },
            None => 0,
        }
    }

    /// Add `amount` to the recorded balance: the `credit` of the model, or
    /// `Overflow` — and no change — when the sum would leave the range.
    pub fn increase_balance(&mut self, user: u64, asset: Asset, amount: i128) -> (r: Result<
        (),
        Error,
    >)
        requires
            old(self).wf(),
            amount > 0,
        ensures
            final(self).wf(),
            r is Ok <==> bal(old(self)@, user, asset) + amount <= i128::MAX,
            r is Ok ==> final(self)@ == credit(old(self)@, user, asset, amount as int),
            r is Err ==> r == Err::<(), Error>(Error::Overflow) && final(self)@ == old(self)@,
            forall|a: Asset|
                #[trigger] final(self).total(a) == old(self).total(a) + (if r is Ok && a == asset {
                    amount as int
                } else {
                    0
                }),
    {
        proof {
            lemma_map_of_contains(self.entries@, (user, asset));
        }
        match self.find(user, asset) {
            Some(i) => {
                proof {
                    lemma_map_of_index(self.entries@, i as int);
                }
                let cur = self.entries[i].amount;
                match checked_increase(cur, amount) {
                    Ok(b) => {
                        let e = BalanceEntry { principal: user, asset, amount: b };
                        proof {
                            lemma_map_of_update(self.entries@, i as int, e);
                            assert forall|a: Asset|
                                asset_total(self.entries@.update(i as int, e), a) == asset_total(
                                    self.entries@,
                                    a,
                                ) + (if a == asset {
                                    amount as int
                                } else {
                                    0
                                }) by {
                                lemma_total_update(self.entries@, i as int, e, a);
                            }
                            assert(forall|x: int, y: int|
                                0 <= x < y < self.entries@.update(i as int, e).len()
                                    ==> entry_key(#[trigger] self.entries@.update(i as int, e)[x])
                                    != entry_key(
                                    #[trigger] self.entries@.update(i as int, e)[y],
                                ));
                        }
                        self.entries.set(i, e);
                        Ok(())
                    },
                    Err(e) => Err(e),
                }
            },
            None => {
                // No row: the balance reads as 0, so the sum is `amount`,
                // which always fits; create the row.
                let e = BalanceEntry { principal: user, asset, amount };
                proof {
                    lemma_map_of_push(self.entries@, e);
                    assert forall|a: Asset|
                        asset_total(self.entries@.push(e), a) == asset_total(self.entries@, a) + (
                        if a == asset {
                            amount as int
                        } else {
                            0
                        }) by {
                        lemma_total_push(self.entries@, e, a);
                    }
                    assert(forall|x: int, y: int|
                        0 <= x < y < self.entries@.push(e).len() ==> entry_key(
                            #[trigger] self.entries@.push(e)[x],
                        ) != entry_key(#[trigger] self.entries@.push(e)[y]));
                }
                self.entries.push(e);
                Ok(())
            },
        }
    }

    /// Subtract `amount` from the recorded balance: the `debit` of the model,
    /// or `InsufficientBalance` — and no change — when the balance is short.
    pub fn decrease_balance(&mut self, user: u64, asset: Asset, amount: i128) -> (r: Result<
        (),
        Error,
    >)
        requires
            old(self).wf(),
            amount > 0,
        ensures
            final(self).wf(),
            r is Ok <==> bal(old(self)@, user, asset) >= amount,
            r is Ok ==> final(self)@ == debit(old(self)@, user, asset, amount as int),
            r is Err ==> r == Err::<(), Error>(Error::InsufficientBalance) && final(self)@ == old(
                self,
            )@,
            forall|a: Asset|
                #[trigger] final(self).total(a) == old(self).total(a) - (if r is Ok && a == asset {
                    amount as int
                } else {
                    0
                }),
    {
        proof {
            lemma_map_of_contains(self.entries@, (user, asset));
        }
        match self.find(user, asset) {
            Some(i) => {
                proof {
                    lemma_map_of_index(self.entries@, i as int);
                }
                let cur = self.entries[i].amount;
                match checked_decrease(cur, amount) {
                    Ok(b) => {
                        let e = BalanceEntry { principal: user, asset, amount: b };
                        proof {
                            lemma_map_of_update(self.entries@, i as int, e);
                            assert forall|a: Asset|
                                asset_total(self.entries@.update(i as int, e), a) == asset_total(
                                    self.entries@,
                                    a,
                                ) - (if a == asset {
                                    amount as int
                                } else {
                                    0
                                }) by {
                                lemma_total_update(self.entries@, i as int, e, a);
                            }
                            assert(forall|x: int, y: int|
                                0 <= x < y < self.entries@.update(i as int, e).len()
                                    ==> entry_key(#[trigger] self.entries@.update(i as int, e)[x])
                                    != entry_key(
                                    #[trigger] self.entries@.update(i as int, e)[y],
                                ));
                        }
                        self.entries.set(i, e);
                        Ok(())
                    },
                    Err(e) => Err(e),
                }
            },
            None => {
                // No row: the balance reads as 0, below any positive amount.
                Err(Error::InsufficientBalance)
            },
        }
    }

    /// An independent copy, for composing several mutations into one
    /// all-or-nothing unit: the caller mutates the copy and commits it only
    /// when every leg has succeeded.
    pub fn snapshot(&self) -> (r: BalanceLedger)
        ensures
            r@ == self@,
            r.wf() <==> self.wf(),
            forall|a: Asset| #[trigger] r.total(a) == self.total(a),
    {
        let n = self.entries.len();
        let mut out: Vec<BalanceEntry> = Vec::new();
        let mut i: usize = 0;
        while i < n
            invariant
                i <= n,
                n == self.entries@.len(),
                out@ == self.entries@.subrange(0, i as int),
            decreases n - i,
        {
            out.push(self.entries[i]);
            i = i + 1;
        }
        proof {
            assert(out@ =~= self.entries@);
        }
        BalanceLedger { entries: out }
    }
}

} // verus!
