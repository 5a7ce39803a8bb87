use orderbook::{
    checked_decrease, checked_increase, nonce_matches, require_auth, Asset, Error,
    OrderBookContract,
};

const ADMIN: u64 = 1;
const ALICE: u64 = 100;
const BOB: u64 = 101;

fn venue() -> OrderBookContract {
    OrderBookContract::new(ADMIN, 10, 11)
}

#[test]
fn deposit_records_the_amount() {
    let mut c = venue();
    c.deposit(ALICE, ALICE, Asset::A, 100).unwrap();
    assert_eq!(c.get_balance(ALICE, Asset::A), 100);
    assert_eq!(c.get_nonce(), 0);
}

#[test]
fn withdraw_then_replay_is_rejected() {
    let mut c = venue();
    c.deposit(ALICE, ALICE, Asset::A, 100).unwrap();

    let ev = c.withdraw(ADMIN, 0, ALICE, Asset::A, 40).unwrap();
    assert_eq!(c.get_balance(ALICE, Asset::A), 60);
    assert_eq!(c.get_nonce(), 1);
    assert_eq!((ev.nonce, ev.user, ev.asset, ev.amount), (0, ALICE, Asset::A, 40));

    // Submitting the same instruction again carries the consumed nonce
    assert_eq!(
        c.withdraw(ADMIN, 0, ALICE, Asset::A, 40),
        Err(Error::NonceMismatch)
    );
    assert_eq!(c.get_balance(ALICE, Asset::A), 60);
    assert_eq!(c.get_nonce(), 1);
}

#[test]
fn settle_redistributes_between_the_parties() {
    let mut c = venue();
    c.deposit(ALICE, ALICE, Asset::A, 100).unwrap();
    c.deposit(BOB, BOB, Asset::B, 1000).unwrap();

    let ev = c.settle(ADMIN, 0, BOB, ALICE, Asset::A, 30, Asset::B, 300).unwrap();
    assert_eq!(c.get_balance(ALICE, Asset::A), 70);
    assert_eq!(c.get_balance(ALICE, Asset::B), 300);
    assert_eq!(c.get_balance(BOB, Asset::A), 30);
    assert_eq!(c.get_balance(BOB, Asset::B), 700);
    assert_eq!(c.get_nonce(), 1);
    assert_eq!(ev.buyer, BOB);
    assert_eq!(ev.seller, ALICE);

    // Per-asset totals are only redistributed, never changed
    assert_eq!(
        c.get_balance(ALICE, Asset::A) + c.get_balance(BOB, Asset::A),
        100
    );
    assert_eq!(
        c.get_balance(ALICE, Asset::B) + c.get_balance(BOB, Asset::B),
        1000
    );
}

#[test]
fn settle_zero_amount_is_rejected_without_effect() {
    let mut c = venue();
    c.deposit(ALICE, ALICE, Asset::A, 100).unwrap();
    c.deposit(BOB, BOB, Asset::B, 1000).unwrap();

    assert_eq!(
        c.settle(ADMIN, 0, BOB, ALICE, Asset::A, 0, Asset::B, 300),
        Err(Error::InvalidAmount)
    );
    assert_eq!(c.get_balance(ALICE, Asset::A), 100);
    assert_eq!(c.get_balance(ALICE, Asset::B), 0);
    assert_eq!(c.get_balance(BOB, Asset::A), 0);
    assert_eq!(c.get_balance(BOB, Asset::B), 1000);
    assert_eq!(c.get_nonce(), 0);

    // A negative bought amount is the same failure
    assert_eq!(
        c.settle(ADMIN, 0, BOB, ALICE, Asset::A, 30, Asset::B, -300),
        Err(Error::InvalidAmount)
    );
    assert_eq!(c.get_nonce(), 0);
}

#[test]
fn negative_deposit_is_rejected_without_effect() {
    let mut c = venue();
    assert_eq!(
        c.deposit(ALICE, ALICE, Asset::A, -5),
        Err(Error::InvalidAmount)
    );
    assert_eq!(c.get_balance(ALICE, Asset::A), 0);
    assert_eq!(c.get_nonce(), 0);
}

#[test]
fn deposit_overflow_is_rejected_without_effect() {
    let mut c = venue();
    c.deposit(ALICE, ALICE, Asset::A, i128::MAX).unwrap();
    assert_eq!(c.get_balance(ALICE, Asset::A), i128::MAX);

    assert_eq!(
        c.deposit(ALICE, ALICE, Asset::A, 1),
        Err(Error::Overflow)
    );
    assert_eq!(c.get_balance(ALICE, Asset::A), i128::MAX);
}

#[test]
fn settle_leg_order_lets_proceeds_cover_a_later_leg() {
    // A self-trade: the one party's credit from the second leg covers the
    // debit of the fourth, so the settlement succeeds although the party
    // never held the bought asset.
    let mut c = venue();
    c.deposit(ALICE, ALICE, Asset::A, 30).unwrap();
    assert_eq!(c.get_balance(ALICE, Asset::B), 0);

    c.settle(ADMIN, 0, ALICE, ALICE, Asset::A, 30, Asset::B, 300).unwrap();
    assert_eq!(c.get_balance(ALICE, Asset::A), 30);
    assert_eq!(c.get_balance(ALICE, Asset::B), 0);
    assert_eq!(c.get_nonce(), 1);
}

#[test]
fn settle_same_asset_both_ways() {
    // Degenerate trade where both legs name the same asset: the amounts just
    // move back and forth, and the checks still run in leg order.
    let mut c = venue();
    c.deposit(ALICE, ALICE, Asset::A, 50).unwrap();
    c.deposit(BOB, BOB, Asset::A, 20).unwrap();

    c.settle(ADMIN, 0, BOB, ALICE, Asset::A, 50, Asset::A, 20).unwrap();
    assert_eq!(c.get_balance(ALICE, Asset::A), 20);
    assert_eq!(c.get_balance(BOB, Asset::A), 50);
}

#[test]
fn nonce_counts_only_successful_admin_operations() {
    let mut c = venue();
    c.deposit(ALICE, ALICE, Asset::A, 100).unwrap();
    assert_eq!(c.get_nonce(), 0); // deposits are not sequenced

    assert!(c.withdraw(ADMIN, 0, ALICE, Asset::A, 200).is_err());
    assert_eq!(c.get_nonce(), 0); // failed calls do not advance it

    c.withdraw(ADMIN, 0, ALICE, Asset::A, 10).unwrap();
    assert_eq!(c.get_nonce(), 1);
    c.settle(ADMIN, 1, ALICE, ALICE, Asset::A, 10, Asset::A, 10).unwrap();
    assert_eq!(c.get_nonce(), 2);
}

#[test]
fn balance_primitives_check_range_and_funds() {
    assert_eq!(checked_increase(40, 2), Ok(42));
    assert_eq!(checked_increase(i128::MAX - 1, 2), Err(Error::Overflow));
    assert_eq!(checked_decrease(40, 2), Ok(38));
    assert_eq!(checked_decrease(1, 2), Err(Error::InsufficientBalance));
}

#[test]
fn gate_primitives_match_exactly() {
    assert_eq!(require_auth(ADMIN, ADMIN), Ok(()));
    assert_eq!(require_auth(ALICE, ADMIN), Err(Error::AuthorizationFailure));
    assert_eq!(nonce_matches(7, 7), Ok(()));
    assert_eq!(nonce_matches(7, 8), Err(Error::NonceMismatch));
}
