use subscription_vault::error::Error;
use subscription_vault::subscription::{Address, SubscriptionStatus};
use subscription_vault::vault::SubscriptionVault;

fn addr(n: u64) -> Address {
    Address(n)
}

fn setup() -> SubscriptionVault {
    let mut vault = SubscriptionVault::new();
    vault.init(addr(1000), addr(1001)).unwrap();
    vault
}

/// Ids are assigned 0, 1, 2, ... strictly increasing across subscribers.
#[test]
fn test_ids_strictly_increase_from_zero() {
    let mut vault = setup();
    let merchant = addr(50);
    let mut previous: Option<u32> = None;
    for n in 0..6u64 {
        let id = vault
            .create_subscription(addr(n % 3), merchant, 1_000_000, 86_400, false, 0)
            .unwrap();
        match previous {
            None => assert_eq!(id, 0),
            Some(p) => assert!(id > p),
        }
        previous = Some(id);
    }
    assert_eq!(previous, Some(5));
}

/// A negative per-interval charge is rejected at creation and allocates no id.
#[test]
fn test_create_rejects_negative_amount() {
    let mut vault = setup();
    let r = vault.create_subscription(addr(1), addr(2), -1, 86_400, false, 0);
    assert_eq!(r, Err(Error::InvalidAmount));
    let id = vault.create_subscription(addr(1), addr(2), 0, 86_400, false, 0).unwrap();
    assert_eq!(id, 0, "a rejected creation must not consume an id");
}

/// The interval threshold: one second before the boundary fails with
/// `IntervalNotElapsed` and leaves the record unchanged; exactly on the
/// boundary it succeeds and re-anchors the window.
#[test]
fn test_charge_interval_boundary() {
    let mut vault = setup();
    let subscriber = addr(1);
    let id = vault.create_subscription(subscriber, addr(2), 5, 60, false, 1_000).unwrap();
    vault.deposit_funds(id, subscriber, 50).unwrap();

    let early = vault.charge_subscription(id, 1_059);
    assert_eq!(early, Err(Error::IntervalNotElapsed));
    let record = vault.get_subscription(id).unwrap();
    assert_eq!(record.last_payment_timestamp, 1_000, "a rejected charge must not move the anchor");
    assert_eq!(record.prepaid_balance, 50, "a rejected charge must not debit");

    vault.charge_subscription(id, 1_060).unwrap();
    let record = vault.get_subscription(id).unwrap();
    assert_eq!(record.last_payment_timestamp, 1_060);
    assert_eq!(record.prepaid_balance, 45);
    assert_eq!(record.status, SubscriptionStatus::Active);
}

/// Immediately retrying a successful interval charge at the same timestamp
/// fails with `IntervalNotElapsed`.
#[test]
fn test_charge_interval_repeat_rejected() {
    let mut vault = setup();
    let subscriber = addr(1);
    let id = vault.create_subscription(subscriber, addr(2), 5, 60, false, 1_000).unwrap();
    vault.deposit_funds(id, subscriber, 50).unwrap();

    vault.charge_subscription(id, 1_100).unwrap();
    let retry = vault.charge_subscription(id, 1_100);
    assert_eq!(retry, Err(Error::IntervalNotElapsed));
    let record = vault.get_subscription(id).unwrap();
    assert_eq!(record.prepaid_balance, 45, "the retry must not debit a second time");
}

/// An interval debit that empties the balance exactly moves the record to
/// `InsufficientBalance`; one that exceeds the balance is rejected.
#[test]
fn test_charge_interval_balance_rules() {
    let mut vault = setup();
    let subscriber = addr(1);
    let id = vault.create_subscription(subscriber, addr(2), 30, 60, false, 0).unwrap();
    vault.deposit_funds(id, subscriber, 30).unwrap();

    vault.charge_subscription(id, 60).unwrap();
    let record = vault.get_subscription(id).unwrap();
    assert_eq!(record.prepaid_balance, 0);
    assert_eq!(record.status, SubscriptionStatus::InsufficientBalance);

    // No longer Active: a further charge is rejected before any other check.
    let again = vault.charge_subscription(id, 1_000);
    assert_eq!(again, Err(Error::NotActive));
}

/// An interval charge whose balance cannot cover the amount is rejected with
/// `InsufficientPrepaidBalance` and changes nothing.
#[test]
fn test_charge_interval_insufficient_balance() {
    let mut vault = setup();
    let subscriber = addr(1);
    let id = vault.create_subscription(subscriber, addr(2), 100, 60, false, 0).unwrap();
    vault.deposit_funds(id, subscriber, 99).unwrap();

    let r = vault.charge_subscription(id, 60);
    assert_eq!(r, Err(Error::InsufficientPrepaidBalance));
    let record = vault.get_subscription(id).unwrap();
    assert_eq!(record.prepaid_balance, 99);
    assert_eq!(record.status, SubscriptionStatus::Active);
    assert_eq!(record.last_payment_timestamp, 0);
}

/// A zero-length interval means the due test is always satisfied: charge as
/// often as invoked, even twice at the same timestamp.
#[test]
fn test_charge_interval_zero_interval() {
    let mut vault = setup();
    let subscriber = addr(1);
    let id = vault.create_subscription(subscriber, addr(2), 1, 0, false, 5).unwrap();
    vault.deposit_funds(id, subscriber, 10).unwrap();

    vault.charge_subscription(id, 5).unwrap();
    vault.charge_subscription(id, 5).unwrap();
    let record = vault.get_subscription(id).unwrap();
    assert_eq!(record.prepaid_balance, 8);
}

/// Charging an unknown id fails with `NotFound`.
#[test]
fn test_charge_interval_not_found() {
    let mut vault = setup();
    let r = vault.charge_subscription(3, 100);
    assert_eq!(r, Err(Error::NotFound));
}

/// A usage debit of k against balance B yields B - k and keeps the record
/// `Active` while the balance stays positive; the billing schedule is
/// untouched.
#[test]
fn test_charge_usage_debits_balance() {
    let mut vault = setup();
    let subscriber = addr(1);
    let id = vault.create_subscription(subscriber, addr(2), 5, 3_600, true, 77).unwrap();
    vault.deposit_funds(id, subscriber, 100).unwrap();

    vault.charge_usage(id, 40, 200).unwrap();
    let record = vault.get_subscription(id).unwrap();
    assert_eq!(record.prepaid_balance, 60);
    assert_eq!(record.status, SubscriptionStatus::Active);
    assert_eq!(record.last_payment_timestamp, 77, "usage debits never touch the schedule");
}

/// A usage debit that empties the balance exactly moves the record to
/// `InsufficientBalance`.
#[test]
fn test_charge_usage_empties_balance() {
    let mut vault = setup();
    let subscriber = addr(1);
    let id = vault.create_subscription(subscriber, addr(2), 5, 3_600, true, 0).unwrap();
    vault.deposit_funds(id, subscriber, 25).unwrap();

    vault.charge_usage(id, 25, 0).unwrap();
    let record = vault.get_subscription(id).unwrap();
    assert_eq!(record.prepaid_balance, 0);
    assert_eq!(record.status, SubscriptionStatus::InsufficientBalance);
}

/// The usage guards, each leaving the balance unchanged: `UsageNotEnabled`
/// when disabled, `InvalidAmount` for a non-positive amount,
/// `InsufficientPrepaidBalance` when the debit exceeds the balance, and
/// `NotFound` for an unknown id.
#[test]
fn test_charge_usage_guard_conditions() {
    let mut vault = setup();
    let subscriber = addr(1);

    let disabled = vault.create_subscription(subscriber, addr(2), 5, 3_600, false, 0).unwrap();
    vault.deposit_funds(disabled, subscriber, 10).unwrap();
    assert_eq!(vault.charge_usage(disabled, 5, 0), Err(Error::UsageNotEnabled));
    assert_eq!(vault.get_subscription(disabled).unwrap().prepaid_balance, 10);

    let enabled = vault.create_subscription(subscriber, addr(2), 5, 3_600, true, 0).unwrap();
    vault.deposit_funds(enabled, subscriber, 10).unwrap();
    assert_eq!(vault.charge_usage(enabled, 0, 0), Err(Error::InvalidAmount));
    assert_eq!(vault.charge_usage(enabled, -3, 0), Err(Error::InvalidAmount));
    assert_eq!(vault.charge_usage(enabled, 11, 0), Err(Error::InsufficientPrepaidBalance));
    assert_eq!(vault.get_subscription(enabled).unwrap().prepaid_balance, 10);

    assert_eq!(vault.charge_usage(999, 5, 0), Err(Error::NotFound));
}

/// Deposits grow the balance; a non-positive deposit is rejected with
/// `InvalidAmount` and an unknown id with `NotFound`.
#[test]
fn test_deposit_funds_rules() {
    let mut vault = setup();
    let subscriber = addr(1);
    let id = vault.create_subscription(subscriber, addr(2), 5, 3_600, false, 0).unwrap();

    vault.deposit_funds(id, subscriber, 40).unwrap();
    vault.deposit_funds(id, subscriber, 2).unwrap();
    assert_eq!(vault.get_subscription(id).unwrap().prepaid_balance, 42);

    assert_eq!(vault.deposit_funds(id, subscriber, 0), Err(Error::InvalidAmount));
    assert_eq!(vault.deposit_funds(id, subscriber, -5), Err(Error::InvalidAmount));
    assert_eq!(vault.deposit_funds(7, subscriber, 5), Err(Error::NotFound));
    assert_eq!(vault.get_subscription(id).unwrap().prepaid_balance, 42);
}

/// Cancelling moves the record to `Cancelled` and blocks further charges;
/// an unknown id fails with `NotFound`.
#[test]
fn test_cancel_subscription() {
    let mut vault = setup();
    let subscriber = addr(1);
    let id = vault.create_subscription(subscriber, addr(2), 5, 60, true, 0).unwrap();
    vault.deposit_funds(id, subscriber, 50).unwrap();

    vault.cancel_subscription(id, subscriber).unwrap();
    let record = vault.get_subscription(id).unwrap();
    assert_eq!(record.status, SubscriptionStatus::Cancelled);
    assert_eq!(record.prepaid_balance, 50, "cancelling must not touch the balance");

    assert_eq!(vault.charge_subscription(id, 1_000), Err(Error::NotActive));
    assert_eq!(vault.charge_usage(id, 5, 1_000), Err(Error::NotActive));
    assert_eq!(vault.cancel_subscription(9, subscriber), Err(Error::NotFound));
}

/// Pausing moves the record to `Paused` and blocks further charges; an
/// unknown id fails with `NotFound`.
#[test]
fn test_pause_subscription() {
    let mut vault = setup();
    let subscriber = addr(1);
    let id = vault.create_subscription(subscriber, addr(2), 5, 60, true, 0).unwrap();
    vault.deposit_funds(id, subscriber, 50).unwrap();

    vault.pause_subscription(id, subscriber).unwrap();
    let record = vault.get_subscription(id).unwrap();
    assert_eq!(record.status, SubscriptionStatus::Paused);

    assert_eq!(vault.charge_subscription(id, 1_000), Err(Error::NotActive));
    assert_eq!(vault.charge_usage(id, 5, 1_000), Err(Error::NotActive));
    assert_eq!(vault.pause_subscription(9, subscriber), Err(Error::NotFound));
}

/// Merchant withdrawal is wholly delegated to the payment rail: the core
/// acknowledges and keeps no per-merchant ledger.
#[test]
fn test_withdraw_merchant_funds_acknowledges() {
    let vault = setup();
    assert_eq!(vault.withdraw_merchant_funds(addr(5), 1_000), Ok(()));
}

/// `get_subscription` returns the record exactly as stored.
#[test]
fn test_get_subscription_returns_record() {
    let mut vault = setup();
    let subscriber = addr(1);
    let merchant = addr(2);
    let id = vault.create_subscription(subscriber, merchant, 123, 456, true, 789).unwrap();

    let record = vault.get_subscription(id).unwrap();
    assert_eq!(record.subscriber, subscriber);
    assert_eq!(record.merchant, merchant);
    assert_eq!(record.amount, 123);
    assert_eq!(record.interval_seconds, 456);
    assert_eq!(record.last_payment_timestamp, 789);
    assert_eq!(record.status, SubscriptionStatus::Active);
    assert_eq!(record.prepaid_balance, 0);
    assert_eq!(record.usage_enabled, true);
}
