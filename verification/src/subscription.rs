//! The subscription record: the core entity of the ledger.

use vstd::prelude::*;

verus! {

/// An opaque party identifier (a subscriber, merchant, administrator or
/// token). The ledger only compares addresses for equality and uses them as
/// index keys; the surrounding application maps its own identity scheme onto
/// these plain values.
#[derive(Clone, Copy, Debug, PartialEq, Eq, Structural, Hash)]
pub struct Address(pub u64);

/// The lifecycle status of a subscription record.
///
/// `Active` accepts charges. Every other status is terminal with respect to
/// charging: no interval or usage debit is accepted until the surrounding
/// system applies an explicit reactivation, which is outside this core.
#[derive(Clone, Copy, Debug, PartialEq, Eq, Structural)]
pub enum SubscriptionStatus {
    /// The record accepts interval and usage charges.
    Active,
    /// Charging is suspended by an explicit pause.
    Paused,
    /// The agreement has ended; only balance withdrawal remains meaningful.
    Cancelled,
    /// A debit reduced the prepaid balance to exactly zero.
    InsufficientBalance,
}

/// A billing agreement between a subscriber and a merchant.
#[derive(Clone, Copy, Debug, PartialEq, Eq, Structural)]
pub struct Subscription {
    /// Owner of the agreement; immutable after creation.
    pub subscriber: Address,
    /// Payee of the agreement.
    pub merchant: Address,
    /// The fixed per-interval charge; non-negative for every stored record.
    pub amount: i128,
    /// Seconds between allowed interval charges. Zero means the due test is
    /// always satisfied: the record may be charged as often as invoked.
    pub interval_seconds: u64,
    /// Timestamp of the last successful interval charge, initialized to the
    /// creation time.
    pub last_payment_timestamp: u64,
    /// Current lifecycle status.
    pub status: SubscriptionStatus,
    /// Funds available to cover interval and usage charges; never negative.
    pub prepaid_balance: i128,
    /// Whether usage-based debits are permitted on this record.
    pub usage_enabled: bool,
}

impl Subscription {
    /// The record invariant: the prepaid balance is never negative, and the
    /// per-interval charge is non-negative (enforced at creation).
    pub open spec fn wf(self) -> bool {
        &&& self.prepaid_balance >= 0
        &&& self.amount >= 0
    }

    /// The interval due test: a charge at `now` is due once a full interval has
    /// elapsed since the last successful charge. The comparison is `>=`, so a
    /// charge landing exactly on the boundary succeeds: the schedule is a
    /// sliding window anchored at the last successful charge.
    pub open spec fn charge_due(self, now: u64) -> bool {
        now >= self.last_payment_timestamp + self.interval_seconds
    }

    /// The due-test computation stays inside the timestamp domain. An interval
    /// configuration that pushes `last_payment_timestamp + interval_seconds`
    /// past the domain is a fatal misconfiguration the caller must exclude.
    pub open spec fn schedule_in_domain(self) -> bool {
        self.last_payment_timestamp + self.interval_seconds <= u64::MAX
    }
}

/// A subscription record paired with its id, as returned by pagination so
/// callers know the id without a separate lookup.
#[derive(Clone, Copy, Debug, PartialEq, Eq, Structural)]
pub struct SubscriptionEntry {
    /// Unique, auto-assigned subscription id (starts at 0, increments by 1).
    pub id: u32,
    /// The full subscription record.
    pub subscription: Subscription,
}

} // verus!
