//! The error taxonomy shared by every ledger operation.

use vstd::prelude::*;

verus! {

/// Why an operation was rejected. A rejected operation never changes state:
/// every mutating method of the vault aborts all-or-nothing.
#[derive(Clone, Copy, Debug, PartialEq, Eq, Structural)]
pub enum Error {
    /// No subscription record exists under the given id.
    NotFound,
    /// The caller does not control the address it acted for. The core assumes
    /// authentication has already happened; this variant is the channel
    /// through which the surrounding application surfaces its own check.
    Unauthorized,
    /// The interval threshold `now >= last_payment_timestamp + interval_seconds`
    /// is not yet satisfied.
    IntervalNotElapsed,
    /// A charge was attempted on a record whose status is not `Active`.
    NotActive,
    /// A usage debit was attempted on a record with `usage_enabled == false`.
    UsageNotEnabled,
    /// A debit would exceed the prepaid balance.
    InsufficientPrepaidBalance,
    /// A non-positive amount was supplied where a positive one is required,
    /// or a negative per-interval charge was supplied at creation.
    InvalidAmount,
}

} // verus!
