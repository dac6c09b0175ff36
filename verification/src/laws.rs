//! The library-wide laws: properties that relate several operations, stated
//! over the same transition relations the operations' own contracts use.

use vstd::prelude::*;
use crate::subscription::{Address, Subscription, SubscriptionStatus};
use crate::vault::SubscriptionVault;

verus! {

/// Id monotonicity: a creation performed after another, with any operations
/// between that do not move the allocator backwards (none does), returns a
/// strictly larger id.
pub proof fn law_id_monotonicity(
    s0: SubscriptionVault,
    s1: SubscriptionVault,
    s2: SubscriptionVault,
    s3: SubscriptionVault,
    subscriber1: Address,
    merchant1: Address,
    amount1: i128,
    interval1: u64,
    usage1: bool,
    now1: u64,
    id1: u32,
    subscriber2: Address,
    merchant2: Address,
    amount2: i128,
    interval2: u64,
    usage2: bool,
    now2: u64,
    id2: u32,
)
    requires
        SubscriptionVault::created(
            s0,
            s1,
            subscriber1,
            merchant1,
            amount1,
            interval1,
            usage1,
            now1,
            id1,
        ),
        s1.next_id <= s2.next_id,
        SubscriptionVault::created(
            s2,
            s3,
            subscriber2,
            merchant2,
            amount2,
            interval2,
            usage2,
            now2,
            id2,
        ),
    ensures
        id2 > id1,
{
}

/// Id allocation starts at 0: the first creation on a ledger whose allocator
/// has never moved returns id 0.
pub proof fn law_first_id_is_zero(
    s0: SubscriptionVault,
    s1: SubscriptionVault,
    subscriber: Address,
    merchant: Address,
    amount: i128,
    interval: u64,
    usage: bool,
    now: u64,
    id: u32,
)
    requires
        s0.next_id == 0,
        SubscriptionVault::created(s0, s1, subscriber, merchant, amount, interval, usage, now, id),
    ensures
        id == 0,
{
}

/// Index completeness: in any well-formed ledger a subscriber's list holds
/// exactly the ids of the records owned by that subscriber, strictly
/// ascending. Together with the pagination contract, a full read from offset
/// 0 with the all-remaining sentinel returns one entry per owned record, in
/// ascending id order, each matching the stored record.
pub proof fn law_index_completeness(s: SubscriptionVault, subscriber: Address)
    requires
        s.wf(),
    ensures
        forall|j: int|
            0 <= j < s.index.ids_of(subscriber).len() ==> (#[trigger] s.index.ids_of(subscriber)[
                j]) < s.next_id && s.subscriptions@[s.index.ids_of(subscriber)[j]
                as int].subscriber == subscriber,
        forall|j: int, k: int|
            0 <= j < k < s.index.ids_of(subscriber).len() ==> #[trigger] s.index.ids_of(
                subscriber,
            )[j] < #[trigger] s.index.ids_of(subscriber)[k],
        forall|i: int|
            0 <= i < s.subscriptions@.len() && (#[trigger] s.subscriptions@[i]).subscriber
                == subscriber ==> s.index.ids_of(subscriber).contains(i as u32),
{
}

/// Index isolation: an id listed for one subscriber names a record owned by
/// that subscriber, so a record created for a different party can never
/// surface in this subscriber's page.
pub proof fn law_index_isolation(
    s: SubscriptionVault,
    owner: Address,
    other: Address,
    j: int,
)
    requires
        s.wf(),
        owner != other,
        0 <= j < s.index.ids_of(other).len(),
    ensures
        s.subscriptions@[s.index.ids_of(other)[j] as int].subscriber != owner,
{
}

/// Interval boundary: with the window anchored at `last_payment_timestamp`
/// and an interval of at least one second, the charge is not yet due one
/// second before the boundary and is due exactly on it.
pub proof fn law_interval_boundary(sub: Subscription)
    requires
        sub.schedule_in_domain(),
        sub.interval_seconds >= 1,
    ensures
        !sub.charge_due((sub.last_payment_timestamp + sub.interval_seconds - 1) as u64),
        sub.charge_due((sub.last_payment_timestamp + sub.interval_seconds) as u64),
{
}

/// Repeat-charge rejection: a successful interval charge re-anchors the
/// window at `now`, so for any interval of at least one second the due test is
/// not satisfied at that same timestamp again — a record still `Active`
/// after the charge has an immediate retry rejected with
/// `IntervalNotElapsed` and the state left unchanged, by the charge
/// contract.
pub proof fn law_repeat_charge_rejected(
    pre: SubscriptionVault,
    post: SubscriptionVault,
    id: u32,
    now: u64,
)
    requires
        pre.wf(),
        id < pre.next_id,
        pre.subscriptions@[id as int].interval_seconds >= 1,
        SubscriptionVault::record_updated(
            pre,
            post,
            id,
            SubscriptionVault::interval_charged_record(pre.subscriptions@[id as int], now),
        ),
    ensures
        !post.subscriptions@[id as int].charge_due(now),
{
    assert(post.subscriptions@[id as int] == SubscriptionVault::interval_charged_record(
        pre.subscriptions@[id as int],
        now,
    ));
}

/// Usage debit correctness: a permitted usage debit of `k` against balance
/// `B` yields balance `B - k`, leaves the billing schedule untouched, and
/// moves the record to `InsufficientBalance` exactly when the debit empties
/// the balance, keeping it `Active` otherwise.
pub proof fn law_usage_debit(sub: Subscription, k: i128)
    requires
        sub.wf(),
        sub.status == SubscriptionStatus::Active,
        0 < k <= sub.prepaid_balance,
    ensures
        SubscriptionVault::usage_charged_record(sub, k).prepaid_balance == sub.prepaid_balance
            - k,
        SubscriptionVault::usage_charged_record(sub, k).status
            == SubscriptionStatus::InsufficientBalance <==> sub.prepaid_balance == k,
        sub.prepaid_balance > k ==> SubscriptionVault::usage_charged_record(sub, k).status
            == SubscriptionStatus::Active,
        SubscriptionVault::usage_charged_record(sub, k).last_payment_timestamp
            == sub.last_payment_timestamp,
        SubscriptionVault::usage_charged_record(sub, k).interval_seconds == sub.interval_seconds,
        SubscriptionVault::usage_charged_record(sub, k).wf(),
{
}

/// Cursor-loop completeness: advancing a cursor by the returned page length
/// visits the whole list. Every page below the end is non-empty, a page
/// window never extends past the list, consecutive windows abut, and a
/// cursor at or past the end yields the empty window — so the loop in the
/// pagination doc comment collects each id exactly once, in order.
pub proof fn law_cursor_loop(
    s: SubscriptionVault,
    subscriber: Address,
    cursor: u32,
    page_size: u32,
)
    requires
        s.wf(),
        page_size >= 1,
    ensures
        ({
            let total = s.index.ids_of(subscriber).len() as int;
            let lo = s.page_start(subscriber, cursor);
            let hi = s.page_end(subscriber, cursor, page_size);
            &&& (cursor as int) <= total ==> lo == cursor as int
            &&& cursor as int + page_size as int <= total ==> hi - lo == page_size as int
            &&& (cursor as int) <= total <= cursor as int + page_size as int ==> hi == total
            &&& (cursor as int) < total ==> hi > lo
            &&& (cursor as int) >= total ==> hi == lo == total
        }),
{
}

} // verus!
