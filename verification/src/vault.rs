//! The subscription vault: identity allocation, the record state machine,
//! and the cursor-based pagination query.
//!
//! Every mutating operation validates its preconditions in a fixed order and
//! aborts all-or-nothing: the first failed check returns its error and the
//! state is exactly what it was. Authentication, value transfer and durable
//! storage are collaborators of the surrounding application; the vault holds
//! the authoritative in-memory model of the ledger between invocations.

use vstd::prelude::*;
use crate::error::Error;
use crate::index::SubscriberIndex;
use crate::subscription::{Address, Subscription, SubscriptionEntry, SubscriptionStatus};

verus! {

/// The whole ledger state: configuration, the identity allocator, the dense
/// record table, and the per-subscriber index.
///
/// Records are stored at the position equal to their id: ids are assigned
/// `0, 1, 2, ...` with no gaps and no record is ever deleted, so the table
/// stays dense forever.
#[derive(Debug)]
pub struct SubscriptionVault {
    /// The billing token address, set by `init`.
    pub token: Option<Address>,
    /// The administrator address, set by `init`.
    pub admin: Option<Address>,
    /// The identity allocator: the id the next creation will receive.
    pub next_id: u32,
    /// All subscription records; the record with id `i` sits at position `i`.
    pub subscriptions: Vec<Subscription>,
    /// The append-only per-subscriber index over `subscriptions`.
    pub index: SubscriberIndex,
}

impl SubscriptionVault {
    /// Well-formedness of the whole ledger. It ties the allocator to the
    /// record table and the index to both:
    /// - a record exists exactly for each id below `next_id`;
    /// - every record keeps its own invariant (non-negative balance and
    ///   non-negative per-interval charge);
    /// - no subscriber owns two index entries;
    /// - every indexed id is a real record owned by that subscriber;
    /// - each subscriber's list is strictly ascending;
    /// - every record is indexed under its own subscriber.
    pub open spec fn wf(self) -> bool {
        &&& self.subscriptions@.len() == self.next_id
        &&& forall|i: int|
            0 <= i < self.subscriptions@.len() ==> (#[trigger] self.subscriptions@[i]).wf()
        &&& self.index.wf()
        &&& self.index_sound()
        &&& self.index_ascending()
        &&& self.index_complete()
    }

    /// Every id a subscriber's list holds names an existing record owned by
    /// that subscriber.
    pub open spec fn index_sound(self) -> bool {
        forall|s: Address, j: int|
            0 <= j < self.index.ids_of(s).len() ==> (#[trigger] self.index.ids_of(s)[j])
                < self.next_id && self.subscriptions@[self.index.ids_of(s)[j] as int].subscriber
                == s
    }

    /// Each subscriber's list is strictly ascending: creation order equals
    /// ascending-id order, and no id is listed twice.
    pub open spec fn index_ascending(self) -> bool {
        forall|s: Address, j: int, k: int|
            0 <= j < k < self.index.ids_of(s).len() ==> #[trigger] self.index.ids_of(s)[j]
                < #[trigger] self.index.ids_of(s)[k]
    }

    /// Every record is listed in the index under its own subscriber.
    pub open spec fn index_complete(self) -> bool {
        forall|i: int|
            0 <= i < self.subscriptions@.len() ==> self.index.ids_of(
                (#[trigger] self.subscriptions@[i]).subscriber,
            ).contains(i as u32)
    }

    /// The record a creation with these inputs stores: active, anchored at
    /// the creation time, with an empty prepaid balance (funding arrives via
    /// a separate deposit backed by the payment rail).
    pub open spec fn fresh_subscription(
        subscriber: Address,
        merchant: Address,
        amount: i128,
        interval_seconds: u64,
        usage_enabled: bool,
        now: u64,
    ) -> Subscription {
        Subscription {
            subscriber,
            merchant,
            amount,
            interval_seconds,
            last_payment_timestamp: now,
            status: SubscriptionStatus::Active,
            prepaid_balance: 0,
            usage_enabled,
        }
    }

    /// The state transition of a successful creation: the returned id is the
    /// allocator value before the call, the allocator advances by one, the
    /// fresh record is appended to the table, the id is appended to the
    /// subscriber's list, and nothing else moves.
    pub open spec fn created(
        pre: Self,
        post: Self,
        subscriber: Address,
        merchant: Address,
        amount: i128,
        interval_seconds: u64,
        usage_enabled: bool,
        now: u64,
        id: u32,
    ) -> bool {
        &&& id == pre.next_id
        &&& post.next_id == pre.next_id + 1
        &&& post.subscriptions@ == pre.subscriptions@.push(
            Self::fresh_subscription(
                subscriber,
                merchant,
                amount,
                interval_seconds,
                usage_enabled,
                now,
            ),
        )
        &&& post.index.ids_of(subscriber) == pre.index.ids_of(subscriber).push(id)
        &&& forall|t: Address|
            t != subscriber ==> #[trigger] post.index.ids_of(t) == pre.index.ids_of(t)
        &&& post.token == pre.token
        &&& post.admin == pre.admin
    }

    /// The state transition shared by every in-place record mutation: the
    /// record with the given id is replaced and the allocator, the index and
    /// the configuration stay exactly as they were.
    pub open spec fn record_updated(pre: Self, post: Self, id: u32, sub: Subscription) -> bool {
        &&& post.next_id == pre.next_id
        &&& post.subscriptions@ == pre.subscriptions@.update(id as int, sub)
        &&& post.index == pre.index
        &&& post.token == pre.token
        &&& post.admin == pre.admin
    }

    /// The record after a successful interval charge: the window re-anchors
    /// at `now`, the per-interval amount is debited, and a debit that empties
    /// the balance moves the record to `InsufficientBalance`.
    pub open spec fn interval_charged_record(sub: Subscription, now: u64) -> Subscription {
        Subscription {
            last_payment_timestamp: now,
            prepaid_balance: (sub.prepaid_balance - sub.amount) as i128,
            status: if sub.prepaid_balance == sub.amount {
                SubscriptionStatus::InsufficientBalance
            } else {
                SubscriptionStatus::Active
            },
            ..sub
        }
    }

    /// The record after a successful usage debit: the balance drops by the
    /// metered amount, the billing schedule is untouched, and a debit that
    /// empties the balance moves the record to `InsufficientBalance`.
    pub open spec fn usage_charged_record(sub: Subscription, usage_amount: i128) -> Subscription {
        Subscription {
            prepaid_balance: (sub.prepaid_balance - usage_amount) as i128,
            status: if sub.prepaid_balance == usage_amount {
                SubscriptionStatus::InsufficientBalance
            } else {
                SubscriptionStatus::Active
            },
            ..sub
        }
    }

    /// The record after a deposit: only the balance grows.
    pub open spec fn deposited_record(sub: Subscription, amount: i128) -> Subscription {
        Subscription { prepaid_balance: (sub.prepaid_balance + amount) as i128, ..sub }
    }

    /// The record with its status replaced.
    pub open spec fn with_status(sub: Subscription, status: SubscriptionStatus) -> Subscription {
        Subscription { status, ..sub }
    }

    /// A deposit must not push the balance past the integer domain; the
    /// caller excludes that misconfiguration.
    pub open spec fn deposit_in_domain(self, id: u32, amount: i128) -> bool {
        id < self.next_id && amount > 0 ==> self.subscriptions@[id as int].prepaid_balance
            + amount <= i128::MAX
    }

    /// An interval charge on an active record must be able to compute its
    /// due test inside the timestamp domain; overflow there is a fatal
    /// misconfiguration the caller excludes rather than a recoverable error.
    pub open spec fn charge_in_domain(self, id: u32) -> bool {
        id < self.next_id && self.subscriptions@[id as int].status
            == SubscriptionStatus::Active ==> self.subscriptions@[id as int].schedule_in_domain()
    }

    /// The first position of the page window: the cursor, clamped to the end
    /// of the subscriber's list.
    pub open spec fn page_start(self, subscriber: Address, start: u32) -> int {
        let total = self.index.ids_of(subscriber).len() as int;
        if start as int <= total {
            start as int
        } else {
            total
        }
    }

    /// The position one past the page window. A `limit` of zero is the
    /// all-remaining sentinel; otherwise the window ends at
    /// `start + limit`, saturated to the end of the list.
    pub open spec fn page_end(self, subscriber: Address, start: u32, limit: u32) -> int {
        let total = self.index.ids_of(subscriber).len() as int;
        if limit == 0 {
            total
        } else if start as int + limit as int <= total {
            start as int + limit as int
        } else {
            total
        }
    }

    /// An empty ledger: nothing configured, nothing allocated, nothing
    /// indexed.
    pub fn new() -> (r: Self)
        ensures
            r.wf(),
            r.token is None,
            r.admin is None,
            r.next_id == 0,
            r.subscriptions@ == Seq::<Subscription>::empty(),
            forall|s: Address| #[trigger] r.index.ids_of(s) == Seq::<u32>::empty(),
    {
        let r = SubscriptionVault {
            token: None,
            admin: None,
            next_id: 0,
            subscriptions: Vec::new(),
            index: SubscriberIndex::new(),
        };
        proof {
            assert(r.subscriptions@ =~= Seq::<Subscription>::empty());
            assert forall|s: Address, j: int|
                0 <= j < r.index.ids_of(s).len() implies (#[trigger] r.index.ids_of(s)[j])
                < r.next_id && r.subscriptions@[r.index.ids_of(s)[j] as int].subscriber == s by {
                assert(r.index.ids_of(s) == Seq::<u32>::empty());
            }
            assert forall|s: Address, j: int, k: int|
                0 <= j < k < r.index.ids_of(s).len() implies #[trigger] r.index.ids_of(s)[j]
                < #[trigger] r.index.ids_of(s)[k] by {
                assert(r.index.ids_of(s) == Seq::<u32>::empty());
            }
        }
        r
    }

    /// Record the billing token and the administrator. Both are
    /// configuration the surrounding application consults; no ledger
    /// operation in this core reads them.
    pub fn init(&mut self, token: Address, admin: Address) -> (r: Result<(), Error>)
        requires
            old(self).wf(),
        ensures
            final(self).wf(),
            r == Ok::<(), Error>(()),
            final(self).token == Some(token),
            final(self).admin == Some(admin),
            final(self).next_id == old(self).next_id,
            final(self).subscriptions == old(self).subscriptions,
            final(self).index == old(self).index,
    {
        self.token = Some(token);
        self.admin = Some(admin);
        Ok(())
    }

    /// The identity allocator: return the current counter and advance it.
    /// Callers rely on invocation-level atomicity, so no two calls observe
    /// the same value.
    fn _next_id(&mut self) -> (id: u32)
        requires
            old(self).next_id < u32::MAX,
        ensures
            id == old(self).next_id,
            final(self).next_id == old(self).next_id + 1,
            final(self).token == old(self).token,
            final(self).admin == old(self).admin,
            final(self).subscriptions == old(self).subscriptions,
            final(self).index == old(self).index,
    {
        let id = self.next_id;
        self.next_id = self.next_id + 1;
        id
    }

    /// Create a new subscription: allocate the next id, store the fresh
    /// record, and append the id to the subscriber's index.
    ///
    /// A negative per-interval charge is rejected, so every stored record
    /// carries a non-negative `amount`; a `usageAmount`-style positivity
    /// demand is deliberately not made, and `interval_seconds == 0` is
    /// accepted as "charge as often as invoked". Allocator exhaustion is
    /// fatal and excluded by the caller.
    pub fn create_subscription(
        &mut self,
        subscriber: Address,
        merchant: Address,
        amount: i128,
        interval_seconds: u64,
        usage_enabled: bool,
        now: u64,
    ) -> (r: Result<u32, Error>)
        requires
            old(self).wf(),
            old(self).next_id < u32::MAX,
        ensures
            final(self).wf(),
            amount < 0 ==> r == Err::<u32, Error>(Error::InvalidAmount) && *final(self) == *old(
                self,
            ),
            amount >= 0 ==> r == Ok::<u32, Error>(old(self).next_id) && Self::created(
                *old(self),
                *final(self),
                subscriber,
                merchant,
                amount,
                interval_seconds,
                usage_enabled,
                now,
                old(self).next_id,
            ),
    {
        if amount < 0 {
            return Err(Error::InvalidAmount);
        }
        let ghost pre = *self;
        let sub = Subscription {
            subscriber,
            merchant,
            amount,
            interval_seconds,
            last_payment_timestamp: now,
            status: SubscriptionStatus::Active,
            prepaid_balance: 0,
            usage_enabled,
        };
        let id = self._next_id();
        self.subscriptions.push(sub);
        self.index.append(subscriber, id);
        proof {
            self.lemma_create_preserves_wf(pre, subscriber, sub, id);
        }
        Ok(id)
    }

    /// The well-formedness argument for `create_subscription`: appending a
    /// fresh record and indexing it under its owner keeps every clause of
    /// `wf`.
    proof fn lemma_create_preserves_wf(
        self,
        pre: Self,
        subscriber: Address,
        sub: Subscription,
        id: u32,
    )
        requires
            pre.wf(),
            pre.next_id < u32::MAX,
            id == pre.next_id,
            sub.subscriber == subscriber,
            sub.wf(),
            self.next_id == pre.next_id + 1,
            self.subscriptions@ == pre.subscriptions@.push(sub),
            self.index.wf(),
            self.index.ids_of(subscriber) == pre.index.ids_of(subscriber).push(id),
            forall|t: Address|
                t != subscriber ==> #[trigger] self.index.ids_of(t) == pre.index.ids_of(t),
        ensures
            self.wf(),
    {
        let n = pre.next_id as int;
        assert forall|i: int|
            0 <= i < self.subscriptions@.len() implies (#[trigger] self.subscriptions@[i]).wf() by {
            if i < n {
                assert(pre.subscriptions@[i].wf());
            }
        }
        assert forall|s: Address, j: int|
            0 <= j < self.index.ids_of(s).len() implies (#[trigger] self.index.ids_of(s)[j])
            < self.next_id && self.subscriptions@[self.index.ids_of(s)[j] as int].subscriber
            == s by {
            if s == subscriber {
                if j < pre.index.ids_of(s).len() {
                    assert(self.index.ids_of(s)[j] == pre.index.ids_of(s)[j]);
                    assert(pre.index.ids_of(s)[j] < pre.next_id);
                } else {
                    assert(self.index.ids_of(s)[j] == id);
                }
            } else {
                assert(self.index.ids_of(s) == pre.index.ids_of(s));
                assert(pre.index.ids_of(s)[j] < pre.next_id);
            }
        }
        assert forall|s: Address, j: int, k: int|
            0 <= j < k < self.index.ids_of(s).len() implies #[trigger] self.index.ids_of(s)[j]
            < #[trigger] self.index.ids_of(s)[k] by {
            if s == subscriber {
                if k < pre.index.ids_of(s).len() {
                    assert(pre.index.ids_of(s)[j] < pre.index.ids_of(s)[k]);
                } else {
                    assert(self.index.ids_of(s)[k] == id);
                    assert(self.index.ids_of(s)[j] == pre.index.ids_of(s)[j]);
                    assert(pre.index.ids_of(s)[j] < pre.next_id);
                }
            } else {
                assert(self.index.ids_of(s) == pre.index.ids_of(s));
                assert(pre.index.ids_of(s)[j] < pre.index.ids_of(s)[k]);
            }
        }
        assert forall|i: int|
            0 <= i < self.subscriptions@.len() implies self.index.ids_of(
            (#[trigger] self.subscriptions@[i]).subscriber,
        ).contains(i as u32) by {
            if i < n {
                let owner = pre.subscriptions@[i].subscriber;
                assert(pre.index.ids_of(owner).contains(i as u32));
                let w = choose|w: int|
                    0 <= w < pre.index.ids_of(owner).len() && pre.index.ids_of(owner)[w] == i
                        as u32;
                if owner == subscriber {
                    assert(self.index.ids_of(owner)[w] == pre.index.ids_of(owner)[w]);
                } else {
                    assert(self.index.ids_of(owner) == pre.index.ids_of(owner));
                }
                assert(self.index.ids_of(owner)[w] == i as u32);
            } else {
                assert(self.subscriptions@[i] == sub);
                let m = pre.index.ids_of(subscriber).len() as int;
                assert(self.index.ids_of(subscriber)[m] == id);
            }
        }
    }

    /// The well-formedness argument shared by every in-place mutation that
    /// keeps the record's owner: replacing a record without touching its
    /// subscriber keeps every clause of `wf`.
    proof fn lemma_update_preserves_wf(self, pre: Self, id: u32, sub: Subscription)
        requires
            pre.wf(),
            id < pre.next_id,
            sub.wf(),
            sub.subscriber == pre.subscriptions@[id as int].subscriber,
            Self::record_updated(pre, self, id, sub),
        ensures
            self.wf(),
    {
        assert forall|i: int|
            0 <= i < self.subscriptions@.len() implies (#[trigger] self.subscriptions@[i]).wf() by {
            if i != id as int {
                assert(self.subscriptions@[i] == pre.subscriptions@[i]);
                assert(pre.subscriptions@[i].wf());
            }
        }
        assert forall|s: Address, j: int|
            0 <= j < self.index.ids_of(s).len() implies (#[trigger] self.index.ids_of(s)[j])
            < self.next_id && self.subscriptions@[self.index.ids_of(s)[j] as int].subscriber
            == s by {
            assert(self.index.ids_of(s) == pre.index.ids_of(s));
            assert(pre.index.ids_of(s)[j] < pre.next_id);
            assert(pre.subscriptions@[pre.index.ids_of(s)[j] as int].subscriber == s);
        }
        assert forall|s: Address, j: int, k: int|
            0 <= j < k < self.index.ids_of(s).len() implies #[trigger] self.index.ids_of(s)[j]
            < #[trigger] self.index.ids_of(s)[k] by {
            assert(self.index.ids_of(s) == pre.index.ids_of(s));
            assert(pre.index.ids_of(s)[j] < pre.index.ids_of(s)[k]);
        }
        assert forall|i: int|
            0 <= i < self.subscriptions@.len() implies self.index.ids_of(
            (#[trigger] self.subscriptions@[i]).subscriber,
        ).contains(i as u32) by {
            assert(self.subscriptions@[i].subscriber == pre.subscriptions@[i].subscriber);
            assert(pre.index.ids_of(pre.subscriptions@[i].subscriber).contains(i as u32));
            assert(self.index.ids_of(self.subscriptions@[i].subscriber) == pre.index.ids_of(
                pre.subscriptions@[i].subscriber,
            ));
        }
    }

    /// Grow a subscription's prepaid balance. The matching value transfer is
    /// the payment rail's job; this core records its ledger effect. The
    /// record's status is untouched: returning a record to `Active` after a
    /// top-up is an explicit reactivation left to the surrounding system.
    pub fn deposit_funds(
        &mut self,
        subscription_id: u32,
        subscriber: Address,
        amount: i128,
    ) -> (r: Result<(), Error>)
        requires
            old(self).wf(),
            old(self).deposit_in_domain(subscription_id, amount),
        ensures
            final(self).wf(),
            subscription_id >= old(self).next_id ==> r == Err::<(), Error>(Error::NotFound)
                && *final(self) == *old(self),
            subscription_id < old(self).next_id && amount <= 0 ==> r == Err::<(), Error>(
                Error::InvalidAmount,
            ) && *final(self) == *old(self),
            subscription_id < old(self).next_id && amount > 0 ==> r == Ok::<(), Error>(())
                && Self::record_updated(
                *old(self),
                *final(self),
                subscription_id,
                Self::deposited_record(
                    old(self).subscriptions@[subscription_id as int],
                    amount,
                ),
            ),
    {
        let idx = subscription_id as usize;
        if idx >= self.subscriptions.len() {
            return Err(Error::NotFound);
        }
        if amount <= 0 {
            return Err(Error::InvalidAmount);
        }
        let ghost pre = *self;
        let mut sub = self.subscriptions[idx];
        sub.prepaid_balance = sub.prepaid_balance + amount;
        self.subscriptions[idx] = sub;
        proof {
            self.lemma_update_preserves_wf(pre, subscription_id, sub);
        }
        Ok(())
    }

    /// Charge one interval: the billing engine's periodic debit.
    ///
    /// Preconditions are checked in order, first failure wins: the record
    /// exists, it is `Active`, a full interval has elapsed (the due test is
    /// inclusive, so a charge landing exactly on the boundary succeeds), and
    /// the balance covers the per-interval amount. On success the window
    /// re-anchors at `now` and the amount is debited; a debit that empties
    /// the balance moves the record to `InsufficientBalance`.
    pub fn charge_subscription(&mut self, subscription_id: u32, now: u64) -> (r: Result<
        (),
        Error,
    >)
        requires
            old(self).wf(),
            old(self).charge_in_domain(subscription_id),
        ensures
            final(self).wf(),
            ({
                let pre = *old(self);
                if subscription_id >= pre.next_id {
                    r == Err::<(), Error>(Error::NotFound) && *final(self) == pre
                } else {
                    let sub = pre.subscriptions@[subscription_id as int];
                    if sub.status != SubscriptionStatus::Active {
                        r == Err::<(), Error>(Error::NotActive) && *final(self) == pre
                    } else if !sub.charge_due(now) {
                        r == Err::<(), Error>(Error::IntervalNotElapsed) && *final(self) == pre
                    } else if sub.prepaid_balance < sub.amount {
                        r == Err::<(), Error>(Error::InsufficientPrepaidBalance) && *final(self)
                            == pre
                    } else {
                        r == Ok::<(), Error>(()) && Self::record_updated(
                            pre,
                            *final(self),
                            subscription_id,
                            Self::interval_charged_record(sub, now),
                        )
                    }
                }
            }),
    {
        let idx = subscription_id as usize;
        if idx >= self.subscriptions.len() {
            return Err(Error::NotFound);
        }
        let mut sub = self.subscriptions[idx];
        if !matches!(sub.status, SubscriptionStatus::Active) {
            return Err(Error::NotActive);
        }
        if now < sub.last_payment_timestamp + sub.interval_seconds {
            return Err(Error::IntervalNotElapsed);
        }
        if sub.prepaid_balance < sub.amount {
            return Err(Error::InsufficientPrepaidBalance);
        }
        let ghost pre = *self;
        sub.last_payment_timestamp = now;
        if sub.prepaid_balance == sub.amount {
            sub.status = SubscriptionStatus::InsufficientBalance;
        }
        sub.prepaid_balance = sub.prepaid_balance - sub.amount;
        self.subscriptions[idx] = sub;
        proof {
            self.lemma_update_preserves_wf(pre, subscription_id, sub);
        }
        Ok(())
    }

    /// Debit a metered usage amount against the prepaid balance.
    ///
    /// Preconditions are checked in order, first failure wins: the record
    /// exists, it is `Active`, usage billing is enabled, the metered amount
    /// is positive, and the balance covers it. The billing schedule is never
    /// read or written: usage and interval charges compose without
    /// interference, which is why `now` is accepted but ignored.
    pub fn charge_usage(&mut self, subscription_id: u32, usage_amount: i128, now: u64) -> (r:
        Result<(), Error>)
        requires
            old(self).wf(),
        ensures
            final(self).wf(),
            ({
                let pre = *old(self);
                if subscription_id >= pre.next_id {
                    r == Err::<(), Error>(Error::NotFound) && *final(self) == pre
                } else {
                    let sub = pre.subscriptions@[subscription_id as int];
                    if sub.status != SubscriptionStatus::Active {
                        r == Err::<(), Error>(Error::NotActive) && *final(self) == pre
                    } else if !sub.usage_enabled {
                        r == Err::<(), Error>(Error::UsageNotEnabled) && *final(self) == pre
                    } else if usage_amount <= 0 {
                        r == Err::<(), Error>(Error::InvalidAmount) && *final(self) == pre
                    } else if sub.prepaid_balance < usage_amount {
                        r == Err::<(), Error>(Error::InsufficientPrepaidBalance) && *final(self)
                            == pre
                    } else {
                        r == Ok::<(), Error>(()) && Self::record_updated(
                            pre,
                            *final(self),
                            subscription_id,
                            Self::usage_charged_record(sub, usage_amount),
                        )
                    }
                }
            }),
    {
        let _ = now;
        let idx = subscription_id as usize;
        if idx >= self.subscriptions.len() {
            return Err(Error::NotFound);
        }
        let mut sub = self.subscriptions[idx];
        if !matches!(sub.status, SubscriptionStatus::Active) {
            return Err(Error::NotActive);
        }
        if !sub.usage_enabled {
            return Err(Error::UsageNotEnabled);
        }
        if usage_amount <= 0 {
            return Err(Error::InvalidAmount);
        }
        if sub.prepaid_balance < usage_amount {
            return Err(Error::InsufficientPrepaidBalance);
        }
        let ghost pre = *self;
        if sub.prepaid_balance == usage_amount {
            sub.status = SubscriptionStatus::InsufficientBalance;
        }
        sub.prepaid_balance = sub.prepaid_balance - usage_amount;
        self.subscriptions[idx] = sub;
        proof {
            self.lemma_update_preserves_wf(pre, subscription_id, sub);
        }
        Ok(())
    }

    /// Cancel the agreement: the record ends in `Cancelled`, after which
    /// only balance withdrawal is meaningful. The authorizer's control over
    /// the record is the authentication collaborator's check, assumed to
    /// have passed.
    pub fn cancel_subscription(&mut self, subscription_id: u32, authorizer: Address) -> (r:
        Result<(), Error>)
        requires
            old(self).wf(),
        ensures
            final(self).wf(),
            subscription_id >= old(self).next_id ==> r == Err::<(), Error>(Error::NotFound)
                && *final(self) == *old(self),
            subscription_id < old(self).next_id ==> r == Ok::<(), Error>(())
                && Self::record_updated(
                *old(self),
                *final(self),
                subscription_id,
                Self::with_status(
                    old(self).subscriptions@[subscription_id as int],
                    SubscriptionStatus::Cancelled,
                ),
            ),
    {
        let _ = authorizer;
        self.set_status(subscription_id, SubscriptionStatus::Cancelled)
    }

    /// Pause the agreement: no interval or usage charge is accepted until
    /// the surrounding system applies an explicit reactivation. The
    /// authorizer's control over the record is the authentication
    /// collaborator's check, assumed to have passed.
    pub fn pause_subscription(&mut self, subscription_id: u32, authorizer: Address) -> (r: Result<
        (),
        Error,
    >)
        requires
            old(self).wf(),
        ensures
            final(self).wf(),
            subscription_id >= old(self).next_id ==> r == Err::<(), Error>(Error::NotFound)
                && *final(self) == *old(self),
            subscription_id < old(self).next_id ==> r == Ok::<(), Error>(())
                && Self::record_updated(
                *old(self),
                *final(self),
                subscription_id,
                Self::with_status(
                    old(self).subscriptions@[subscription_id as int],
                    SubscriptionStatus::Paused,
                ),
            ),
    {
        let _ = authorizer;
        self.set_status(subscription_id, SubscriptionStatus::Paused)
    }

    /// Replace the status of an existing record.
    fn set_status(&mut self, subscription_id: u32, status: SubscriptionStatus) -> (r: Result<
        (),
        Error,
    >)
        requires
            old(self).wf(),
        ensures
            final(self).wf(),
            subscription_id >= old(self).next_id ==> r == Err::<(), Error>(Error::NotFound)
                && *final(self) == *old(self),
            subscription_id < old(self).next_id ==> r == Ok::<(), Error>(())
                && Self::record_updated(
                *old(self),
                *final(self),
                subscription_id,
                Self::with_status(old(self).subscriptions@[subscription_id as int], status),
            ),
    {
        let idx = subscription_id as usize;
        if idx >= self.subscriptions.len() {
            return Err(Error::NotFound);
        }
        let ghost pre = *self;
        let mut sub = self.subscriptions[idx];
        sub.status = status;
        self.subscriptions[idx] = sub;
        proof {
            self.lemma_update_preserves_wf(pre, subscription_id, sub);
        }
        Ok(())
    }

    /// Acknowledge a merchant withdrawal. The core keeps no per-merchant
    /// ledger: the decrement and the transfer are wholly delegated to the
    /// payment rail, so the core's persisted effect is none.
    pub fn withdraw_merchant_funds(&self, merchant: Address, amount: i128) -> (r: Result<
        (),
        Error,
    >)
        ensures
            r == Ok::<(), Error>(()),
    {
        let _ = merchant;
        let _ = amount;
        Ok(())
    }

    /// Read a single subscription by its id.
    pub fn get_subscription(&self, subscription_id: u32) -> (r: Result<Subscription, Error>)
        requires
            self.wf(),
        ensures
            subscription_id < self.next_id ==> r == Ok::<Subscription, Error>(
                self.subscriptions@[subscription_id as int],
            ),
            subscription_id >= self.next_id ==> r == Err::<Subscription, Error>(Error::NotFound),
    {
        let idx = subscription_id as usize;
        if idx < self.subscriptions.len() {
            Ok(self.subscriptions[idx])
        } else {
            Err(Error::NotFound)
        }
    }

    /// Return one page of `subscriber`'s subscriptions, ascending by id.
    ///
    /// `start` is a zero-based cursor into the subscriber's full list,
    /// clamped to its end; `limit == 0` is the all-remaining sentinel, any
    /// other limit caps the page, saturating at the end of the list. The
    /// result pairs each id with the record stored for it. Because ids only
    /// ever append, already-consumed pages never shift position, so the
    /// cursor pattern is safe even while new subscriptions arrive.
    pub fn get_subscriptions_by_subscriber(
        &self,
        subscriber: Address,
        start: u32,
        limit: u32,
    ) -> (r: Vec<SubscriptionEntry>)
        requires
            self.wf(),
        ensures
            ({
                let ids = self.index.ids_of(subscriber);
                let lo = self.page_start(subscriber, start);
                let hi = self.page_end(subscriber, start, limit);
                &&& r@.len() == hi - lo
                &&& forall|j: int|
                    0 <= j < r@.len() ==> {
                        let e = #[trigger] r@[j];
                        e.id == ids[lo + j] && e.subscription == self.subscriptions@[ids[lo + j]
                            as int]
                    }
            }),
    {
        let ids: Vec<u32> = self.index.list(subscriber);
        let total: usize = ids.len();
        let start_idx: usize = if (start as usize) < total {
            start as usize
        } else {
            total
        };
        let end_idx: usize = if limit == 0 {
            total
        } else {
            let remaining = total - start_idx;
            if (limit as usize) < remaining {
                start_idx + limit as usize
            } else {
                total
            }
        };
        let mut result: Vec<SubscriptionEntry> = Vec::new();
        let mut i: usize = start_idx;
        while i < end_idx
            invariant
                self.wf(),
                ids@ == self.index.ids_of(subscriber),
                start_idx <= i <= end_idx,
                end_idx <= ids@.len(),
                result@.len() == i - start_idx,
                forall|j: int|
                    0 <= j < result@.len() ==> {
                        let e = #[trigger] result@[j];
                        e.id == ids@[start_idx + j] && e.subscription == self.subscriptions@[
                            ids@[start_idx + j] as int]
                    },
            decreases end_idx - i,
        {
            let sub_id = ids[i];
            proof {
                assert(self.index.ids_of(subscriber)[i as int] < self.next_id);
            }
            if (sub_id as usize) < self.subscriptions.len() {
                result.push(
                    SubscriptionEntry { id: sub_id, subscription: self.subscriptions[sub_id
                        as usize] },
                );
            }
            i += 1;
        }
        result
    }
}

} // verus!
