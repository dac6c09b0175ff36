//! The subscriber index: an append-only per-subscriber list of subscription
//! ids, used for ownership queries.
//!
//! The index is keyed per subscriber; it never merges or globally sorts
//! across subscribers. `append` is the sole mutator and is called only at
//! creation, so each list carries ids in creation order.

use vstd::prelude::*;
use crate::subscription::Address;

verus! {

/// One subscriber's slot in the index: the owner and the ordered ids of the
/// subscriptions created for it.
#[derive(Debug)]
pub struct IndexEntry {
    /// The subscriber that owns this list.
    pub subscriber: Address,
    /// Subscription ids in creation order (equivalently, ascending id order).
    pub ids: Vec<u32>,
}

/// The whole index: one entry per subscriber that has ever created a
/// subscription. A subscriber with no entry simply owns nothing yet.
#[derive(Debug)]
pub struct SubscriberIndex {
    /// The entries, one per distinct subscriber.
    pub entries: Vec<IndexEntry>,
}

impl SubscriberIndex {
    /// Well-formedness: no subscriber owns two entries.
    pub open spec fn wf(self) -> bool {
        forall|i: int, j: int|
            0 <= i < j < self.entries@.len() ==> (#[trigger] self.entries@[i]).subscriber
                != (#[trigger] self.entries@[j]).subscriber
    }

    /// Whether some entry belongs to `subscriber`.
    pub open spec fn has_entry(self, subscriber: Address) -> bool {
        exists|i: int|
            0 <= i < self.entries@.len() && (#[trigger] self.entries@[i]).subscriber
                == subscriber
    }

    /// The position of `subscriber`'s entry; meaningful only when
    /// `has_entry(subscriber)` holds (and then unique, by `wf`).
    pub open spec fn entry_index(self, subscriber: Address) -> int {
        choose|i: int|
            0 <= i < self.entries@.len() && (#[trigger] self.entries@[i]).subscriber
                == subscriber
    }

    /// The ordered ids owned by `subscriber`; empty for a subscriber that has
    /// never been observed.
    pub open spec fn ids_of(self, subscriber: Address) -> Seq<u32> {
        if self.has_entry(subscriber) {
            self.entries@[self.entry_index(subscriber)].ids@
        } else {
            Seq::<u32>::empty()
        }
    }

    /// In a well-formed index, an entry at `i` owned by `s` is the entry the
    /// lookup functions speak of.
    pub proof fn lemma_entry_at(self, s: Address, i: int)
        requires
            self.wf(),
            0 <= i < self.entries@.len(),
            self.entries@[i].subscriber == s,
        ensures
            self.has_entry(s),
            self.entry_index(s) == i,
            self.ids_of(s) == self.entries@[i].ids@,
    {
        assert(self.has_entry(s));
        let k = self.entry_index(s);
        assert(0 <= k < self.entries@.len() && self.entries@[k].subscriber == s);
        if k < i {
            assert(self.entries@[k].subscriber != self.entries@[i].subscriber);
        } else if i < k {
            assert(self.entries@[i].subscriber != self.entries@[k].subscriber);
        }
    }

    /// An empty index: every subscriber's list is empty.
    pub fn new() -> (r: Self)
        ensures
            r.wf(),
            r.entries@.len() == 0,
            forall|s: Address| #[trigger] r.ids_of(s) == Seq::<u32>::empty(),
    {
        let r = SubscriberIndex { entries: Vec::new() };
        proof {
            assert forall|s: Address| #[trigger] r.ids_of(s) == Seq::<u32>::empty() by {
                assert(!r.has_entry(s));
            }
        }
        r
    }

    /// Find the position of `subscriber`'s entry, if any.
    fn find(&self, subscriber: Address) -> (r: Option<usize>)
        requires
            self.wf(),
        ensures
            match r {
                Some(i) => {
                    &&& i < self.entries@.len()
                    &&& self.entries@[i as int].subscriber == subscriber
                    &&& self.has_entry(subscriber)
                    &&& self.entry_index(subscriber) == i
                },
                None => !self.has_entry(subscriber),
            },
    {
        let n = self.entries.len();
        let mut i: usize = 0;
        while i < n
            invariant
                self.wf(),
                n == self.entries@.len(),
                i <= n,
                forall|j: int| 0 <= j < i ==> (#[trigger] self.entries@[j]).subscriber
                    != subscriber,
            decreases n - i,
        {
            if self.entries[i].subscriber == subscriber {
                proof {
                    self.lemma_entry_at(subscriber, i as int);
                }
                return Some(i);
            }
            i += 1;
        }
        None
    }

    /// Append `id` to `subscriber`'s list, creating the entry if absent.
    ///
    /// Only `subscriber`'s list changes; every other subscriber's list is
    /// left exactly as it was.
    pub fn append(&mut self, subscriber: Address, id: u32)
        requires
            old(self).wf(),
        ensures
            final(self).wf(),
            final(self).ids_of(subscriber) == old(self).ids_of(subscriber).push(id),
            forall|t: Address|
                t != subscriber ==> #[trigger] final(self).ids_of(t) == old(self).ids_of(t),
    {
        let ghost pre = *self;
        match self.find(subscriber) {
            Some(i) => {
                let entry = &mut self.entries[i];
                entry.ids.push(id);
                proof {
                    assert(self.entries@ =~= pre.entries@.update(
                        i as int,
                        IndexEntry {
                            subscriber: pre.entries@[i as int].subscriber,
                            ids: self.entries@[i as int].ids,
                        },
                    ));
                    assert forall|a: int, b: int|
                        0 <= a < b < self.entries@.len() implies (
                    #[trigger] self.entries@[a]).subscriber != (
                    #[trigger] self.entries@[b]).subscriber by {
                        assert(self.entries@[a].subscriber == pre.entries@[a].subscriber);
                        assert(self.entries@[b].subscriber == pre.entries@[b].subscriber);
                    }
                    self.lemma_entry_at(subscriber, i as int);
                    pre.lemma_entry_at(subscriber, i as int);
                    assert(self.ids_of(subscriber) =~= pre.ids_of(subscriber).push(id));
                    assert forall|t: Address| t != subscriber implies #[trigger] self.ids_of(t)
                        == pre.ids_of(t) by {
                        Self::lemma_other_unchanged(pre, *self, subscriber, t);
                    }
                }
            },
            None => {
                let mut ids: Vec<u32> = Vec::new();
                ids.push(id);
                self.entries.push(IndexEntry { subscriber, ids });
                proof {
                    let n = pre.entries@.len() as int;
                    assert forall|a: int, b: int|
                        0 <= a < b < self.entries@.len() implies (
                    #[trigger] self.entries@[a]).subscriber != (
                    #[trigger] self.entries@[b]).subscriber by {
                        if b < n {
                            assert(self.entries@[a].subscriber == pre.entries@[a].subscriber);
                            assert(self.entries@[b].subscriber == pre.entries@[b].subscriber);
                        } else {
                            assert(self.entries@[b].subscriber == subscriber);
                            assert(self.entries@[a].subscriber == pre.entries@[a].subscriber);
                            assert(!pre.has_entry(subscriber));
                        }
                    }
                    self.lemma_entry_at(subscriber, n);
                    assert(self.ids_of(subscriber) =~= pre.ids_of(subscriber).push(id));
                    assert forall|t: Address| t != subscriber implies #[trigger] self.ids_of(t)
                        == pre.ids_of(t) by {
                        Self::lemma_other_unchanged(pre, *self, subscriber, t);
                    }
                }
            },
        }
    }

    /// After a mutation that touches only `subscriber`'s entry (and possibly
    /// appends a fresh entry for it), any other subscriber's list is intact.
    proof fn lemma_other_unchanged(pre: Self, post: Self, subscriber: Address, t: Address)
        requires
            pre.wf(),
            post.wf(),
            t != subscriber,
            pre.entries@.len() <= post.entries@.len(),
            post.entries@.len() <= pre.entries@.len() + 1,
            forall|j: int|
                0 <= j < pre.entries@.len() ==> (#[trigger] post.entries@[j]).subscriber
                    == pre.entries@[j].subscriber,
            forall|j: int|
                0 <= j < pre.entries@.len() && pre.entries@[j].subscriber != subscriber
                    ==> (#[trigger] post.entries@[j]).ids@ == pre.entries@[j].ids@,
            post.entries@.len() > pre.entries@.len()
                ==> post.entries@[pre.entries@.len() as int].subscriber == subscriber,
        ensures
            post.ids_of(t) == pre.ids_of(t),
    {
        if pre.has_entry(t) {
            let i = pre.entry_index(t);
            assert(0 <= i < pre.entries@.len() && pre.entries@[i].subscriber == t);
            pre.lemma_entry_at(t, i);
            post.lemma_entry_at(t, i);
        } else {
            if post.has_entry(t) {
                let i = post.entry_index(t);
                assert(0 <= i < post.entries@.len() && post.entries@[i].subscriber == t);
                assert(i < pre.entries@.len());
                assert(pre.has_entry(t));
            }
            assert(pre.ids_of(t) =~= post.ids_of(t));
        }
    }

    /// Read back `subscriber`'s ordered id list; empty when the subscriber
    /// has never created a subscription.
    pub fn list(&self, subscriber: Address) -> (r: Vec<u32>)
        requires
            self.wf(),
        ensures
            r@ == self.ids_of(subscriber),
    {
        match self.find(subscriber) {
            Some(i) => {
                let src = &self.entries[i].ids;
                let n = src.len();
                let mut out: Vec<u32> = Vec::new();
                let mut k: usize = 0;
                while k < n
                    invariant
                        n == src@.len(),
                        k <= n,
                        out@ == src@.subrange(0, k as int),
                    decreases n - k,
                {
                    out.push(src[k]);
                    proof {
                        assert(out@ =~= src@.subrange(0, k as int + 1));
                    }
                    k += 1;
                }
                proof {
                    assert(out@ =~= src@);
                }
                out
            },
            None => Vec::new(),
        }
    }
}

} // verus!
