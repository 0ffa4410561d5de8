//! The in-process notification hub: courier-status events fan out to every
//! live subscription whose user matches. Delivery is best-effort and
//! at-most-once: each subscription owns a bounded queue and a publish that
//! finds it full drops the event for that subscriber rather than block.

use vstd::prelude::*;

verus! {

/// How many undelivered events one subscription may hold.
pub const SUBSCRIPTION_QUEUE_BOUND: usize = 64;

/// What happened to the courier assignment a subscriber is watching.
#[derive(Clone, Copy, PartialEq, Eq, Structural, Debug)]
pub enum MutationType {
    Created,
    Deleted,
    Completed,
    Expired,
}

/// One courier-status event: ephemeral, never persisted.
#[derive(Clone, Copy, PartialEq, Eq, Structural, Debug)]
pub struct CourierStatus {
    pub mutation_type: MutationType,
    pub user_uuid: u128,
}

/// One live subscription: events for `user_uuid` queue up here until the
/// subscriber drains them.
pub struct Subscription {
    pub id: u64,
    pub user_uuid: u128,
    pub pending: Vec<CourierStatus>,
}

#[verifier::ext_equal]
pub ghost struct SubscriptionView {
    pub id: u64,
    pub user_uuid: u128,
    pub pending: Seq<CourierStatus>,
}

impl View for Subscription {
    type V = SubscriptionView;

    open spec fn view(&self) -> SubscriptionView {
        SubscriptionView { id: self.id, user_uuid: self.user_uuid, pending: self.pending@ }
    }
}

/// The broadcast hub. Owned by the running application; nothing here
/// survives a restart.
pub struct NotificationBroker {
    pub subs: Vec<Subscription>,
    pub next_id: u64,
}

pub open spec fn unique_sub_ids(subs: Seq<SubscriptionView>) -> bool {
    forall|i: int, j: int|
        #![trigger subs[i], subs[j]]
        0 <= i < j < subs.len() ==> subs[i].id != subs[j].id
}

pub open spec fn has_sub(subs: Seq<SubscriptionView>, id: u64) -> bool {
    exists|i: int| 0 <= i < subs.len() && (#[trigger] subs[i]).id == id
}

/// The index of the subscription with the given id; meaningful only under
/// `has_sub`, unique under `unique_sub_ids`.
pub open spec fn sub_pos(subs: Seq<SubscriptionView>, id: u64) -> int {
    choose|i: int| 0 <= i < subs.len() && (#[trigger] subs[i]).id == id
}

pub open spec fn keep_other_subs_pred(id: u64) -> spec_fn(SubscriptionView) -> bool {
    |s: SubscriptionView| s.id != id
}

/// What one subscription looks like after an event passes the hub: the
/// event queues up iff the user matches and the queue has room.
pub open spec fn after_publish(s: SubscriptionView, event: CourierStatus) -> SubscriptionView {
    SubscriptionView {
        pending: if s.user_uuid == event.user_uuid && s.pending.len() < SUBSCRIPTION_QUEUE_BOUND {
            s.pending.push(event)
        } else {
            s.pending
        },
        ..s
    }
}


/// Narrowing a subscription list keeps its ids unique.
pub proof fn lemma_filter_keeps_unique_ids(
    subs: Seq<SubscriptionView>,
    pred: spec_fn(SubscriptionView) -> bool,
)
    requires
        unique_sub_ids(subs),
    ensures
        unique_sub_ids(subs.filter(pred)),
    decreases subs.len(),
{
    broadcast use vstd::seq_lib::group_filter_ensures;

    reveal(Seq::filter);
    if subs.len() == 0 {
    } else {
        let rest = subs.drop_last();
        let last = subs.last();
        assert(unique_sub_ids(rest)) by {
            assert forall|a: int, b: int|
                #![trigger rest[a], rest[b]]
                0 <= a < b < rest.len() implies rest[a].id != rest[b].id by {
                assert(rest[a] == subs[a]);
                assert(rest[b] == subs[b]);
            }
        }
        lemma_filter_keeps_unique_ids(rest, pred);
        let f = subs.filter(pred);
        let rf = rest.filter(pred);
        if pred(last) {
            assert(f == rf.push(last));
            assert(unique_sub_ids(f)) by {
                assert forall|a: int, b: int|
                    #![trigger f[a], f[b]]
                    0 <= a < b < f.len() implies f[a].id != f[b].id by {
                    if b < f.len() - 1 {
                        assert(f[a] == rf[a]);
                        assert(f[b] == rf[b]);
                    } else {
                        assert(f[b] == last);
                        assert(f[a] == rf[a]);
                        assert(rf.contains(rf[a])) by {
                            assert(rf[a] == rf[a]);
                        }
                        rest.lemma_filter_contains_rev(pred, rf[a]);
                        let k = choose|k: int| 0 <= k < rest.len() && rest[k] == rf[a];
                        assert(rest[k] == subs[k]);
                        assert(last == subs[subs.len() - 1]);
                        assert(subs[k].id != subs[subs.len() - 1].id);
                    }
                }
            }
        } else {
            assert(f == rf);
        }
    }
}

impl NotificationBroker {
    pub open spec fn view_subs(self) -> Seq<SubscriptionView> {
        self.subs@.map_values(|s: Subscription| s@)
    }

    /// Well-formedness: ids are unique, below the allocation cursor, and no
    /// queue exceeds its bound.
    pub open spec fn wf(self) -> bool {
        &&& unique_sub_ids(self.view_subs())
        &&& forall|i: int|
            0 <= i < self.view_subs().len() ==> (#[trigger] self.view_subs()[i]).id < self.next_id
        &&& forall|i: int|
            0 <= i < self.view_subs().len() ==> (#[trigger] self.view_subs()[i]).pending.len()
                <= SUBSCRIPTION_QUEUE_BOUND
    }

    pub fn new() -> (b: NotificationBroker)
        ensures
            b.view_subs() == Seq::<SubscriptionView>::empty(),
            b.wf(),
    {
        let b = NotificationBroker { subs: Vec::new(), next_id: 0 };
        proof {
            assert(b.view_subs() =~= Seq::<SubscriptionView>::empty());
        }
        b
    }

    /// Opens a subscription filtered to one user's events. The new stream
    /// starts empty: events published before this call are never replayed.
    pub fn subscribe(&mut self, user_uuid: u128) -> (id: u64)
        requires
            old(self).wf(),
            old(self).next_id < u64::MAX,
        ensures
            final(self).wf(),
            final(self).view_subs().len() == old(self).view_subs().len() + 1,
            final(self).view_subs().drop_last() == old(self).view_subs(),
            final(self).view_subs().last() == (SubscriptionView {
                id,
                user_uuid,
                pending: Seq::<CourierStatus>::empty(),
            }),
            !has_sub(old(self).view_subs(), id),
    {
        let id = self.next_id;
        self.next_id = self.next_id + 1;
        let ghost before = self.view_subs();
        self.subs.push(Subscription { id, user_uuid, pending: Vec::new() });
        proof {
            assert(self.view_subs() =~= before.push(
                (SubscriptionView { id, user_uuid, pending: Seq::<CourierStatus>::empty() }),
            ));
            assert(self.view_subs().drop_last() =~= before);
            assert(unique_sub_ids(self.view_subs())) by {
                let subs = self.view_subs();
                assert forall|i: int, j: int|
                    #![trigger subs[i], subs[j]]
                    0 <= i < j < subs.len() implies subs[i].id != subs[j].id by {
                    if j < subs.len() - 1 {
                        assert(subs[i] == before[i] && subs[j] == before[j]);
                    } else {
                        assert(subs[i] == before[i]);
                        assert(before[i].id < id);
                    }
                }
            }
            assert(!has_sub(before, id)) by {
                assert forall|i: int| 0 <= i < before.len() implies (#[trigger] before[i]).id
                    != id by {
                    assert(before[i].id < id);
                }
            }
        }
        id
    }

    /// Closes a subscription: its queue is gone at once, nothing is
    /// replayed later. Reports whether the id was live.
    pub fn unsubscribe(&mut self, id: u64) -> (found: bool)
        requires
            old(self).wf(),
        ensures
            final(self).wf(),
            final(self).next_id == old(self).next_id,
            final(self).view_subs() == old(self).view_subs().filter(keep_other_subs_pred(id)),
            found == has_sub(old(self).view_subs(), id),
    {
        broadcast use vstd::seq_lib::group_filter_ensures;

        let ghost pred = keep_other_subs_pred(id);
        let ghost orig = self.view_subs();
        let mut kept: Vec<Subscription> = Vec::new();
        let mut found = false;
        let n = self.subs.len();
        let mut i: usize = 0;
        proof {
            assert(orig.take(0).filter(pred) =~= Seq::<SubscriptionView>::empty());
            assert(kept@.map_values(|s: Subscription| s@) =~= orig.take(0).filter(pred));
        }
        while i < n
            invariant
                n == self.subs@.len(),
                self.view_subs() == orig,
                self.next_id == old(self).next_id,
                *self == *old(self),
                0 <= i <= n,
                kept@.map_values(|s: Subscription| s@) == orig.take(i as int).filter(pred),
                found == exists|j: int| 0 <= j < i && (#[trigger] orig[j]).id == id,
                pred == keep_other_subs_pred(id),
            decreases n - i,
        {
            proof {
                crate::store::lemma_filter_take_step(orig, pred, i as int);
                assert(orig[i as int] == self.subs@[i as int]@);
            }
            let ghost kept_before = kept@;
            let sub = self.subs[i].duplicate();
            if sub.id == id {
                found = true;
                proof {
                    assert(orig[i as int].id == id);
                }
            } else {
                kept.push(sub);
                proof {
                    assert(kept@.map_values(|s: Subscription| s@) =~= kept_before.map_values(
                        |s: Subscription| s@,
                    ).push(orig[i as int]));
                }
            }
            i = i + 1;
        }
        proof {
            crate::store::lemma_take_all(orig);
        }
        self.subs = kept;
        proof {
            lemma_filter_keeps_unique_ids(orig, pred);
            let subs = self.view_subs();
            assert forall|t: int| 0 <= t < subs.len() implies (#[trigger] subs[t]).id
                < self.next_id && subs[t].pending.len() <= SUBSCRIPTION_QUEUE_BOUND by {
                assert(subs.contains(subs[t])) by {
                    assert(subs[t] == subs[t]);
                }
                orig.lemma_filter_contains_rev(pred, subs[t]);
                let k = choose|k: int| 0 <= k < orig.len() && orig[k] == subs[t];
                assert(orig[k].id < old(self).next_id);
                assert(orig[k].pending.len() <= SUBSCRIPTION_QUEUE_BOUND);
            }
        }
        found
    }

    /// Hands an event to every live subscription of the matching user; a
    /// full queue drops it for that subscriber, and no subscriber can delay
    /// another.
    pub fn publish(&mut self, event: CourierStatus)
        requires
            old(self).wf(),
        ensures
            final(self).wf(),
            final(self).next_id == old(self).next_id,
            final(self).view_subs().len() == old(self).view_subs().len(),
            forall|i: int|
                0 <= i < old(self).view_subs().len() ==> #[trigger] final(self).view_subs()[i]
                    == after_publish(old(self).view_subs()[i], event),
    {
        let ghost orig = self.view_subs();
        let n = self.subs.len();
        let mut i: usize = 0;
        while i < n
            invariant
                n == self.subs@.len(),
                self.view_subs().len() == orig.len(),
                self.next_id == old(self).next_id,
                old(self).view_subs() == orig,
                old(self).wf(),
                0 <= i <= n,
                forall|j: int|
                    i <= j < orig.len() ==> #[trigger] self.view_subs()[j] == orig[j],
                forall|j: int|
                    0 <= j < i ==> #[trigger] self.view_subs()[j] == after_publish(orig[j], event),
            decreases n - i,
        {
            proof {
                assert(self.view_subs()[i as int] == orig[i as int]);
            }
            let ghost before = self.view_subs();
            if self.subs[i].user_uuid == event.user_uuid && self.subs[i].pending.len()
                < SUBSCRIPTION_QUEUE_BOUND {
                self.subs[i].pending.push(event);
                proof {
                    assert forall|j: int| 0 <= j < orig.len() && j != i implies
                        #[trigger] self.view_subs()[j] == before[j] by {
                        assert(self.subs@[j] == old(self).subs@[j] || self.subs@[j]@ == before[j]);
                    }
                    assert(self.view_subs()[i as int] == after_publish(orig[i as int], event));
                }
            } else {
                proof {
                    assert(self.view_subs()[i as int] == after_publish(orig[i as int], event));
                }
            }
            i = i + 1;
        }
        proof {
            let subs = self.view_subs();
            assert(unique_sub_ids(subs)) by {
                assert forall|a: int, b: int|
                    #![trigger subs[a], subs[b]]
                    0 <= a < b < subs.len() implies subs[a].id != subs[b].id by {
                    assert(subs[a] == after_publish(orig[a], event));
                    assert(subs[b] == after_publish(orig[b], event));
                }
            }
        }
    }

    /// Takes the oldest undelivered event of one subscription, if any.
    pub fn poll(&mut self, id: u64) -> (r: Option<CourierStatus>)
        requires
            old(self).wf(),
        ensures
            final(self).wf(),
            final(self).next_id == old(self).next_id,
            !has_sub(old(self).view_subs(), id) ==> r is None && final(self).view_subs() == old(
                self,
            ).view_subs(),
            has_sub(old(self).view_subs(), id) ==> {
                let pos = sub_pos(old(self).view_subs(), id);
                let sub = old(self).view_subs()[pos];
                if sub.pending.len() == 0 {
                    r is None && final(self).view_subs() == old(self).view_subs()
                } else {
                    r == Some(sub.pending[0]) && final(self).view_subs() == old(
                        self,
                    ).view_subs().update(
                        pos,
                        (SubscriptionView { pending: sub.pending.drop_first(), ..sub }),
                    )
                }
            },
    {
        let ghost orig = self.view_subs();
        let n = self.subs.len();
        let mut i: usize = 0;
        while i < n
            invariant
                n == self.subs@.len(),
                self.view_subs() == orig,
                old(self).view_subs() == orig,
                *self == *old(self),
                old(self).wf(),
                unique_sub_ids(orig),
                0 <= i <= n,
                forall|j: int| 0 <= j < i ==> (#[trigger] orig[j]).id != id,
            decreases n - i,
        {
            if self.subs[i].id == id {
                proof {
                    assert(orig[i as int] == self.subs@[i as int]@);
                    assert(orig[i as int].id == id);
                    assert(has_sub(orig, id));
                    let k = sub_pos(orig, id);
                    assert(0 <= k < orig.len() && orig[k].id == id);
                    assert(k == i as int) by {
                        if k < i as int {
                            assert(orig[k].id != id);
                        } else if k > i as int {
                            assert(orig[i as int].id != orig[k].id);
                        }
                    }
                }
                if self.subs[i].pending.len() == 0 {
                    return None;
                }
                let ev = self.subs[i].pending.remove(0);
                proof {
                    let pos = sub_pos(orig, id);
                    assert(self.view_subs() =~= orig.update(
                        pos,
                        (SubscriptionView { pending: orig[pos].pending.drop_first(), ..orig[pos] }),
                    ));
                    assert(orig[pos].pending.drop_first() =~= orig[pos].pending.remove(0));
                    let subs = self.view_subs();
                    assert(unique_sub_ids(subs)) by {
                        assert forall|a: int, b: int|
                            #![trigger subs[a], subs[b]]
                            0 <= a < b < subs.len() implies subs[a].id != subs[b].id by {
                            assert(subs[a].id == orig[a].id);
                            assert(subs[b].id == orig[b].id);
                        }
                    }
                }
                return Some(ev);
            }
            i = i + 1;
        }
        None
    }
}

impl Subscription {
    /// A field-for-field copy.
    pub fn duplicate(&self) -> (r: Subscription)
        ensures
            r@ == self@,
    {
        let mut pending: Vec<CourierStatus> = Vec::new();
        let n = self.pending.len();
        let mut i: usize = 0;
        while i < n
            invariant
                n == self.pending@.len(),
                0 <= i <= n,
                pending@ == self.pending@.take(i as int),
            decreases n - i,
        {
            pending.push(self.pending[i]);
            proof {
                assert(self.pending@.take(i as int).push(self.pending@[i as int]) =~= self.pending@
                    .take(i as int + 1));
            }
            i = i + 1;
        }
        proof {
            assert(self.pending@.take(n as int) =~= self.pending@);
        }
        Subscription { id: self.id, user_uuid: self.user_uuid, pending }
    }
}

/// The subscription surface: opening the courier-status stream for a user
/// registers a broker subscription keyed to that user; the transport layer
/// drains it and closes it on disconnect.
pub struct SubscriptionRoot {}

impl SubscriptionRoot {
    /// Opens the live courier-status stream of one user.
    pub fn orders(&self, broker: &mut NotificationBroker, user_uuid: u128) -> (id: u64)
        requires
            old(broker).wf(),
            old(broker).next_id < u64::MAX,
        ensures
            final(broker).wf(),
            final(broker).view_subs().len() == old(broker).view_subs().len() + 1,
            final(broker).view_subs().drop_last() == old(broker).view_subs(),
            final(broker).view_subs().last() == (SubscriptionView {
                id,
                user_uuid,
                pending: Seq::<CourierStatus>::empty(),
            }),
            !has_sub(old(broker).view_subs(), id),
    {
        broker.subscribe(user_uuid)
    }
}

} // verus!
