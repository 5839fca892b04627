//! The broadcast hub: one stream of events, handed to any number of
//! subscribers, each of which reads at its own pace from a queue of its own.

use std::collections::VecDeque;
use std::sync::Arc;
use vstd::prelude::*;

verus! {

/// One registered subscriber: its queue of events that it has yet to read,
/// and whether its reader still listens.
pub struct Subscriber<T> {
    pub id: u64,
    pub queue: VecDeque<Arc<T>>,
    pub open: bool,
}

/// The mathematical value of a [`Subscriber`].
pub struct SubscriberView<T> {
    pub queue: Seq<T>,
    pub open: bool,
}

impl<T> View for Subscriber<T> {
    type V = SubscriberView<T>;

    open spec fn view(&self) -> SubscriberView<T> {
        SubscriberView {
            queue: Seq::new(self.queue@.len(), |i: int| *self.queue@[i]),
            open: self.open,
        }
    }
}

/// The publishing side of a hub, which holds the queues of all subscribers.
pub struct Hub<T> {
    pub subscribers: Vec<Subscriber<T>>,
    pub issued: u64,
    pub closed: bool,
}

/// A subscription to a hub. It is not copied: a second reader asks the hub
/// for a subscription of its own.
#[derive(Debug, PartialEq, Eq)]
pub struct MultiRecv {
    pub id: u64,
}

/// What a subscriber gets when it asks for its next event.
#[derive(Debug)]
pub enum Received<T> {
    /// The next event.
    Event(Arc<T>),
    /// Nothing has been published since the last one.
    Empty,
    /// The stream has ended: nothing is left and nothing will come.
    End,
}

/// The mathematical value of a [`Hub`]: the registered subscribers by the
/// number of their subscription, how many subscriptions have been handed
/// out, and whether the publisher has closed the hub.
pub struct HubView<T> {
    pub subscribers: Map<u64, SubscriberView<T>>,
    pub issued: nat,
    pub closed: bool,
}

impl<T> HubView<T> {
    /// The hub after `event` has been published. Every subscriber whose
    /// reader listens gets the event at the end of its queue; one whose
    /// reader is gone is dropped. A closed hub takes nothing.
    pub open spec fn published(self, event: T) -> HubView<T> {
        if self.closed {
            self
        } else {
            HubView {
                subscribers: Map::new(
                    |id: u64| self.subscribers.contains_key(id) && self.subscribers[id].open,
                    |id: u64|
                        SubscriberView {
                            queue: self.subscribers[id].queue.push(event),
                            open: true,
                        },
                ),
                issued: self.issued,
                closed: false,
            }
        }
    }

    /// The hub after a subscription has been handed out. Its number is the
    /// count of those handed out before. It starts with an empty queue; on
    /// a closed hub it is not registered at all.
    pub open spec fn subscribed(self) -> HubView<T> {
        HubView {
            subscribers: if self.closed {
                self.subscribers
            } else {
                self.subscribers.insert(
                    self.issued as u64,
                    SubscriberView { queue: Seq::empty(), open: true },
                )
            },
            issued: self.issued + 1,
            closed: self.closed,
        }
    }

    /// Whether subscription `id` has an event to read.
    pub open spec fn has_event(self, id: u64) -> bool {
        self.subscribers.contains_key(id) && self.subscribers[id].queue.len() > 0
    }

    /// Whether subscription `id` has come to the end of its stream: it has
    /// nothing to read, and the hub is closed or does not know it.
    pub open spec fn at_end(self, id: u64) -> bool {
        !self.has_event(id) && (self.closed || !self.subscribers.contains_key(id))
    }

    /// The hub after subscription `id` has read its next event, where it
    /// has one.
    pub open spec fn received(self, id: u64) -> HubView<T> {
        if self.has_event(id) {
            HubView {
                subscribers: self.subscribers.insert(
                    id,
                    SubscriberView {
                        queue: self.subscribers[id].queue.drop_first(),
                        open: self.subscribers[id].open,
                    },
                ),
                issued: self.issued,
                closed: self.closed,
            }
        } else {
            self
        }
    }

    /// The hub after the reader of subscription `id` has gone.
    pub open spec fn unsubscribed(self, id: u64) -> HubView<T> {
        if self.subscribers.contains_key(id) {
            HubView {
                subscribers: self.subscribers.insert(
                    id,
                    SubscriberView { queue: self.subscribers[id].queue, open: false },
                ),
                issued: self.issued,
                closed: self.closed,
            }
        } else {
            self
        }
    }

    /// The hub after the publisher has closed it.
    pub open spec fn shut(self) -> HubView<T> {
        HubView { subscribers: self.subscribers, issued: self.issued, closed: true }
    }
}

impl<T> HubView<T> {
    /// The hub after all of `events` have been published, one after the
    /// other.
    pub open spec fn published_all(self, events: Seq<T>) -> HubView<T>
        decreases events.len(),
    {
        if events.len() == 0 {
            self
        } else {
            self.published_all(events.drop_last()).published(events.last())
        }
    }

    /// The hub after subscription `id` has read `count` times.
    pub open spec fn received_times(self, id: u64, count: nat) -> HubView<T>
        decreases count,
    {
        if count == 0 {
            self
        } else {
            self.received_times(id, (count - 1) as nat).received(id)
        }
    }

    /// Whether subscription `id` is registered and its reader listens.
    pub open spec fn listens(self, id: u64) -> bool {
        self.subscribers.contains_key(id) && self.subscribers[id].open
    }

    /// On an open hub a subscriber whose reader listens gets every event
    /// that is published, behind what its queue holds, in the order of
    /// publishing. Nothing is asked of the other subscribers.
    pub proof fn lemma_published_all(self, id: u64, events: Seq<T>)
        requires
            !self.closed,
            self.listens(id),
        ensures
            !self.published_all(events).closed,
            self.published_all(events).issued == self.issued,
            self.published_all(events).listens(id),
            self.published_all(events).subscribers[id].queue == self.subscribers[id].queue
                + events,
        decreases events.len(),
    {
        if events.len() == 0 {
            assert(self.subscribers[id].queue + events =~= self.subscribers[id].queue);
        } else {
            self.lemma_published_all(id, events.drop_last());
            assert((self.subscribers[id].queue + events.drop_last()).push(events.last())
                =~= self.subscribers[id].queue + events);
        }
    }

    /// Reading `count` times takes the first `count` events off the queue
    /// of a subscription and leaves the rest.
    pub proof fn lemma_received_times(self, id: u64, count: nat)
        requires
            self.subscribers.contains_key(id),
            count <= self.subscribers[id].queue.len(),
        ensures
            self.received_times(id, count).subscribers.contains_key(id),
            self.received_times(id, count).subscribers[id].queue
                == self.subscribers[id].queue.skip(count as int),
            self.received_times(id, count).closed == self.closed,
        decreases count,
    {
        if count == 0 {
            assert(self.subscribers[id].queue.skip(0) =~= self.subscribers[id].queue);
        } else {
            self.lemma_received_times(id, (count - 1) as nat);
            assert(self.subscribers[id].queue.skip(count - 1).drop_first()
                =~= self.subscribers[id].queue.skip(count as int));
        }
    }

    /// Hub ordering: a subscription that was made before a run of publishes
    /// observes exactly the published events, in their order. Its `k`-th
    /// read gives the `k`-th event, and after as many reads as there were
    /// events nothing is left.
    pub proof fn lemma_hub_ordering(self, events: Seq<T>, k: nat)
        requires
            !self.closed,
            self.issued <= u64::MAX,
        ensures
            self.subscribed().published_all(events).subscribers.contains_key(self.issued as u64),
            self.subscribed().published_all(events).subscribers[self.issued as u64].queue
                == events,
            k < events.len() ==> {
                let before_read = self.subscribed().published_all(events).received_times(
                    self.issued as u64,
                    k,
                );
                before_read.has_event(self.issued as u64)
                    && before_read.subscribers[self.issued as u64].queue[0] == events[k as int]
            },
            !self.subscribed().published_all(events).received_times(
                self.issued as u64,
                events.len(),
            ).has_event(self.issued as u64),
    {
        let id = self.issued as u64;
        let start = self.subscribed();
        start.lemma_published_all(id, events);
        let full = start.published_all(events);
        assert(Seq::<T>::empty() + events =~= events);
        if k < events.len() {
            full.lemma_received_times(id, k);
        }
        full.lemma_received_times(id, events.len());
    }

    /// Hub isolation: a subscription that was made after some events had
    /// been published observes none of them, only those published after it.
    pub proof fn lemma_hub_isolation(self, earlier: Seq<T>, later: Seq<T>)
        requires
            !self.closed,
            self.issued <= u64::MAX,
        ensures
            self.published_all(earlier).subscribed().subscribers[self.issued as u64].queue
                == Seq::<T>::empty(),
            self.published_all(earlier).subscribed().published_all(later).subscribers[self.issued as u64].queue
                == later,
    {
        self.lemma_published_all_keeps(earlier);
        let id = self.issued as u64;
        let start = self.published_all(earlier).subscribed();
        start.lemma_published_all(id, later);
        assert(Seq::<T>::empty() + later =~= later);
    }

    /// Publishing neither closes a hub nor hands out subscriptions.
    pub proof fn lemma_published_all_keeps(self, events: Seq<T>)
        ensures
            self.published_all(events).closed == self.closed,
            self.published_all(events).issued == self.issued,
        decreases events.len(),
    {
        if events.len() > 0 {
            self.lemma_published_all_keeps(events.drop_last());
        }
    }

    /// Hub resilience: a subscriber that never reads does not keep another
    /// from getting what is published. Whatever the queue of `stalled`
    /// holds, and however long it grows, `other` gets every event.
    pub proof fn lemma_hub_resilience(self, stalled: u64, other: u64, events: Seq<T>)
        requires
            !self.closed,
            self.listens(stalled),
            self.listens(other),
            stalled != other,
        ensures
            self.published_all(events).subscribers[stalled].queue == self.subscribers[stalled].queue
                + events,
            self.published_all(events).listens(other),
            self.published_all(events).subscribers[other].queue == self.subscribers[other].queue
                + events,
    {
        self.lemma_published_all(stalled, events);
        self.lemma_published_all(other, events);
    }
}

/// One thing that can happen to a hub.
pub enum HubOp<T> {
    /// An event is published.
    Publish(T),
    /// A subscription is handed out.
    Subscribe,
    /// A subscription reads its next event.
    Read(u64),
    /// The reader of a subscription goes.
    Leave(u64),
}

impl<T> HubOp<T> {
    /// Whether this is the leaving of subscription `id`.
    pub open spec fn leaves(self, id: u64) -> bool {
        match self {
            HubOp::Leave(who) => who == id,
            _ => false,
        }
    }

    /// Whether this is a read of subscription `id`.
    pub open spec fn reads(self, id: u64) -> bool {
        match self {
            HubOp::Read(who) => who == id,
            _ => false,
        }
    }
}

/// The events that a run of operations publishes, in their order.
pub open spec fn published_by<T>(ops: Seq<HubOp<T>>) -> Seq<T>
    decreases ops.len(),
{
    if ops.len() == 0 {
        Seq::empty()
    } else {
        match ops.last() {
            HubOp::Publish(event) => published_by(ops.drop_last()).push(event),
            _ => published_by(ops.drop_last()),
        }
    }
}

impl<T> HubView<T> {
    /// The hub after one operation.
    pub open spec fn after(self, op: HubOp<T>) -> HubView<T> {
        match op {
            HubOp::Publish(event) => self.published(event),
            HubOp::Subscribe => self.subscribed(),
            HubOp::Read(id) => self.received(id),
            HubOp::Leave(id) => self.unsubscribed(id),
        }
    }

    /// The hub after a run of operations.
    pub open spec fn after_all(self, ops: Seq<HubOp<T>>) -> HubView<T>
        decreases ops.len(),
    {
        if ops.len() == 0 {
            self
        } else {
            self.after_all(ops.drop_last()).after(ops.last())
        }
    }

    /// The events that subscription `id` reads in the course of a run of
    /// operations, in the order in which it reads them.
    pub open spec fn read_by(self, ops: Seq<HubOp<T>>, id: u64) -> Seq<T>
        decreases ops.len(),
    {
        if ops.len() == 0 {
            Seq::empty()
        } else {
            let before = self.after_all(ops.drop_last());
            if ops.last().reads(id) && before.has_event(id) {
                self.read_by(ops.drop_last(), id).push(before.subscribers[id].queue[0])
            } else {
                self.read_by(ops.drop_last(), id)
            }
        }
    }

    /// Delivery: whatever happens to an open hub, and in whatever order, a
    /// subscriber that stays gets each published event once and in the
    /// order of publishing. What it has read, followed by what its queue
    /// holds, is what its queue held at the start followed by all that was
    /// published since. The other subscribers may come, read, stall or go
    /// as they please.
    pub proof fn lemma_hub_delivery(self, ops: Seq<HubOp<T>>, id: u64)
        requires
            !self.closed,
            self.listens(id),
            id < self.issued,
            self.issued + ops.len() <= u64::MAX,
            forall|i: int| 0 <= i < ops.len() ==> !(#[trigger] ops[i]).leaves(id),
        ensures
            !self.after_all(ops).closed,
            self.after_all(ops).listens(id),
            self.issued <= self.after_all(ops).issued <= self.issued + ops.len(),
            self.read_by(ops, id) + self.after_all(ops).subscribers[id].queue
                == self.subscribers[id].queue + published_by(ops),
        decreases ops.len(),
    {
        let start = self.subscribers[id].queue;
        if ops.len() == 0 {
            assert(self.read_by(ops, id) + start =~= start + published_by(ops));
        } else {
            let earlier = ops.drop_last();
            assert forall|i: int| 0 <= i < earlier.len() implies !(#[trigger] earlier[i]).leaves(
                id,
            ) by {
                assert(earlier[i] == ops[i]);
            }
            self.lemma_hub_delivery(earlier, id);
            let before = self.after_all(earlier);
            let after = self.after_all(ops);
            let read = self.read_by(earlier, id);
            let queue = before.subscribers[id].queue;
            assert(!ops[ops.len() - 1].leaves(id));
            match ops.last() {
                HubOp::Publish(event) => {
                    assert(read + queue.push(event) =~= (read + queue).push(event));
                    assert((start + published_by(earlier)).push(event) =~= start + published_by(
                        ops,
                    ));
                },
                HubOp::Subscribe => {
                    assert(before.issued as u64 != id);
                },
                HubOp::Read(who) => {
                    if who == id && before.has_event(id) {
                        assert(read.push(queue[0]) + queue.drop_first() =~= read + queue);
                    }
                },
                HubOp::Leave(who) => {},
            }
        }
    }
}

impl<T> Hub<T> {
    /// Position `i` holds the subscriber of subscription `id`.
    pub open spec fn holds(&self, i: int, id: u64) -> bool {
        0 <= i < self.subscribers@.len() && self.subscribers@[i].id == id
    }

    /// The subscribers stand in the order of their subscriptions, and each
    /// subscription has been handed out.
    pub open spec fn wf(&self) -> bool {
        &&& forall|i: int, j: int|
            0 <= i < j < self.subscribers@.len() ==> (#[trigger] self.subscribers@[i]).id < (
            #[trigger] self.subscribers@[j]).id
        &&& forall|i: int|
            0 <= i < self.subscribers@.len() ==> (#[trigger] self.subscribers@[i]).id < self.issued
    }

    /// The mathematical value of the hub.
    pub open spec fn view(&self) -> HubView<T> {
        HubView {
            subscribers: Map::new(
                |id: u64| exists|i: int| self.holds(i, id),
                |id: u64| self.subscribers@[choose|i: int| self.holds(i, id)]@,
            ),
            issued: self.issued as nat,
            closed: self.closed,
        }
    }

    /// In a well-formed hub a subscription has one position.
    pub proof fn lemma_position(&self, i: int, id: u64)
        requires
            self.wf(),
            self.holds(i, id),
        ensures
            self@.subscribers.contains_key(id),
            self@.subscribers[id] == self.subscribers@[i]@,
    {
        let j = choose|j: int| self.holds(j, id);
        if i < j {
            assert(self.subscribers@[i].id < self.subscribers@[j].id);
        } else if j < i {
            assert(self.subscribers@[j].id < self.subscribers@[i].id);
        }
    }

    /// Two hubs whose subscribers agree position by position in their
    /// subscriptions register the same subscriptions, and each stands for
    /// the subscriber at its position.
    pub proof fn lemma_same_subscriptions(&self, other: &Hub<T>)
        requires
            self.wf(),
            other.issued >= self.issued,
            other.subscribers@.len() == self.subscribers@.len(),
            forall|k: int|
                0 <= k < self.subscribers@.len() ==> (#[trigger] other.subscribers@[k]).id
                    == self.subscribers@[k].id,
        ensures
            other.wf(),
            forall|id: u64|
                self@.subscribers.contains_key(id) == #[trigger] other@.subscribers.contains_key(id),
            forall|k: int|
                0 <= k < self.subscribers@.len() ==> {
                    &&& self@.subscribers.contains_key(#[trigger] self.subscribers@[k].id)
                    &&& self@.subscribers[self.subscribers@[k].id] == self.subscribers@[k]@
                    &&& other@.subscribers[self.subscribers@[k].id] == other.subscribers@[k]@
                },
    {
        assert(other.wf()) by {
            assert forall|i: int, j: int| 0 <= i < j < other.subscribers@.len() implies (
            #[trigger] other.subscribers@[i]).id < (#[trigger] other.subscribers@[j]).id by {
                assert(self.subscribers@[i].id < self.subscribers@[j].id);
            }
            assert forall|i: int| 0 <= i < other.subscribers@.len() implies (
            #[trigger] other.subscribers@[i]).id < other.issued by {
                assert(self.subscribers@[i].id < self.issued);
            }
        }
        assert forall|id: u64|
            self@.subscribers.contains_key(id) == #[trigger] other@.subscribers.contains_key(
                id,
            ) by {
            if self@.subscribers.contains_key(id) {
                let k = choose|k: int| self.holds(k, id);
                assert(other.holds(k, id));
            }
            if other@.subscribers.contains_key(id) {
                let k = choose|k: int| other.holds(k, id);
                assert(self.holds(k, id));
            }
        }
        assert forall|k: int| 0 <= k < self.subscribers@.len() implies {
            &&& self@.subscribers.contains_key(#[trigger] self.subscribers@[k].id)
            &&& self@.subscribers[self.subscribers@[k].id] == self.subscribers@[k]@
            &&& other@.subscribers[self.subscribers@[k].id] == other.subscribers@[k]@
        } by {
            let id = self.subscribers@[k].id;
            assert(self.holds(k, id));
            assert(other.holds(k, id));
            self.lemma_position(k, id);
            other.lemma_position(k, id);
        }
    }

    /// The position of subscription `id`, if it is registered.
    pub fn find(&self, id: u64) -> (r: Option<usize>)
        requires
            self.wf(),
        ensures
            match r {
                Some(i) => self.holds(i as int, id),
                None => !self@.subscribers.contains_key(id),
            },
    {
        let mut i: usize = 0;
        while i < self.subscribers.len()
            invariant
                i <= self.subscribers@.len(),
                forall|j: int| 0 <= j < i ==> self.subscribers@[j].id != id,
            decreases self.subscribers@.len() - i,
        {
            if self.subscribers[i].id == id {
                return Some(i);
            }
            i += 1;
        }
        None
    }

    /// Publishes `event` to every subscriber whose reader listens, and
    /// drops the others. Says whether the hub took the event: a closed hub
    /// takes none.
    pub fn publish(&mut self, event: T) -> (taken: bool)
        requires
            old(self).wf(),
        ensures
            final(self).wf(),
            final(self)@ == old(self)@.published(event),
            taken == !old(self)@.closed,
    {
        if self.closed {
            return false;
        }
        let shared = Arc::new(event);
        let ghost before = *self;
        let ghost mut origin: Seq<int> = Seq::empty();
        let ghost mut kept_at: Seq<int> = Seq::empty();
        let mut i: usize = 0;
        while i < self.subscribers.len()
            invariant
                before.wf(),
                !before.closed,
                self.issued == before.issued,
                self.closed == before.closed,
                *shared == event,
                origin.len() == i,
                i <= self.subscribers@.len(),
                kept_at.len() <= before.subscribers@.len(),
                self.subscribers@.len() - i == before.subscribers@.len() - kept_at.len(),
                forall|k: int|
                    i <= k < self.subscribers@.len() ==> #[trigger] self.subscribers@[k]
                        == before.subscribers@[k + kept_at.len() - i],
                forall|k: int|
                    0 <= k < i ==> {
                        &&& 0 <= #[trigger] origin[k] < kept_at.len()
                        &&& kept_at[origin[k]] == k
                        &&& before.subscribers@[origin[k]].open
                        &&& self.subscribers@[k].id == before.subscribers@[origin[k]].id
                        &&& self.subscribers@[k]@ == (SubscriberView {
                            queue: before.subscribers@[origin[k]]@.queue.push(event),
                            open: true,
                        })
                    },
                forall|m: int|
                    0 <= m < kept_at.len() && before.subscribers@[m].open ==> 0 <= #[trigger] kept_at[m]
                        < i && origin[kept_at[m]] == m,
                forall|a: int, b: int| 0 <= a < b < i ==> #[trigger] origin[a] < #[trigger] origin[b],
            decreases self.subscribers@.len() - i,
        {
            let ghost m = kept_at.len() as int;
            assert(self.subscribers@[i as int] == before.subscribers@[m]);
            if self.subscribers[i].open {
                self.subscribers[i].queue.push_back(shared.clone());
                proof {
                    assert(self.subscribers@[i as int]@.queue =~= before.subscribers@[m]@.queue.push(
                        event,
                    ));
                    origin = origin.push(m);
                    kept_at = kept_at.push(i as int);
                }
                i += 1;
            } else {
                self.subscribers.remove(i);
                proof {
                    kept_at = kept_at.push(-1);
                }
            }
        }
        proof {
            assert(self.wf()) by {
                assert forall|a: int, b: int| 0 <= a < b < self.subscribers@.len() implies (
                #[trigger] self.subscribers@[a]).id < (#[trigger] self.subscribers@[b]).id by {
                    assert(origin[a] < origin[b]);
                }
                assert forall|a: int| 0 <= a < self.subscribers@.len() implies (
                #[trigger] self.subscribers@[a]).id < self.issued by {
                    assert(0 <= origin[a] < kept_at.len());
                }
            }
            let goal = before@.published(event);
            assert forall|id: u64| #[trigger]
                self@.subscribers.contains_key(id) == goal.subscribers.contains_key(id) by {
                if self@.subscribers.contains_key(id) {
                    let k = choose|k: int| self.holds(k, id);
                    assert(before.holds(origin[k], id));
                    before.lemma_position(origin[k], id);
                }
                if goal.subscribers.contains_key(id) {
                    let m = choose|m: int| before.holds(m, id);
                    before.lemma_position(m, id);
                    assert(self.holds(kept_at[m], id));
                }
            }
            assert forall|id: u64| #[trigger] self@.subscribers.contains_key(id) implies self@.subscribers[id]
                == goal.subscribers[id] by {
                let k = choose|k: int| self.holds(k, id);
                self.lemma_position(k, id);
                assert(before.holds(origin[k], id));
                before.lemma_position(origin[k], id);
            }
            assert(self@.subscribers =~= goal.subscribers);
        }
        true
    }

    /// Hands out a new subscription. It gets what is published from now on,
    /// and nothing of what was published before. On a closed hub it is at
    /// the end of its stream from the start.
    pub fn subscribe(&mut self) -> (subscription: MultiRecv)
        requires
            old(self).wf(),
            old(self)@.issued < u64::MAX,
        ensures
            final(self).wf(),
            final(self)@ == old(self)@.subscribed(),
            subscription.id == old(self)@.issued,
    {
        let ghost before = *self;
        let id = self.issued;
        self.issued = id + 1;
        if !self.closed {
            self.subscribers.push(Subscriber { id, queue: VecDeque::new(), open: true });
        }
        proof {
            let goal = before@.subscribed();
            let last = self.subscribers@.len() - 1;
            assert forall|x: u64| #[trigger]
                self@.subscribers.contains_key(x) == goal.subscribers.contains_key(x) by {
                if self@.subscribers.contains_key(x) {
                    let k = choose|k: int| self.holds(k, x);
                    if before.closed || k < last {
                        assert(before.holds(k, x));
                    }
                }
                if before@.subscribers.contains_key(x) {
                    let k = choose|k: int| before.holds(k, x);
                    assert(self.holds(k, x));
                }
                if !before.closed && x == id {
                    assert(self.holds(last, x));
                }
            }
            assert forall|x: u64| #[trigger] self@.subscribers.contains_key(x) implies self@.subscribers[x]
                == goal.subscribers[x] by {
                let k = choose|k: int| self.holds(k, x);
                self.lemma_position(k, x);
                if before.closed || k < last {
                    assert(before.holds(k, x));
                    before.lemma_position(k, x);
                } else {
                    assert(self.subscribers@[k]@.queue =~= Seq::empty());
                }
            }
            assert(self@.subscribers =~= goal.subscribers);
        }
        MultiRecv { id }
    }

    /// The next event of a subscription. The events come in the order in
    /// which they were published, each once.
    pub fn recv(&mut self, subscription: &MultiRecv) -> (r: Received<T>)
        requires
            old(self).wf(),
        ensures
            final(self).wf(),
            final(self)@ == old(self)@.received(subscription.id),
            match r {
                Received::Event(event) => old(self)@.has_event(subscription.id) && *event == old(
                    self,
                )@.subscribers[subscription.id].queue[0],
                Received::Empty => !old(self)@.has_event(subscription.id) && !old(self)@.at_end(
                    subscription.id,
                ),
                Received::End => old(self)@.at_end(subscription.id),
            },
    {
        let ghost before = *self;
        let id = subscription.id;
        let i = match self.find(id) {
            Some(i) => i,
            None => {
                return Received::End;
            },
        };
        proof {
            before.lemma_position(i as int, id);
        }
        let next = self.subscribers[i].queue.pop_front();
        proof {
            let goal = before@.received(id);
            before.lemma_same_subscriptions(self);
            if next.is_some() {
                assert(self.subscribers@[i as int]@.queue
                    =~= before.subscribers@[i as int]@.queue.drop_first());
            } else {
                assert(self.subscribers@[i as int]@.queue =~= before.subscribers@[i as int]@.queue);
            }
            assert forall|x: u64| #[trigger] self@.subscribers.contains_key(x) implies self@.subscribers[x]
                == goal.subscribers[x] by {
                let k = choose|k: int| self.holds(k, x);
                assert(self.subscribers@[k].id == before.subscribers@[k].id);
            }
            assert(self@.subscribers =~= goal.subscribers);
        }
        match next {
            Some(event) => Received::Event(event),
            None => {
                if self.closed {
                    Received::End
                } else {
                    Received::Empty
                }
            },
        }
    }

    /// Takes note that the reader of a subscription is gone. Its queue is
    /// dropped at the next publish.
    pub fn unsubscribe(&mut self, subscription: MultiRecv)
        requires
            old(self).wf(),
        ensures
            final(self).wf(),
            final(self)@ == old(self)@.unsubscribed(subscription.id),
    {
        let ghost before = *self;
        let id = subscription.id;
        match self.find(id) {
            Some(i) => {
                proof {
                    before.lemma_position(i as int, id);
                }
                self.subscribers[i].open = false;
                proof {
                    let goal = before@.unsubscribed(id);
                    before.lemma_same_subscriptions(self);
                    assert(self.subscribers@[i as int]@.queue =~= before.subscribers@[i as int]@.queue);
                    assert forall|x: u64| #[trigger]
                        self@.subscribers.contains_key(x) implies self@.subscribers[x]
                        == goal.subscribers[x] by {
                        let k = choose|k: int| self.holds(k, x);
                        assert(self.subscribers@[k].id == before.subscribers@[k].id);
                    }
                    assert(self@.subscribers =~= goal.subscribers);
                }
            },
            None => {},
        }
    }

    /// Closes the hub: the publisher is gone. Every subscription comes to
    /// the end of its stream once it has read what its queue still holds.
    pub fn close(&mut self)
        requires
            old(self).wf(),
        ensures
            final(self).wf(),
            final(self)@ == old(self)@.shut(),
    {
        let ghost before = *self;
        self.closed = true;
        proof {
            before.lemma_same_subscriptions(self);
            assert forall|x: u64| #[trigger] self@.subscribers.contains_key(x) implies self@.subscribers[x]
                == before@.subscribers[x] by {
                let k = choose|k: int| self.holds(k, x);
                assert(self.subscribers@[k].id == before.subscribers@[k].id);
            }
            assert(self@.subscribers =~= before@.subscribers);
        }
    }
}

impl MultiRecv {
    /// A new hub, with its first subscription.
    pub fn new<T>() -> (r: (Hub<T>, MultiRecv))
        ensures
            r.0.wf(),
            r.0@ == (HubView::<T> { subscribers: Map::empty(), issued: 0, closed: false }).subscribed(),
            r.1.id == 0,
    {
        let mut hub = Hub { subscribers: Vec::new(), issued: 0, closed: false };
        assert(hub@.subscribers =~= Map::<u64, SubscriberView<T>>::empty());
        let subscription = hub.subscribe();
        (hub, subscription)
    }
}

} // verus!
