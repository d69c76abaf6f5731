//! The publisher: the subscribers' queues, what posting and sending an event
//! does to them, and what a subscriber's poll hands out.

use std::any::TypeId;
use std::marker::PhantomData;
use std::sync::Arc;
use std::task::Waker;

use futures::channel::oneshot::Receiver;
use vstd::prelude::*;

use crate::event::{arc_clone, erase, poll_release, release_channel, type_id_of, Event, EventBox};
use crate::event_queue::{
    empty_queue, queue_clear, queue_detach, queue_front, queue_pop, queue_put, EventBoxQueue,
    QueueState,
};
use crate::registry::{
    alive_count, is_first_free, lemma_alive_count_push, lemma_alive_count_take,
    lemma_alive_count_update,
};
use crate::task::Poll;

verus! {

/// The state of one subscriber slot: the state of the live subscriber's
/// queue, or nothing once the subscriber has gone.
pub open spec fn slot_state<E>(slot: Option<(EventBoxQueue<E>, Arc<SubscriptionToken>)>) -> Option<QueueState<E>> {
    match slot {
        Some(taken) => Some(taken.0@),
        None => None,
    }
}

/// `after` is `before` with some subscriptions, whose handles were dropped,
/// freed.
pub open spec fn is_swept<E>(before: Seq<Option<QueueState<E>>>, after: Seq<Option<QueueState<E>>>) -> bool {
    &&& after.len() == before.len()
    &&& forall|i: int| 0 <= i < before.len() ==> #[trigger] after[i] == before[i] || after[i] is None
}

/// The slots after those whose token has no holder but the slot itself are
/// freed; `holders` gives the count of each slot's token, by slot.
pub open spec fn free_released_slots<E>(slots: Seq<Option<QueueState<E>>>, holders: Seq<usize>) -> Seq<Option<QueueState<E>>> {
    Seq::new(slots.len(), |i: int| if i < holders.len() && holders[i] <= 1 { None } else { slots[i] })
}

/// Every live subscriber's queue after `event` is put into it.
pub open spec fn broadcast<E>(slots: Seq<Option<QueueState<E>>>, event: E) -> Seq<Option<QueueState<E>>> {
    slots.map_values(|slot: Option<QueueState<E>>| match slot {
        Some(q) => Some(queue_put(q, event)),
        None => None,
    })
}

/// Every live subscriber's queue after its pending events are dropped.
pub open spec fn clear_all<E>(slots: Seq<Option<QueueState<E>>>) -> Seq<Option<QueueState<E>>> {
    slots.map_values(|slot: Option<QueueState<E>>| match slot {
        Some(q) => Some(queue_clear(q)),
        None => None,
    })
}

/// Every live subscriber's queue after the publisher has gone.
pub open spec fn detach_all<E>(slots: Seq<Option<QueueState<E>>>) -> Seq<Option<QueueState<E>>> {
    slots.map_values(|slot: Option<QueueState<E>>| match slot {
        Some(q) => Some(queue_detach(q)),
        None => None,
    })
}

/// The slots after a subscriber is added at `slot`.
pub open spec fn add_at<E>(slots: Seq<Option<QueueState<E>>>, slot: int, q: QueueState<E>) -> Seq<Option<QueueState<E>>> {
    if slot < slots.len() {
        slots.update(slot, Some(q))
    } else {
        slots.push(Some(q))
    }
}

/// What polling a subscriber's queue hands out: its oldest event, or the end
/// of the stream once the publisher is gone and nothing is left; nothing yet
/// while the publisher lives and nothing is pending.
pub open spec fn poll_outcome<E>(q: QueueState<E>) -> Poll<Option<E>> {
    if q.detached || q.events.len() > 0 {
        Poll::Ready(queue_front(q))
    } else {
        Poll::Pending
    }
}

/// The queue after a poll by the task that `waker` wakes: its oldest event
/// taken, or that task registered to wait, in place of any task before it.
pub open spec fn poll_queue<E>(q: QueueState<E>, waker: Waker) -> QueueState<E> {
    if q.detached || q.events.len() > 0 {
        queue_pop(q)
    } else {
        QueueState { waker: Some(waker), ..q }
    }
}

/// What a subscription handle shares with its slot: the slot counts as
/// taken while a handle besides the slot's own holds the token.
pub struct SubscriptionToken {}

/// Calls `Arc::strong_count`: the number of handles to the token that exist
/// now. The argument is one of them, so there is at least one; how many more
/// depends on what other tasks hold.
#[verifier::external_body]
fn holders(token: &Arc<SubscriptionToken>) -> (n: usize)
    ensures
        n >= 1,
{
    Arc::strong_count(token)
}

/// The queues of all subscribers, by slot; a slot is freed when its
/// subscriber goes away and is given to the next new one.
pub struct EventBoxQueues<EVT: Send + Sync + 'static> {
    slots: Vec<Option<(EventBoxQueue<Event<EVT>>, Arc<SubscriptionToken>)>>,
}

impl<EVT: Send + Sync + 'static> View for EventBoxQueues<EVT> {
    type V = Seq<Option<QueueState<Event<EVT>>>>;

    closed spec fn view(&self) -> Seq<Option<QueueState<Event<EVT>>>> {
        self.slots@.map_values(|slot: Option<(EventBoxQueue<Event<EVT>>, Arc<SubscriptionToken>)>| slot_state(slot))
    }
}

impl<EVT: Send + Sync + 'static> EventBoxQueues<EVT> {
    pub fn new() -> (queues: Self)
        ensures
            queues@ == Seq::<Option<QueueState<Event<EVT>>>>::empty(),
    {
        let queues = EventBoxQueues { slots: Vec::new() };
        assert(queues@ =~= Seq::<Option<QueueState<Event<EVT>>>>::empty());
        queues
    }

    /// The number of live subscribers.
    pub fn count(&self) -> (n: usize)
        ensures
            n == alive_count(self@),
    {
        let ghost slots = self@;
        let mut n: usize = 0;
        let mut i: usize = 0;
        while i < self.slots.len()
            invariant
                slots == self@,
                slots.len() == self.slots@.len(),
                0 <= i <= slots.len(),
                n == alive_count(slots.take(i as int)),
                n <= i,
            decreases self.slots@.len() - i,
        {
            proof {
                lemma_alive_count_take(slots, i as int);
            }
            if self.slots[i].is_some() {
                n = n + 1;
            }
            i = i + 1;
        }
        assert(slots.take(i as int) =~= slots);
        n
    }

    /// Gives `queue` the first free slot, or a new one at the end; the slot
    /// stays taken while `token` has holders besides the slot.
    pub fn add_queue(&mut self, queue: EventBoxQueue<Event<EVT>>, token: Arc<SubscriptionToken>) -> (slot: usize)
        ensures
            is_first_free(old(self)@, slot as int),
            final(self)@ == add_at(old(self)@, slot as int, queue@),
            slot < final(self)@.len(),
            final(self)@[slot as int] == Some(queue@),
            forall|j: int| 0 <= j < old(self)@.len() && j != slot ==> #[trigger] final(self)@[j] == old(self)@[j],
    {
        let ghost q = queue@;
        let n = self.slots.len();
        let mut i: usize = 0;
        while i < n
            invariant
                n == self.slots@.len(),
                self.slots@ == old(self).slots@,
                q == queue@,
                0 <= i <= n,
                forall|j: int| 0 <= j < i ==> #[trigger] self.slots@[j] is Some,
            decreases n - i,
        {
            if self.slots[i].is_none() {
                self.slots.set(i, Some((queue, token)));
                assert(self@ =~= old(self)@.update(i as int, Some(q)));
                return i;
            }
            i = i + 1;
        }
        self.slots.push(Some((queue, token)));
        assert(self@ =~= old(self)@.push(Some(q)));
        n
    }

    /// The number of handles to each slot's token, by slot: 0 for a free slot,
    /// at least 1 (the slot's own) for a taken one.
    pub fn holder_counts(&self) -> (counts: Vec<usize>)
        ensures
            counts@.len() == self@.len(),
            forall|i: int| 0 <= i < self@.len() ==> (self@[i] is None ==> #[trigger] counts@[i] == 0)
                && (self@[i] is Some ==> counts@[i] >= 1),
    {
        let mut counts: Vec<usize> = Vec::new();
        let n = self.slots.len();
        let mut i: usize = 0;
        while i < n
            invariant
                n == self.slots@.len(),
                n == self@.len(),
                0 <= i <= n,
                counts@.len() == i,
                forall|j: int| 0 <= j < i ==> (self@[j] is None ==> #[trigger] counts@[j] == 0)
                    && (self@[j] is Some ==> counts@[j] >= 1),
            decreases n - i,
        {
            match &self.slots[i] {
                Some(taken) => counts.push(holders(&taken.1)),
                None => counts.push(0),
            }
            i = i + 1;
        }
        counts
    }

    /// Frees every slot whose token, by `counts`, has no holder but the slot:
    /// its subscription handle was dropped. The queue goes with it.
    pub fn free_released(&mut self, counts: &Vec<usize>)
        ensures
            final(self)@ == free_released_slots(old(self)@, counts@),
    {
        let n = self.slots.len();
        let mut i: usize = 0;
        while i < n
            invariant
                n == self.slots@.len(),
                n == old(self)@.len(),
                0 <= i <= n,
                forall|j: int| 0 <= j < i ==> slot_state(#[trigger] self.slots@[j]) == free_released_slots(old(self)@, counts@)[j],
                forall|j: int| i <= j < n ==> #[trigger] self.slots@[j] == old(self).slots@[j],
            decreases n - i,
        {
            if i < counts.len() && counts[i] <= 1 {
                self.slots.set(i, None);
            }
            i = i + 1;
        }
        assert(self@ =~= free_released_slots(old(self)@, counts@));
    }

    /// Frees the slots of all subscriptions whose handles were dropped.
    pub fn sweep(&mut self)
        ensures
            is_swept(old(self)@, final(self)@),
    {
        let counts = self.holder_counts();
        self.free_released(&counts);
    }

    /// Puts a copy of `event` into the queue of every live subscriber.
    pub fn put_event(&mut self, event: Event<EVT>)
        ensures
            final(self)@ == broadcast(old(self)@, event),
    {
        let n = self.slots.len();
        let mut i: usize = 0;
        while i < n
            invariant
                n == self.slots@.len(),
                n == old(self)@.len(),
                0 <= i <= n,
                forall|j: int| 0 <= j < i ==> slot_state(#[trigger] self.slots@[j]) == broadcast(old(self)@, event)[j],
                forall|j: int| i <= j < n ==> #[trigger] self.slots@[j] == old(self).slots@[j],
            decreases n - i,
        {
            let mut slot: Option<(EventBoxQueue<Event<EVT>>, Arc<SubscriptionToken>)> = None;
            self.slots.set_and_swap(i, &mut slot);
            match slot {
                Some((mut queue, token)) => {
                    queue.put_event(event.clone());
                    self.slots.set(i, Some((queue, token)));
                },
                None => {},
            }
            i = i + 1;
        }
        assert(self@ =~= broadcast(old(self)@, event));
    }

    /// Drops the pending events of every live subscriber.
    pub fn clear(&mut self)
        ensures
            final(self)@ == clear_all(old(self)@),
    {
        let n = self.slots.len();
        let mut i: usize = 0;
        while i < n
            invariant
                n == self.slots@.len(),
                n == old(self)@.len(),
                0 <= i <= n,
                forall|j: int| 0 <= j < i ==> slot_state(#[trigger] self.slots@[j]) == clear_all(old(self)@)[j],
                forall|j: int| i <= j < n ==> #[trigger] self.slots@[j] == old(self).slots@[j],
            decreases n - i,
        {
            let mut slot: Option<(EventBoxQueue<Event<EVT>>, Arc<SubscriptionToken>)> = None;
            self.slots.set_and_swap(i, &mut slot);
            match slot {
                Some((mut queue, token)) => {
                    queue.clear();
                    self.slots.set(i, Some((queue, token)));
                },
                None => {},
            }
            i = i + 1;
        }
        assert(self@ =~= clear_all(old(self)@));
    }

    /// Tells every live subscriber that no more events will come.
    pub fn detach(&mut self)
        ensures
            final(self)@ == detach_all(old(self)@),
    {
        let n = self.slots.len();
        let mut i: usize = 0;
        while i < n
            invariant
                n == self.slots@.len(),
                n == old(self)@.len(),
                0 <= i <= n,
                forall|j: int| 0 <= j < i ==> slot_state(#[trigger] self.slots@[j]) == detach_all(old(self)@)[j],
                forall|j: int| i <= j < n ==> #[trigger] self.slots@[j] == old(self).slots@[j],
            decreases n - i,
        {
            let mut slot: Option<(EventBoxQueue<Event<EVT>>, Arc<SubscriptionToken>)> = None;
            self.slots.set_and_swap(i, &mut slot);
            match slot {
                Some((mut queue, token)) => {
                    queue.detach();
                    self.slots.set(i, Some((queue, token)));
                },
                None => {},
            }
            i = i + 1;
        }
        assert(self@ =~= detach_all(old(self)@));
    }

    /// Frees the slot of a subscriber that has gone, dropping its queue.
    pub fn remove_queue(&mut self, slot: usize)
        ensures
            slot < old(self)@.len() ==> final(self)@ == old(self)@.update(slot as int, None),
            slot >= old(self)@.len() ==> final(self)@ == old(self)@,
    {
        if slot < self.slots.len() {
            self.slots.set(slot, None);
            assert(self@ =~= old(self)@.update(slot as int, None));
        }
    }

    /// Polls the queue in `slot`: hands out its oldest event, or the end of
    /// the stream once detached and empty, or registers `waker` and pends.
    /// A free or unknown slot is an ended stream.
    pub fn poll_slot(&mut self, slot: usize, waker: Waker) -> (outcome: Poll<Option<Event<EVT>>>)
        ensures
            slot < old(self)@.len() && old(self)@[slot as int] is Some ==> {
                let q = old(self)@[slot as int]->Some_0;
                &&& outcome == poll_outcome(q)
                &&& final(self)@ == old(self)@.update(slot as int, Some(poll_queue(q, waker)))
            },
            !(slot < old(self)@.len() && old(self)@[slot as int] is Some) ==> {
                &&& outcome == Poll::<Option<Event<EVT>>>::Ready(None)
                &&& final(self)@ == old(self)@
            },
    {
        let ghost registered = waker;
        if slot >= self.slots.len() {
            return Poll::Ready(None);
        }
        let mut taken: Option<(EventBoxQueue<Event<EVT>>, Arc<SubscriptionToken>)> = None;
        self.slots.set_and_swap(slot, &mut taken);
        match taken {
            Some((mut queue, token)) => {
                let outcome = if queue.is_detached() {
                    Poll::Ready(queue.get_event())
                } else {
                    match queue.get_event() {
                        Some(event) => Poll::Ready(Some(event)),
                        None => {
                            queue.set_waker(waker);
                            Poll::Pending
                        },
                    }
                };
                self.slots.set(slot, Some((queue, token)));
                assert(self@ =~= old(self)@.update(slot as int, Some(poll_queue(old(self)@[slot as int]->Some_0, registered))));
                outcome
            },
            None => {
                assert(self@ =~= old(self)@);
                Poll::Ready(None)
            },
        }
    }
}

/// The future of a `send_event`: ready once every copy of the sent event,
/// and of the events that name it as their source, has been dropped.
pub struct SentEvent(Receiver<()>);

impl SentEvent {
    /// Polls for the release of the sent event: ready once its box is gone,
    /// else `waker` is registered to be woken when it goes. Which of the two
    /// depends on what other tasks still hold.
    pub fn poll(&mut self, waker: Waker) -> Poll<()> {
        poll_release(&mut self.0, &waker)
    }
}

/// `after` is `before` with the subscriptions whose handles were dropped
/// freed, and then a copy of one new event, carrying `event`, tagged `tag`
/// and caused by `source`, put into every remaining subscriber's queue.
pub open spec fn is_posted<EVT: Send + Sync + 'static>(
    before: Seq<Option<QueueState<Event<EVT>>>>,
    after: Seq<Option<QueueState<Event<EVT>>>>,
    event: EVT,
    source: Option<Arc<EventBox>>,
    tag: TypeId,
) -> bool {
    exists|swept: Seq<Option<QueueState<Event<EVT>>>>, copy: Event<EVT>|
        {
            &&& is_swept(before, swept)
            &&& copy.payload() == event
            &&& copy.box_of().source_of() == source
            &&& copy.box_of().event_id_of() == tag
            &&& after == #[trigger] broadcast(swept, copy)
        }
}

/// `after` is `before` with the subscriptions whose handles were dropped
/// freed, and then a new subscription, with a fresh queue, in the first free
/// slot `slot`; it counts one more subscriber than what was left.
pub open spec fn is_subscribed<E>(before: Seq<Option<QueueState<E>>>, after: Seq<Option<QueueState<E>>>, slot: int) -> bool {
    exists|swept: Seq<Option<QueueState<E>>>|
        {
            &&& is_swept(before, swept)
            &&& is_first_free(swept, slot)
            &&& after == #[trigger] add_at(swept, slot, empty_queue::<E>())
            &&& alive_count(after) == alive_count(swept) + 1
        }
}

/// A new event, in a box of its own tagged `event_id` that names `source`
/// as its cause. The receiver returned completes when that box is dropped.
fn make_event<EVT: Send + Sync + 'static>(event: EVT, event_id: TypeId, source: Option<Arc<EventBox>>) -> (made: (Event<EVT>, Receiver<()>))
    ensures
        made.0.payload() == event,
        made.0.box_of().source_of() == source,
        made.0.box_of().event_id_of() == event_id,
{
    let (release, released) = release_channel();
    let shared = Arc::new(event);
    let event_box = Arc::new(EventBox::new(event_id, erase(arc_clone(&shared)), release, source));
    (Event::new(event_box, shared), released)
}

/// The publisher of events of type `EVT` to its subscribers. Closing it
/// tells the subscribers that no more events come; dropping it without
/// closing drops their queues without waking the tasks that wait on them.
pub struct EventStreams<EVT: Send + Sync + 'static> {
    queues: EventBoxQueues<EVT>,
    event_id: TypeId,
}

impl<EVT: Send + Sync + 'static> View for EventStreams<EVT> {
    type V = Seq<Option<QueueState<Event<EVT>>>>;

    closed spec fn view(&self) -> Seq<Option<QueueState<Event<EVT>>>> {
        self.queues@
    }
}

/// One subscription to an `EventStreams`: the slot of its queue, and the
/// token that keeps the slot taken. Dropping the handle releases the slot,
/// which the publisher frees, with the events still in it, the next time it
/// counts, posts, sends or subscribes.
pub struct EventStream<EVT: Send + Sync + 'static> {
    slot: usize,
    token: Arc<SubscriptionToken>,
    _phantom: PhantomData<EVT>,
}

impl<EVT: Send + Sync + 'static> EventStream<EVT> {
    /// The slot of the subscription's queue.
    pub closed spec fn slot_of(&self) -> nat {
        self.slot as nat
    }

    fn new(slot: usize, token: Arc<SubscriptionToken>) -> (stream: Self)
        ensures
            stream.slot_of() == slot,
    {
        EventStream { slot, token, _phantom: PhantomData }
    }

    /// Polls the subscription for its next event: the oldest pending one, or
    /// the end of the stream once the publisher is gone and nothing is left;
    /// else the task that `waker` wakes is registered, in place of any task
    /// before it, and the poll pends. Other subscriptions are left as they
    /// were.
    pub fn poll_next(&self, streams: &mut EventStreams<EVT>, waker: Waker) -> (outcome: Poll<Option<Event<EVT>>>)
        ensures
            self.slot_of() < old(streams)@.len() && old(streams)@[self.slot_of() as int] is Some ==> {
                let q = old(streams)@[self.slot_of() as int]->Some_0;
                &&& outcome == poll_outcome(q)
                &&& final(streams)@ == old(streams)@.update(self.slot_of() as int, Some(poll_queue(q, waker)))
            },
            !(self.slot_of() < old(streams)@.len() && old(streams)@[self.slot_of() as int] is Some) ==> {
                &&& outcome == Poll::<Option<Event<EVT>>>::Ready(None)
                &&& final(streams)@ == old(streams)@
            },
            final(streams).event_tag() == old(streams).event_tag(),
    {
        streams.queues.poll_slot(self.slot, waker)
    }
}

impl<EVT: Send + Sync + 'static> EventStreams<EVT> {
    /// The tag of the type `EVT`, which every event published here carries,
    /// whatever its source.
    pub closed spec fn event_tag(&self) -> TypeId {
        self.event_id
    }

    pub fn new() -> (streams: Self)
        ensures
            streams@ == Seq::<Option<QueueState<Event<EVT>>>>::empty(),
    {
        EventStreams { queues: EventBoxQueues::new(), event_id: type_id_of::<EVT>() }
    }

    /// The number of subscribers: the subscriptions whose handles were
    /// dropped are freed first, and the rest are counted.
    pub fn count(&mut self) -> (n: usize)
        ensures
            is_swept(old(self)@, final(self)@),
            n == alive_count(final(self)@),
            final(self).event_tag() == old(self).event_tag(),
    {
        self.queues.sweep();
        self.queues.count()
    }

    /// Frees the subscriptions whose handles were dropped, then puts the
    /// event into every remaining subscriber's queue and returns at once.
    /// `source` is the event that caused this one: it is kept alive, and its
    /// sender blocked, as long as any copy of this one is.
    pub fn post_event(&mut self, event: EVT, source: Option<Arc<EventBox>>)
        ensures
            is_posted(old(self)@, final(self)@, event, source, old(self).event_tag()),
            final(self).event_tag() == old(self).event_tag(),
    {
        self.queues.sweep();
        let ghost swept = self@;
        let (made, _released) = make_event(event, self.event_id, source);
        let ghost copy = made;
        self.queues.put_event(made);
        assert(final(self)@ == broadcast(swept, copy));
    }

    /// As `post_event`; the future returned is ready once every copy of the
    /// event has been dropped.
    pub fn send_event(&mut self, event: EVT, source: Option<Arc<EventBox>>) -> (sent: SentEvent)
        ensures
            is_posted(old(self)@, final(self)@, event, source, old(self).event_tag()),
            final(self).event_tag() == old(self).event_tag(),
    {
        self.queues.sweep();
        let ghost swept = self@;
        let (made, released) = make_event(event, self.event_id, source);
        let ghost copy = made;
        self.queues.put_event(made);
        assert(final(self)@ == broadcast(swept, copy));
        SentEvent(released)
    }

    /// A new subscription, which receives every event put from now on. The
    /// subscriptions whose handles were dropped are freed first.
    pub fn create_event_stream(&mut self) -> (stream: EventStream<EVT>)
        ensures
            is_subscribed(old(self)@, final(self)@, stream.slot_of() as int),
            stream.slot_of() < final(self)@.len(),
            final(self)@[stream.slot_of() as int] is Some,
            !final(self)@[stream.slot_of() as int]->Some_0.detached,
            final(self)@[stream.slot_of() as int]->Some_0.events.len() == 0,
            final(self)@[stream.slot_of() as int]->Some_0.waker is None,
            final(self).event_tag() == old(self).event_tag(),
    {
        self.queues.sweep();
        let ghost swept = self@;
        let token = Arc::new(SubscriptionToken {});
        let slot = self.queues.add_queue(EventBoxQueue::new(), arc_clone(&token));
        proof {
            if slot < swept.len() {
                lemma_alive_count_update(swept, slot as int, Some(empty_queue::<Event<EVT>>()));
            } else {
                lemma_alive_count_push(swept, Some(empty_queue::<Event<EVT>>()));
            }
            assert(final(self)@ == add_at(swept, slot as int, empty_queue::<Event<EVT>>()));
        }
        EventStream::new(slot, token)
    }

    /// Ends a subscription at once: its queue, with the events still in it,
    /// is dropped.
    pub fn remove_event_stream(&mut self, stream: EventStream<EVT>)
        ensures
            stream.slot_of() < old(self)@.len() ==> final(self)@ == old(self)@.update(stream.slot_of() as int, None),
            stream.slot_of() >= old(self)@.len() ==> final(self)@ == old(self)@,
            final(self).event_tag() == old(self).event_tag(),
    {
        self.queues.remove_queue(stream.slot);
    }

    /// Removes all pending events of all subscribers.
    pub fn clear(&mut self)
        ensures
            final(self)@ == clear_all(old(self)@),
            final(self).event_tag() == old(self).event_tag(),
    {
        self.queues.clear()
    }

    /// Tells every subscriber that no more events will come: each drains what
    /// it has and then ends.
    pub fn close(&mut self)
        ensures
            final(self)@ == detach_all(old(self)@),
            final(self).event_tag() == old(self).event_tag(),
    {
        self.queues.detach()
    }
}

} // verus!
