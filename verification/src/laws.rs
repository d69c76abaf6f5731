//! What holds of the library across calls: the order in which subscribers
//! read, what publishing does to the count of subscribers, how a stream ends.

use std::any::TypeId;
use std::sync::Arc;
use std::task::Waker;
use vstd::prelude::*;

use crate::event_queue::{
    empty_queue, queue_clear, queue_detach, queue_pop, queue_put, QueueState,
};
use crate::event_streams::{
    add_at, broadcast, clear_all, detach_all, is_posted, is_subscribed, poll_outcome, poll_queue,
};
use crate::registry::{alive_count, is_first_free, lemma_alive_count_same_shape, lemma_alive_count_update};
use crate::event::{Event, EventBox};
use crate::task::Poll;

verus! {

/// A queue after `events` are put into it, first to last.
pub open spec fn put_all<E>(q: QueueState<E>, events: Seq<E>) -> QueueState<E>
    decreases events.len(),
{
    if events.len() == 0 {
        q
    } else {
        queue_put(put_all(q, events.drop_last()), events.last())
    }
}

/// All subscribers' queues after `events` are posted, first to last.
pub open spec fn broadcast_all<E>(slots: Seq<Option<QueueState<E>>>, events: Seq<E>) -> Seq<Option<QueueState<E>>>
    decreases events.len(),
{
    if events.len() == 0 {
        slots
    } else {
        broadcast(broadcast_all(slots, events.drop_last()), events.last())
    }
}

/// The events that `n` polls in a row hand out, up to the first poll that
/// hands out none.
pub open spec fn drain<E>(q: QueueState<E>, n: nat) -> Seq<E>
    decreases n,
{
    if n == 0 {
        Seq::empty()
    } else {
        match poll_outcome(q) {
            Poll::Ready(Some(e)) => seq![e] + drain(queue_pop(q), (n - 1) as nat),
            _ => Seq::empty(),
        }
    }
}

/// A queue after `n` takes in a row, as `n` polls that each find something
/// leave it.
pub open spec fn polled<E>(q: QueueState<E>, n: nat) -> QueueState<E>
    decreases n,
{
    if n == 0 {
        q
    } else {
        polled(queue_pop(q), (n - 1) as nat)
    }
}

proof fn lemma_put_all<E>(q: QueueState<E>, events: Seq<E>)
    ensures
        put_all(q, events).events == q.events + events,
        put_all(q, events).detached == q.detached,
    decreases events.len(),
{
    if events.len() > 0 {
        lemma_put_all(q, events.drop_last());
        assert(q.events + events =~= (q.events + events.drop_last()).push(events.last()));
    } else {
        assert(q.events + events =~= q.events);
    }
}

proof fn lemma_drain_pending<E>(q: QueueState<E>, n: nat)
    requires
        n <= q.events.len(),
    ensures
        drain(q, n) == q.events.take(n as int),
        polled(q, n).events == q.events.skip(n as int),
        polled(q, n).detached == q.detached,
    decreases n,
{
    if n == 0 {
        assert(q.events.take(0) =~= Seq::<E>::empty());
        assert(q.events.skip(0) =~= q.events);
    } else {
        let p = queue_pop(q);
        lemma_drain_pending(p, (n - 1) as nat);
        assert(q.events.take(n as int) =~= seq![q.events[0]] + p.events.take(n - 1));
        assert(q.events.skip(n as int) =~= p.events.skip(n - 1));
    }
}

proof fn lemma_broadcast_all<E>(slots: Seq<Option<QueueState<E>>>, events: Seq<E>, i: int)
    requires
        0 <= i < slots.len(),
    ensures
        broadcast_all(slots, events).len() == slots.len(),
        broadcast_all(slots, events)[i] == match slots[i] {
            Some(q) => Some(put_all(q, events)),
            None => None,
        },
    decreases events.len(),
{
    if events.len() > 0 {
        lemma_broadcast_all(slots, events.drop_last(), i);
    }
}

/// Events come from each stream exactly in the order they were sent: after
/// `events` are posted, first to last, a subscriber that was live reads what
/// it had pending and then every one of `events`, in order, one per poll.
pub proof fn law_subscribers_read_in_order<E>(slots: Seq<Option<QueueState<E>>>, events: Seq<E>, i: int)
    requires
        0 <= i < slots.len(),
        slots[i] is Some,
    ensures
        ({
            let q = slots[i]->Some_0;
            let after = broadcast_all(slots, events);
            &&& after[i] is Some
            &&& drain(after[i]->Some_0, q.events.len() + events.len()) == q.events + events
        }),
{
    let q = slots[i]->Some_0;
    lemma_broadcast_all(slots, events, i);
    lemma_put_all(q, events);
    let r = put_all(q, events);
    lemma_drain_pending(r, (q.events.len() + events.len()) as nat);
    assert(r.events.take(r.events.len() as int) =~= r.events);
}

/// Once the publisher is gone, a subscriber never waits: it reads what it
/// still had pending, in order, and after that the stream has ended.
pub proof fn law_closed_stream_drains_then_ends<E>(slots: Seq<Option<QueueState<E>>>, i: int)
    requires
        0 <= i < slots.len(),
        slots[i] is Some,
    ensures
        ({
            let q = slots[i]->Some_0;
            let closed = detach_all(slots)[i]->Some_0;
            &&& detach_all(slots)[i] is Some
            &&& forall|n: nat| #[trigger] poll_outcome(polled(closed, n)) != Poll::<Option<E>>::Pending
            &&& drain(closed, q.events.len()) == q.events
            &&& poll_outcome(polled(closed, q.events.len())) == Poll::<Option<E>>::Ready(None)
        }),
{
    let q = slots[i]->Some_0;
    let closed = detach_all(slots)[i]->Some_0;
    assert forall|n: nat| #[trigger] poll_outcome(polled(closed, n)) != Poll::<Option<E>>::Pending by {
        lemma_polled_stays_detached(closed, n);
    }
    lemma_drain_pending(closed, q.events.len());
    assert(q.events.take(q.events.len() as int) =~= q.events);
    assert(q.events.skip(q.events.len() as int) =~= Seq::<E>::empty());
}

proof fn lemma_polled_stays_detached<E>(q: QueueState<E>, n: nat)
    requires
        q.detached,
    ensures
        polled(q, n).detached,
    decreases n,
{
    if n > 0 {
        lemma_polled_stays_detached(queue_pop(q), (n - 1) as nat);
    }
}

/// A subscriber whose poll found nothing has its own task registered; the
/// next event posted wakes that task, and its next poll hands out that event.
pub proof fn law_waiting_subscriber_gets_next_event<E>(q: QueueState<E>, waker: Waker, event: E)
    requires
        poll_outcome(q) == Poll::<Option<E>>::Pending,
    ensures
        poll_queue(q, waker).waker == Some(waker),
        queue_put(poll_queue(q, waker), event).waker is None,
        poll_outcome(queue_put(poll_queue(q, waker), event)) == Poll::Ready(Some(event)),
{
}

/// Posting, clearing and closing keep the number of subscribers.
pub proof fn law_publishing_keeps_count<E>(slots: Seq<Option<QueueState<E>>>, event: E)
    ensures
        alive_count(broadcast(slots, event)) == alive_count(slots),
        alive_count(clear_all(slots)) == alive_count(slots),
        alive_count(detach_all(slots)) == alive_count(slots),
{
    lemma_alive_count_same_shape(broadcast(slots, event), slots);
    lemma_alive_count_same_shape(clear_all(slots), slots);
    lemma_alive_count_same_shape(detach_all(slots), slots);
}

/// A subscriber that goes away is no longer counted.
pub proof fn law_removed_subscriber_not_counted<E>(slots: Seq<Option<QueueState<E>>>, i: int)
    requires
        0 <= i < slots.len(),
        slots[i] is Some,
    ensures
        alive_count(slots.update(i, None)) + 1 == alive_count(slots),
{
    lemma_alive_count_update(slots, i, None);
}

/// Clearing leaves no subscriber anything to read: a live one waits for the
/// next event, and one whose publisher is gone has ended.
pub proof fn law_cleared_streams_have_nothing<E>(slots: Seq<Option<QueueState<E>>>, i: int)
    requires
        0 <= i < slots.len(),
        slots[i] is Some,
    ensures
        ({
            let q = clear_all(slots)[i]->Some_0;
            &&& clear_all(slots)[i] is Some
            &&& poll_outcome(q) == if q.detached {
                Poll::<Option<E>>::Ready(None)
            } else {
                Poll::<Option<E>>::Pending
            }
        }),
{
}

/// A new subscription receives exactly the events put after it was
/// created, in order.
pub proof fn law_new_subscriber_reads_later_events<E>(slots: Seq<Option<QueueState<E>>>, slot: int, events: Seq<E>)
    requires
        is_first_free(slots, slot),
    ensures
        ({
            let after = broadcast_all(add_at(slots, slot, empty_queue::<E>()), events);
            &&& after[slot] is Some
            &&& drain(after[slot]->Some_0, events.len()) == events
        }),
{
    let added = add_at(slots, slot, empty_queue::<E>());
    assert(added[slot] == Some(empty_queue::<E>()));
    law_subscribers_read_in_order(added, events, slot);
    assert(empty_queue::<E>().events + events =~= events);
}

/// All subscribers' queues after subscriber `i` polls from the task that
/// `waker` wakes.
pub open spec fn poll_at<E>(slots: Seq<Option<QueueState<E>>>, i: int, waker: Waker) -> Seq<Option<QueueState<E>>> {
    slots.update(i, Some(poll_queue(slots[i]->Some_0, waker)))
}

/// Streams are independent from each other: two subscribers polling in
/// either order get the same events and leave the same queues behind.
pub proof fn law_streams_are_independent<E>(
    slots: Seq<Option<QueueState<E>>>,
    i: int,
    wi: Waker,
    j: int,
    wj: Waker,
)
    requires
        0 <= i < slots.len(),
        0 <= j < slots.len(),
        i != j,
        slots[i] is Some,
        slots[j] is Some,
    ensures
        poll_at(poll_at(slots, i, wi), j, wj) == poll_at(poll_at(slots, j, wj), i, wi),
        poll_at(slots, i, wi)[j] == slots[j],
        poll_at(slots, j, wj)[i] == slots[i],
{
    let a = poll_at(poll_at(slots, i, wi), j, wj);
    let b = poll_at(poll_at(slots, j, wj), i, wi);
    assert(poll_at(slots, i, wi)[j] == slots[j]);
    assert(poll_at(slots, j, wj)[i] == slots[i]);
    assert(a =~= b);
}

/// One thing that can happen to a subscriber's queue: an event put into
/// it, its oldest event taken, a task registered, a poll from the task that
/// the waker wakes, its pending events cleared, its publisher gone, or its
/// waiting task woken.
pub enum QueueOp<E> {
    Put(E),
    Get,
    SetWaker(Waker),
    Poll(Waker),
    Clear,
    Detach,
    Wake,
}

/// The queue after one operation.
pub open spec fn apply<E>(q: QueueState<E>, op: QueueOp<E>) -> QueueState<E> {
    match op {
        QueueOp::Put(e) => queue_put(q, e),
        QueueOp::Get => queue_pop(q),
        QueueOp::SetWaker(w) => QueueState { waker: Some(w), ..q },
        QueueOp::Poll(w) => poll_queue(q, w),
        QueueOp::Clear => queue_clear(q),
        QueueOp::Detach => queue_detach(q),
        QueueOp::Wake => QueueState { waker: None, ..q },
    }
}

/// The events that one operation hands out: the event taken by a take or a
/// poll, if there is one.
pub open spec fn handed_out<E>(q: QueueState<E>, op: QueueOp<E>) -> Seq<E> {
    match op {
        QueueOp::Get => if q.events.len() > 0 {
            seq![q.events[0]]
        } else {
            Seq::empty()
        },
        QueueOp::Poll(w) => match poll_outcome(q) {
            Poll::Ready(Some(e)) => seq![e],
            _ => Seq::empty(),
        },
        _ => Seq::empty(),
    }
}

/// The queue after `ops`, first to last.
pub open spec fn run<E>(q: QueueState<E>, ops: Seq<QueueOp<E>>) -> QueueState<E>
    decreases ops.len(),
{
    if ops.len() == 0 {
        q
    } else {
        apply(run(q, ops.drop_last()), ops.last())
    }
}

/// The events that `ops` hand out, in the order they are handed out.
pub open spec fn read<E>(q: QueueState<E>, ops: Seq<QueueOp<E>>) -> Seq<E>
    decreases ops.len(),
{
    if ops.len() == 0 {
        Seq::empty()
    } else {
        read(q, ops.drop_last()) + handed_out(run(q, ops.drop_last()), ops.last())
    }
}

/// The events that `ops` put, in the order they are put.
pub open spec fn puts<E>(ops: Seq<QueueOp<E>>) -> Seq<E>
    decreases ops.len(),
{
    if ops.len() == 0 {
        Seq::empty()
    } else {
        puts(ops.drop_last()) + match ops.last() {
            QueueOp::Put(e) => seq![e],
            _ => Seq::<E>::empty(),
        }
    }
}

/// Events come from a stream exactly in the order they were sent, however
/// posts and polls interleave: unless its events are cleared, what a
/// subscriber has read, followed by what it still has pending, is what it had
/// pending at first followed by every event put since, in order, none skipped
/// or repeated. Its polls do not depend on what other subscribers do
/// (`law_streams_are_independent`).
pub proof fn law_interleaved_reads_in_order<E>(q: QueueState<E>, ops: Seq<QueueOp<E>>)
    requires
        forall|i: int| 0 <= i < ops.len() ==> !(#[trigger] ops[i] is Clear),
    ensures
        read(q, ops) + run(q, ops).events == q.events + puts(ops),
    decreases ops.len(),
{
    if ops.len() > 0 {
        let init = ops.drop_last();
        assert forall|i: int| 0 <= i < init.len() implies !(#[trigger] init[i] is Clear) by {
            assert(init[i] == ops[i]);
        }
        law_interleaved_reads_in_order(q, init);
        let before = run(q, init);
        let r = read(q, init);
        assert(!(ops[ops.len() - 1] is Clear));
        match ops.last() {
            QueueOp::Put(e) => {
                assert(r + before.events.push(e) =~= (r + before.events).push(e));
                assert(q.events + puts(ops) =~= (q.events + puts(init)).push(e));
            },
            QueueOp::Get => {
                assert(puts(ops) =~= puts(init));
                if before.events.len() > 0 {
                    assert(r + seq![before.events[0]] + before.events.drop_first() =~= r + before.events);
                } else {
                    assert(handed_out(before, ops.last()) =~= Seq::<E>::empty());
                }
            },
            QueueOp::Poll(w) => {
                assert(puts(ops) =~= puts(init));
                if before.events.len() > 0 {
                    assert(r + seq![before.events[0]] + before.events.drop_first() =~= r + before.events);
                } else {
                    assert(handed_out(before, ops.last()) =~= Seq::<E>::empty());
                }
            },
            _ => {
                assert(puts(ops) =~= puts(init));
            },
        }
    }
}

/// Only the publisher's going away marks a queue detached, and nothing
/// clears the mark: a fresh queue is detached after `ops` exactly when one of
/// them is `Detach`.
pub proof fn law_detached_only_by_detach<E>(ops: Seq<QueueOp<E>>)
    ensures
        run(empty_queue::<E>(), ops).detached <==> exists|i: int| 0 <= i < ops.len() && #[trigger] ops[i] is Detach,
    decreases ops.len(),
{
    if ops.len() > 0 {
        let init = ops.drop_last();
        law_detached_only_by_detach(init);
        if exists|i: int| 0 <= i < init.len() && #[trigger] init[i] is Detach {
            let i = choose|i: int| 0 <= i < init.len() && #[trigger] init[i] is Detach;
            assert(ops[i] == init[i]);
        }
        if exists|i: int| 0 <= i < ops.len() && #[trigger] ops[i] is Detach {
            let i = choose|i: int| 0 <= i < ops.len() && #[trigger] ops[i] is Detach;
            if i < init.len() {
                assert(init[i] == ops[i]);
            }
        }
    }
}

/// The events carried by a queue's copies, in order.
pub open spec fn payloads<EVT: Send + Sync + 'static>(events: Seq<Event<EVT>>) -> Seq<EVT> {
    events.map_values(|e: Event<EVT>| e.payload())
}

/// Posting and sending put the same thing into the queues: from the same
/// subscribers, two copies that carry the same event leave every subscriber
/// with the same events, in the same order, and the same state otherwise.
pub proof fn law_post_and_send_queue_alike<EVT: Send + Sync + 'static>(
    slots: Seq<Option<QueueState<Event<EVT>>>>,
    posted: Event<EVT>,
    sent: Event<EVT>,
    i: int,
)
    requires
        posted.payload() == sent.payload(),
        0 <= i < slots.len(),
    ensures
        (broadcast(slots, posted)[i] is Some) == (slots[i] is Some),
        (broadcast(slots, sent)[i] is Some) == (slots[i] is Some),
        slots[i] is Some ==> {
            let a = broadcast(slots, posted)[i]->Some_0;
            let b = broadcast(slots, sent)[i]->Some_0;
            &&& payloads(a.events) == payloads(b.events)
            &&& a.detached == b.detached
            &&& a.waker == b.waker
        },
{
    if slots[i] is Some {
        let q = slots[i]->Some_0;
        assert(payloads(q.events.push(posted)) =~= payloads(q.events.push(sent)));
    }
}

/// A new subscription, whichever slot it gets, starts with a queue of its
/// own that is attached, empty and waited on by no task: its first poll with
/// nothing posted pends, and the next event posted is what it reads.
pub proof fn law_new_subscription_waits<E>(
    before: Seq<Option<QueueState<E>>>,
    after: Seq<Option<QueueState<E>>>,
    slot: int,
    waker: Waker,
    event: E,
)
    requires
        is_subscribed(before, after, slot),
    ensures
        0 <= slot < after.len(),
        after[slot] is Some,
        !after[slot]->Some_0.detached,
        after[slot]->Some_0.events.len() == 0,
        after[slot]->Some_0.waker is None,
        poll_outcome(after[slot]->Some_0) == Poll::<Option<E>>::Pending,
        poll_outcome(queue_put(poll_queue(after[slot]->Some_0, waker), event)) == Poll::Ready(Some(event)),
{
    let swept = choose|swept: Seq<Option<QueueState<E>>>|
        {
            &&& crate::event_streams::is_swept(before, swept)
            &&& is_first_free(swept, slot)
            &&& after == #[trigger] add_at(swept, slot, empty_queue::<E>())
            &&& alive_count(after) == alive_count(swept) + 1
        };
    assert(after[slot] == Some(empty_queue::<E>()));
}

/// Every copy that a publisher puts out carries the publisher's type tag,
/// whatever event it names as its source, together with the event and that
/// source: the last event of every live queue after a post or send is it.
pub proof fn law_published_events_carry_the_publisher_tag<EVT: Send + Sync + 'static>(
    before: Seq<Option<QueueState<Event<EVT>>>>,
    after: Seq<Option<QueueState<Event<EVT>>>>,
    event: EVT,
    source: Option<Arc<EventBox>>,
    tag: TypeId,
    i: int,
)
    requires
        is_posted(before, after, event, source, tag),
        0 <= i < after.len(),
        after[i] is Some,
    ensures
        after[i]->Some_0.events.len() > 0,
        after[i]->Some_0.events.last().box_of().event_id_of() == tag,
        after[i]->Some_0.events.last().box_of().source_of() == source,
        after[i]->Some_0.events.last().payload() == event,
{
}

} // verus!
