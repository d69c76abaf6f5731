//! The queue of pending events of one subscriber.

use std::collections::VecDeque;
use std::task::Waker;
use vstd::prelude::*;

use crate::task::wake_slot;

verus! {

/// What a subscriber's queue is, seen from outside: whether its publisher is
/// gone, the waker of the task that waits for its next event, if any, and the
/// events not read yet, oldest first.
#[verifier::ext_equal]
pub struct QueueState<E> {
    pub detached: bool,
    pub waker: Option<Waker>,
    pub events: Seq<E>,
}

/// The state of a fresh queue: attached, nobody waiting, nothing pending.
pub open spec fn empty_queue<E>() -> QueueState<E> {
    QueueState { detached: false, waker: None, events: Seq::empty() }
}

/// A queue after `event` is put into it: the event goes last and the waiting
/// task, if any, is woken.
pub open spec fn queue_put<E>(q: QueueState<E>, event: E) -> QueueState<E> {
    QueueState { detached: q.detached, waker: None, events: q.events.push(event) }
}

/// A queue after its oldest event, if any, is taken out.
pub open spec fn queue_pop<E>(q: QueueState<E>) -> QueueState<E> {
    if q.events.len() == 0 {
        q
    } else {
        QueueState { events: q.events.drop_first(), ..q }
    }
}

/// The event that taking from the queue hands out: its oldest one, if any.
pub open spec fn queue_front<E>(q: QueueState<E>) -> Option<E> {
    if q.events.len() == 0 {
        None
    } else {
        Some(q.events[0])
    }
}

/// A queue after its publisher has gone away: marked detached, with its
/// waiting task woken and its pending events kept.
pub open spec fn queue_detach<E>(q: QueueState<E>) -> QueueState<E> {
    QueueState { detached: true, waker: None, events: q.events }
}

/// A queue after all its pending events are dropped.
pub open spec fn queue_clear<E>(q: QueueState<E>) -> QueueState<E> {
    QueueState { events: Seq::empty(), ..q }
}

/// Pending events of one subscriber, with the waker of the task that waits
/// for the next one and the mark that the publisher is gone.
pub struct EventBoxQueue<E> {
    detached: bool,
    waker: Option<Waker>,
    events: VecDeque<E>,
}

impl<E> View for EventBoxQueue<E> {
    type V = QueueState<E>;

    closed spec fn view(&self) -> QueueState<E> {
        QueueState { detached: self.detached, waker: self.waker, events: self.events@ }
    }
}

impl<E> EventBoxQueue<E> {
    pub fn new() -> (queue: Self)
        ensures
            queue@ == empty_queue::<E>(),
    {
        EventBoxQueue { detached: false, waker: None, events: VecDeque::new() }
    }

    pub fn is_detached(&self) -> (detached: bool)
        ensures
            detached == self@.detached,
    {
        self.detached
    }

    /// Marks the queue as cut off from its publisher and wakes the waiting task.
    pub fn detach(&mut self)
        ensures
            final(self)@ == queue_detach(old(self)@),
    {
        self.detached = true;
        self.wake();
    }

    /// Wakes the waiting task, if any, and forgets its waker.
    pub fn wake(&mut self)
        ensures
            final(self)@ == (QueueState { waker: None, ..old(self)@ }),
    {
        wake_slot(&mut self.waker);
    }

    /// Registers the task to wake when the next event arrives, in place of
    /// the one registered before, which is dropped without being woken.
    pub fn set_waker(&mut self, waker: Waker)
        ensures
            final(self)@ == (QueueState { waker: Some(waker), ..old(self)@ }),
    {
        self.waker = Some(waker);
    }

    /// Appends an event and wakes the waiting task.
    pub fn put_event(&mut self, event: E)
        ensures
            final(self)@ == queue_put(old(self)@, event),
    {
        self.events.push_back(event);
        wake_slot(&mut self.waker);
    }

    /// Takes out the oldest pending event.
    pub fn get_event(&mut self) -> (event: Option<E>)
        ensures
            event == queue_front(old(self)@),
            final(self)@ == queue_pop(old(self)@),
    {
        self.events.pop_front()
    }

    /// Drops all pending events.
    pub fn clear(&mut self)
        ensures
            final(self)@ == queue_clear(old(self)@),
    {
        self.events.clear();
    }
}

} // verus!
