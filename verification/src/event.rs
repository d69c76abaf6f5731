//! Events as subscribers receive them, and the shared box whose end tells
//! the sender that every copy of an event is gone.

use std::any::{Any, TypeId};
use std::pin::Pin;
use std::sync::Arc;
use std::task::{Context, Waker};

use futures::channel::oneshot::{channel, Canceled, Receiver, Sender};
use futures::Future;
use vstd::prelude::*;

use crate::task::Poll;

verus! {

/// `std::any::TypeId`, carried as an opaque tag of an event's type.
#[verifier::external_type_specification]
#[verifier::external_body]
pub struct ExTypeId(TypeId);

/// `futures::channel::oneshot::Sender`: held by an event's box, it is dropped
/// with the box, and that completes the matching receiver.
#[verifier::external_type_specification]
#[verifier::external_body]
#[verifier::reject_recursive_types(T)]
pub struct ExSender<T>(Sender<T>);

/// `futures::channel::oneshot::Receiver`: held by the sender of an event, it
/// completes once the matching sender is gone.
#[verifier::external_type_specification]
#[verifier::external_body]
#[verifier::reject_recursive_types(T)]
pub struct ExReceiver<T>(Receiver<T>);

/// `futures::channel::oneshot::Canceled`, what a receiver completes with when
/// its sender is dropped without sending. The library never reads it; it is
/// declared because the receiver's `Future` impl names it.
#[verifier::external_type_specification]
#[verifier::external_body]
pub struct ExCanceled(Canceled);

/// Calls `TypeId::of`, the tag of the type `T`. It depends on the type alone
/// and is not stated: the library only stores it.
#[verifier::external_body]
pub(crate) fn type_id_of<T: ?Sized + 'static>() -> TypeId {
    TypeId::of::<T>()
}

/// Calls `futures::channel::oneshot::channel`: a fresh sender and receiver
/// that belong together. They are opaque; nothing is stated of them.
#[verifier::external_body]
pub(crate) fn release_channel() -> (Sender<()>, Receiver<()>) {
    channel()
}

/// Calls `Future::poll` of `oneshot::Receiver` with a context made from
/// `waker`: ready once the matching sender has been dropped (no value is ever
/// sent on these channels), else pending with `waker` registered to be woken
/// when the sender goes. Which of the two depends on what other tasks still
/// hold, so it is not stated.
#[verifier::external_body]
pub(crate) fn poll_release(receiver: &mut Receiver<()>, waker: &Waker) -> Poll<()> {
    match Pin::new(receiver).poll(&mut Context::from_waker(waker)) {
        std::task::Poll::Ready(_) => Poll::Ready(()),
        std::task::Poll::Pending => Poll::Pending,
    }
}

/// Calls `Arc::clone`: a second handle to the same shared value.
#[verifier::external_body]
pub(crate) fn arc_clone<T: ?Sized>(shared: &Arc<T>) -> (copy: Arc<T>)
    ensures
        copy == *shared,
{
    shared.clone()
}

/// The event itself, with its type erased: `Arc<dyn Any + Send + Sync>`.
/// Verus cannot hold a trait object, so it is kept in this opaque struct and
/// reached only through `erase` and `downcast`.
#[verifier::external_body]
pub struct Payload {
    inner: Arc<dyn Any + Send + Sync>,
}

/// Turns the shared event into an `Arc<dyn Any + Send + Sync>` pointing to
/// the same value (an unsizing coercion, no call). Nothing is stated of the
/// opaque result.
#[verifier::external_body]
pub(crate) fn erase<EVT: Send + Sync + 'static>(event: Arc<EVT>) -> Payload {
    Payload { inner: event }
}

/// Calls `<dyn Any>::downcast_ref`: the event when it is of type `EVT`, else
/// nothing. Which of the two depends on the type the payload was made from,
/// which no spec function here can name, so it is not stated.
#[verifier::external_body]
pub(crate) fn downcast<EVT: 'static>(payload: &Payload) -> Option<&EVT> {
    (*payload.inner).downcast_ref::<EVT>()
}

/// The part of an event that every copy shares: the tag of its type, the
/// sending end of the channel whose receiver waits for all copies to be
/// dropped, and the event that caused it, kept alive as long as this one is.
pub struct EventBox {
    event_id: TypeId,
    event: Payload,
    release: Sender<()>,
    source: Option<Arc<EventBox>>,
}

impl EventBox {
    /// The tag of the type of the event.
    pub closed spec fn event_id_of(&self) -> TypeId {
        self.event_id
    }

    /// The event that caused this one, if any.
    pub closed spec fn source_of(&self) -> Option<Arc<EventBox>> {
        self.source
    }

    pub(crate) fn new(event_id: TypeId, event: Payload, release: Sender<()>, source: Option<Arc<EventBox>>) -> (event_box: Self)
        ensures
            event_box.event_id_of() == event_id,
            event_box.source_of() == source,
    {
        EventBox { event_id, event, release, source }
    }

    /// Tag of the type of event object stored in box.
    pub fn get_event_id(&self) -> (event_id: TypeId)
        ensures
            event_id == self.event_id_of(),
    {
        self.event_id
    }

    /// Access to the event stored in the box: `None` when it is of a type
    /// other than `EVT`.
    pub fn get_event<EVT: Send + Sync + 'static>(&self) -> Option<&EVT> {
        downcast::<EVT>(&self.event)
    }
}

/// One subscriber's copy of an event: the event itself and its shared box.
/// Copies are made by the publisher only, one for each subscriber.
pub struct Event<EVT: Send + Sync + 'static> {
    event_box: Arc<EventBox>,
    event: Arc<EVT>,
}

impl<EVT: Send + Sync + 'static> Event<EVT> {
    /// The event carried.
    pub closed spec fn payload(&self) -> EVT {
        *self.event
    }

    /// The box shared by all copies of the event.
    pub closed spec fn box_of(&self) -> EventBox {
        *self.event_box
    }

    pub(crate) fn new(event_box: Arc<EventBox>, event: Arc<EVT>) -> (copy: Self)
        ensures
            copy.box_of() == *event_box,
            copy.payload() == *event,
    {
        Event { event_box, event }
    }

    /// The box shared by all copies of the event.
    pub fn event_box(&self) -> (event_box: &Arc<EventBox>)
        ensures
            **event_box == self.box_of(),
    {
        &self.event_box
    }

    /// The event carried.
    pub fn get(&self) -> (event: &EVT)
        ensures
            *event == self.payload(),
    {
        &*self.event
    }

    /// The shared box of the event, to pass as the source of the events it
    /// causes.
    pub fn into_source(self) -> (source: Option<Arc<EventBox>>)
        ensures
            source matches Some(b) && *b == self.box_of(),
    {
        Some(self.event_box)
    }
}

impl<EVT: Send + Sync + 'static> Clone for Event<EVT> {
    /// Another copy of the same event; the sender stays blocked until this
    /// one is dropped too.
    fn clone(&self) -> (copy: Self)
        ensures
            copy == *self,
    {
        Event { event_box: arc_clone(&self.event_box), event: arc_clone(&self.event) }
    }
}

impl<EVT: Send + Sync + 'static> std::ops::Deref for Event<EVT> {
    type Target = EVT;

    /// The event carried.
    fn deref(&self) -> (event: &EVT)
        ensures
            *event == self.payload(),
    {
        &*self.event
    }
}

impl<EVT: Send + Sync + 'static> AsRef<EVT> for Event<EVT> {
    /// The event carried.
    fn as_ref(&self) -> (event: &EVT)
        ensures
            *event == self.payload(),
    {
        &*self.event
    }
}

} // verus!
