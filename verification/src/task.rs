//! Wakers: the handle through which a waiting task is told to poll again.

use std::task::Waker;
use vstd::prelude::*;

verus! {

/// `std::task::Waker`, carried through the library as an opaque value.
#[verifier::external_type_specification]
#[verifier::external_body]
pub struct ExWaker(Waker);

/// Calls `Waker::wake`, which asks the executor to poll the task that handed
/// out the waker again. It acts on the executor only, so nothing is stated of
/// it; a wake function that panics unwinds through it.
#[verifier::external_body]
pub(crate) fn wake_task(waker: Waker) {
    waker.wake()
}

/// Empties a waker slot, waking the task that was registered in it, if any.
pub(crate) fn wake_slot(slot: &mut Option<Waker>)
    ensures
        *final(slot) is None,
{
    let mut registered: Option<Waker> = None;
    std::mem::swap(&mut registered, slot);
    match registered {
        Some(waker) => wake_task(waker),
        None => {},
    }
}

/// The outcome of polling: a value now, or later, after the registered waker
/// has been woken.
pub enum Poll<T> {
    Ready(T),
    Pending,
}

} // verus!
