//! The decision a pipe makes each time its source stream hands it something.

use std::sync::Arc;
use vstd::prelude::*;

use crate::event::{arc_clone, Event, EventBox};

verus! {

/// What a pipe from a source stream to a sink does next.
pub enum PipeAction<EVT: Send + Sync + 'static> {
    /// Hand the event to the sink, with its box as the source of any event
    /// the sink sends in reaction, so that the source's sender stays blocked
    /// until those are handled too.
    Deliver(Event<EVT>, Option<Arc<EventBox>>),
    /// The source stream has ended, and so does the pipe.
    Finish,
}

/// The pipe's next step, given what the source stream handed out.
pub fn pipe_action<EVT: Send + Sync + 'static>(next: Option<Event<EVT>>) -> (action: PipeAction<EVT>)
    ensures
        match next {
            Some(event) => {
                &&& action matches PipeAction::Deliver(delivered, source)
                &&& delivered == event
                &&& source matches Some(b)
                &&& *b == event.box_of()
            },
            None => action is Finish,
        },
{
    match next {
        Some(event) => {
            let source = Some(arc_clone(event.event_box()));
            PipeAction::Deliver(event, source)
        },
        None => PipeAction::Finish,
    }
}

/// What a pipe does once the sink has handled an event: go on when it
/// succeeded, or stop and hand the sink's error to the error handler.
pub fn pipe_failure<E>(handled: Result<(), E>) -> (failure: Option<E>)
    ensures
        match handled {
            Ok(()) => failure is None,
            Err(e) => failure == Some(e),
        },
{
    match handled {
        Ok(()) => None,
        Err(e) => Some(e),
    }
}

} // verus!
