//! Publishing events to any number of subscribers, each reading its own
//! ordered queue of them.
//!
//! An [`EventStreams`] holds one queue per subscriber. Posting or sending an
//! event puts a copy of it into every subscriber's queue; each subscriber's
//! [`EventStream`] hands its copies out in the order they were put. A sender
//! can wait, through the [`SentEvent`] it gets back, until every copy has been
//! dropped, and an event can name the event that caused it, which then stays
//! alive, and its sender blocked, as long as the new one does.

mod task;

pub mod event;
pub mod event_queue;
pub mod event_sink_attr;
pub mod event_streams;
pub mod laws;
pub mod pipes;
pub mod registry;

pub use event::{Event, EventBox};
pub use event_queue::EventBoxQueue;
pub use event_sink_attr::{event_sink_targets, take_params, AttrArgs, AttrModel, ParamError};
pub use event_streams::{EventStream, EventStreams, SentEvent};
pub use pipes::{pipe_action, pipe_failure, PipeAction};
pub use task::Poll;
