use async_event_streams::{pipe_action, Event, EventStream, EventStreams, PipeAction, Poll, SentEvent};
use futures::task::noop_waker;
use std::sync::atomic::{AtomicUsize, Ordering::SeqCst};
use std::sync::Arc;
use std::task::{Wake, Waker};

struct WakeCount(AtomicUsize);

impl Wake for WakeCount {
    fn wake(self: Arc<Self>) {
        self.0.fetch_add(1, SeqCst);
    }
}

fn counting_waker() -> (Arc<WakeCount>, Waker) {
    let count = Arc::new(WakeCount(AtomicUsize::new(0)));
    let waker = Waker::from(count.clone());
    (count, waker)
}

fn poll<T: Send + Sync + 'static>(
    stream: &EventStream<T>,
    streams: &mut EventStreams<T>,
) -> Poll<Option<Event<T>>> {
    stream.poll_next(streams, noop_waker())
}

fn ready_value<T: Send + Sync + Copy + 'static>(outcome: Poll<Option<Event<T>>>) -> Option<T> {
    match outcome {
        Poll::Ready(Some(event)) => Some(*event.get()),
        Poll::Ready(None) => None,
        Poll::Pending => panic!("expected an outcome"),
    }
}

fn is_released(sent: &mut SentEvent) -> bool {
    matches!(sent.poll(noop_waker()), Poll::Ready(()))
}

#[test]
fn count_follows_subscriptions() {
    let mut streams: EventStreams<u32> = EventStreams::new();
    assert_eq!(streams.count(), 0);
    let a = streams.create_event_stream();
    let b = streams.create_event_stream();
    let c = streams.create_event_stream();
    assert_eq!(streams.count(), 3);
    streams.remove_event_stream(b);
    assert_eq!(streams.count(), 2);
    // the freed slot goes to the next subscriber
    let d = streams.create_event_stream();
    assert_eq!(streams.count(), 3);
    streams.post_event(9, None);
    streams.clear();
    streams.close();
    assert_eq!(streams.count(), 3);
    streams.remove_event_stream(a);
    streams.remove_event_stream(c);
    streams.remove_event_stream(d);
    assert_eq!(streams.count(), 0);
}

#[test]
fn every_subscriber_reads_every_event_in_order() {
    let mut streams = EventStreams::new();
    let a = streams.create_event_stream();
    streams.post_event(1u32, None);
    let b = streams.create_event_stream();
    streams.post_event(2, None);
    streams.post_event(3, None);
    assert_eq!(ready_value(poll(&a, &mut streams)), Some(1));
    assert_eq!(ready_value(poll(&b, &mut streams)), Some(2));
    assert_eq!(ready_value(poll(&a, &mut streams)), Some(2));
    assert_eq!(ready_value(poll(&a, &mut streams)), Some(3));
    assert!(matches!(poll(&a, &mut streams), Poll::Pending));
    assert_eq!(ready_value(poll(&b, &mut streams)), Some(3));
    assert!(matches!(poll(&b, &mut streams), Poll::Pending));
}

#[test]
fn waiting_subscriber_is_woken_by_next_event() {
    let (count, waker) = counting_waker();
    let mut streams = EventStreams::new();
    let a = streams.create_event_stream();
    assert!(matches!(a.poll_next(&mut streams, waker), Poll::Pending));
    assert_eq!(count.0.load(SeqCst), 0);
    streams.post_event(42u64, None);
    assert_eq!(count.0.load(SeqCst), 1);
    assert_eq!(ready_value(poll(&a, &mut streams)), Some(42));
}

#[test]
fn closed_streams_drain_then_end() {
    let (count, waker) = counting_waker();
    let mut streams = EventStreams::new();
    let a = streams.create_event_stream();
    let b = streams.create_event_stream();
    streams.post_event(1u8, None);
    streams.post_event(2, None);
    assert_eq!(ready_value(poll(&b, &mut streams)), Some(1));
    assert_eq!(ready_value(poll(&b, &mut streams)), Some(2));
    assert!(matches!(b.poll_next(&mut streams, waker), Poll::Pending));
    streams.close();
    // the waiting subscriber is told
    assert_eq!(count.0.load(SeqCst), 1);
    assert_eq!(ready_value(poll(&b, &mut streams)), None);
    assert_eq!(ready_value(poll(&a, &mut streams)), Some(1));
    assert_eq!(ready_value(poll(&a, &mut streams)), Some(2));
    assert_eq!(ready_value(poll(&a, &mut streams)), None);
    assert_eq!(ready_value(poll(&a, &mut streams)), None);
}

#[test]
fn clear_drops_pending_events() {
    let mut streams = EventStreams::new();
    let a = streams.create_event_stream();
    let mut sent = streams.send_event(1u8, None);
    streams.post_event(2, None);
    assert!(!is_released(&mut sent));
    streams.clear();
    // the dropped copy no longer holds the sender
    assert!(is_released(&mut sent));
    assert!(matches!(poll(&a, &mut streams), Poll::Pending));
    streams.post_event(3, None);
    assert_eq!(ready_value(poll(&a, &mut streams)), Some(3));
}

#[test]
fn removed_subscription_releases_its_events_and_ends() {
    let mut streams = EventStreams::new();
    let a = streams.create_event_stream();
    let b = streams.create_event_stream();
    let mut sent = streams.send_event(1u8, None);
    let copy = poll(&a, &mut streams);
    streams.remove_event_stream(b);
    assert!(!is_released(&mut sent));
    drop(copy);
    assert!(is_released(&mut sent));
}

#[test]
fn stale_subscription_reads_end_of_stream() {
    let mut first: EventStreams<u8> = EventStreams::new();
    let mut second: EventStreams<u8> = EventStreams::new();
    let _a = first.create_event_stream();
    let b = first.create_event_stream();
    assert_eq!(ready_value(poll(&b, &mut second)), None);
}

#[test]
fn send_without_subscribers_is_released_at_once() {
    let mut streams = EventStreams::new();
    let mut sent = streams.send_event(5u8, None);
    assert!(is_released(&mut sent));
}

#[test]
fn sent_event_wakes_sender_when_last_copy_dropped() {
    let (count, waker) = counting_waker();
    let mut streams = EventStreams::new();
    let a = streams.create_event_stream();
    let mut sent = streams.send_event(5u8, None);
    assert!(matches!(sent.poll(waker), Poll::Pending));
    let copy = match poll(&a, &mut streams) {
        Poll::Ready(Some(event)) => event,
        _ => panic!("event expected"),
    };
    let second = copy.clone();
    assert_eq!(*second.get(), 5);
    drop(copy);
    assert_eq!(count.0.load(SeqCst), 0);
    drop(second);
    assert_eq!(count.0.load(SeqCst), 1);
    assert!(is_released(&mut sent));
}

#[test]
fn events_of_one_type_share_the_type_tag() {
    let mut streams = EventStreams::new();
    let a = streams.create_event_stream();
    streams.post_event(1u16, None);
    streams.post_event(2, None);
    let first = match poll(&a, &mut streams) {
        Poll::Ready(Some(event)) => event,
        _ => panic!("event expected"),
    };
    let second = match poll(&a, &mut streams) {
        Poll::Ready(Some(event)) => event,
        _ => panic!("event expected"),
    };
    assert_eq!(first.event_box().get_event_id(), std::any::TypeId::of::<u16>());
    assert_eq!(first.event_box().get_event_id(), second.event_box().get_event_id());
}

#[test]
fn derived_event_keeps_its_source_alive() {
    let mut source = EventStreams::new();
    let mut derived = EventStreams::new();
    let s = source.create_event_stream();
    let d = derived.create_event_stream();
    let mut sent = source.send_event(1u8, None);
    let cause = match poll(&s, &mut source) {
        Poll::Ready(Some(event)) => event,
        _ => panic!("event expected"),
    };
    derived.post_event(10u8, cause.into_source());
    assert!(!is_released(&mut sent));
    let effect = poll(&d, &mut derived);
    assert!(!is_released(&mut sent));
    drop(effect);
    assert!(is_released(&mut sent));
}

#[test]
fn pipe_delivers_event_with_its_box_as_source() {
    let mut streams = EventStreams::new();
    let a = streams.create_event_stream();
    streams.post_event(3u8, None);
    let next = match poll(&a, &mut streams) {
        Poll::Ready(event) => event,
        Poll::Pending => panic!("event expected"),
    };
    match pipe_action(next) {
        PipeAction::Deliver(event, Some(source)) => {
            assert_eq!(*event.get(), 3);
            assert!(Arc::ptr_eq(&source, event.event_box()));
        }
        _ => panic!("delivery expected"),
    }
    assert!(matches!(pipe_action::<u8>(None), PipeAction::Finish));
}

#[test]
fn dropped_stream_is_no_longer_subscribed() {
    let mut streams = EventStreams::new();
    let a = streams.create_event_stream();
    assert_eq!(streams.count(), 1);
    {
        let _b = streams.create_event_stream();
        assert_eq!(streams.count(), 2);
    }
    assert_eq!(streams.count(), 1);
    // the freed slot gets no copies, so the sender is held by `a` alone
    let mut sent = streams.send_event(4u8, None);
    let copy = poll(&a, &mut streams);
    assert!(!is_released(&mut sent));
    drop(copy);
    assert!(is_released(&mut sent));
    drop(a);
    assert_eq!(streams.count(), 0);
}

#[test]
fn dropped_stream_releases_its_pending_events_when_swept() {
    let mut streams = EventStreams::new();
    let a = streams.create_event_stream();
    let mut sent = streams.send_event(4u8, None);
    drop(a);
    assert!(!is_released(&mut sent));
    assert_eq!(streams.count(), 0);
    assert!(is_released(&mut sent));
}

#[test]
fn pending_poll_registers_the_polling_task() {
    let (first, first_waker) = counting_waker();
    let (second, second_waker) = counting_waker();
    let mut streams = EventStreams::new();
    let a = streams.create_event_stream();
    assert!(matches!(a.poll_next(&mut streams, first_waker), Poll::Pending));
    assert!(matches!(a.poll_next(&mut streams, second_waker), Poll::Pending));
    streams.post_event(1u8, None);
    assert_eq!(first.0.load(SeqCst), 0);
    assert_eq!(second.0.load(SeqCst), 1);
}

#[test]
fn event_derefs_to_its_value() {
    let mut streams = EventStreams::new();
    let a = streams.create_event_stream();
    streams.post_event(String::from("hi"), None);
    let event = match poll(&a, &mut streams) {
        Poll::Ready(Some(event)) => event,
        _ => panic!("event expected"),
    };
    assert_eq!(event.len(), 2);
    let as_ref: &String = event.as_ref();
    assert_eq!(as_ref, "hi");
}

#[test]
fn event_box_gives_the_event_of_its_type_only() {
    let mut streams = EventStreams::new();
    let a = streams.create_event_stream();
    streams.post_event(17u32, None);
    let event = match poll(&a, &mut streams) {
        Poll::Ready(Some(event)) => event,
        _ => panic!("event expected"),
    };
    let source = event.into_source().unwrap();
    assert_eq!(source.get_event::<u32>(), Some(&17));
    assert_eq!(source.get_event::<u64>(), None);
}
