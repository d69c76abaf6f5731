use async_event_streams::{Event, EventStream, EventStreams, Poll, SentEvent};
use futures::task::noop_waker;

fn next<T: Send + Sync + 'static>(
    stream: &EventStream<T>,
    streams: &mut EventStreams<T>,
) -> Option<Event<T>> {
    match stream.poll_next(streams, noop_waker()) {
        Poll::Ready(event) => event,
        Poll::Pending => panic!("the stream should have had an event"),
    }
}

fn is_pending<T: Send + Sync + 'static>(stream: &EventStream<T>, streams: &mut EventStreams<T>) -> bool {
    matches!(stream.poll_next(streams, noop_waker()), Poll::Pending)
}

fn is_released(sent: &mut SentEvent) -> bool {
    matches!(sent.poll(noop_waker()), Poll::Ready(()))
}

#[test]
fn test_send_event() {
    let mut subscribers = EventStreams::new();
    let numbers = subscribers.create_event_stream();

    let mut sent = subscribers.send_event(1 as usize, None);
    let n1 = next(&numbers, &mut subscribers).unwrap();
    assert!(*n1.get() == 1);
    // The sender waits for every copy of the event to be dropped.
    assert!(!is_released(&mut sent));
    drop(n1);
    assert!(is_released(&mut sent));

    let mut sent = subscribers.send_event(2 as usize, None);
    let n2 = next(&numbers, &mut subscribers).unwrap();
    assert!(*n2.get() == 2);
    // Sending next event blocked by not dropped previous one
    assert!(!is_released(&mut sent));
    assert!(is_pending(&numbers, &mut subscribers));
    drop(n2);
    assert!(is_released(&mut sent));

    let mut sent = subscribers.send_event(3 as usize, None);
    let n3 = next(&numbers, &mut subscribers).unwrap();
    assert!(*n3.get() == 3);
    drop(n3);
    assert!(is_released(&mut sent));

    // the publisher is dropped, stream returns None
    subscribers.close();
    assert!(next(&numbers, &mut subscribers).is_none());
}

#[test]
fn test_send_dependent_event() {
    let mut source = EventStreams::new();
    let mut evens = EventStreams::new();
    let mut odds = EventStreams::new();
    let for_evens = source.create_event_stream();
    let for_odds = source.create_event_stream();
    let even_numbers = evens.create_event_stream();
    let odd_numbers = odds.create_event_stream();

    let mut expect = 0;
    for n in 0usize..10 {
        let mut sent = source.send_event(n, None);
        let en_even = next(&for_evens, &mut source).unwrap();
        let en_odd = next(&for_odds, &mut source).unwrap();
        let m = *en_even.get();
        assert!(*en_odd.get() == m);
        let (mut derived, relays, readers) = if m % 2 == 0 {
            drop(en_odd);
            (evens.send_event(m, en_even.into_source()), &mut evens, &even_numbers)
        } else {
            drop(en_even);
            (odds.send_event(m, en_odd.into_source()), &mut odds, &odd_numbers)
        };
        // The source event is held by the derived one until it is handled.
        assert!(!is_released(&mut sent));
        let received = next(readers, relays).unwrap();
        assert!(*received.get() == expect);
        expect += 1;
        assert!(!is_released(&mut derived));
        assert!(!is_released(&mut sent));
        drop(received);
        assert!(is_released(&mut derived));
        assert!(is_released(&mut sent));
    }
    assert!(expect == 10);

    source.close();
    evens.close();
    odds.close();
    assert!(next(&for_evens, &mut source).is_none());
    assert!(next(&for_odds, &mut source).is_none());
    assert!(next(&even_numbers, &mut evens).is_none());
    assert!(next(&odd_numbers, &mut odds).is_none());
}
