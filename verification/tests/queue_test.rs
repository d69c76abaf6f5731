use async_event_streams::EventBoxQueue;
use std::sync::atomic::{AtomicUsize, Ordering::SeqCst};
use std::sync::Arc;
use std::task::{Wake, Waker};

struct WakeCount(AtomicUsize);

impl Wake for WakeCount {
    fn wake(self: Arc<Self>) {
        self.0.fetch_add(1, SeqCst);
    }
}

fn counting_waker() -> (Arc<WakeCount>, Waker) {
    let count = Arc::new(WakeCount(AtomicUsize::new(0)));
    let waker = Waker::from(count.clone());
    (count, waker)
}

#[test]
fn queue_hands_out_events_in_order() {
    let mut queue = EventBoxQueue::new();
    assert!(!queue.is_detached());
    assert_eq!(queue.get_event(), None::<u32>);
    queue.put_event(1u32);
    queue.put_event(2);
    queue.put_event(3);
    assert_eq!(queue.get_event(), Some(1));
    queue.put_event(4);
    assert_eq!(queue.get_event(), Some(2));
    assert_eq!(queue.get_event(), Some(3));
    assert_eq!(queue.get_event(), Some(4));
    assert_eq!(queue.get_event(), None);
}

#[test]
fn queue_put_wakes_waiting_task_once() {
    let (count, waker) = counting_waker();
    let mut queue = EventBoxQueue::new();
    queue.set_waker(waker);
    assert_eq!(count.0.load(SeqCst), 0);
    queue.put_event(7u8);
    assert_eq!(count.0.load(SeqCst), 1);
    // the waker is forgotten once used
    queue.put_event(8);
    assert_eq!(count.0.load(SeqCst), 1);
    assert_eq!(queue.get_event(), Some(7));
}

#[test]
fn queue_detach_keeps_events_and_wakes() {
    let (count, waker) = counting_waker();
    let mut queue = EventBoxQueue::new();
    queue.put_event(5u8);
    queue.set_waker(waker);
    queue.detach();
    assert!(queue.is_detached());
    assert_eq!(count.0.load(SeqCst), 1);
    assert_eq!(queue.get_event(), Some(5));
    assert_eq!(queue.get_event(), None);
}

#[test]
fn queue_wake_wakes_the_registered_task_once() {
    let (count, waker) = counting_waker();
    let mut queue: EventBoxQueue<u8> = EventBoxQueue::new();
    queue.wake();
    queue.set_waker(waker);
    queue.wake();
    assert_eq!(count.0.load(SeqCst), 1);
    queue.wake();
    assert_eq!(count.0.load(SeqCst), 1);
}

#[test]
fn queue_set_waker_replaces_the_registered_task() {
    let (first, first_waker) = counting_waker();
    let (second, second_waker) = counting_waker();
    let mut queue = EventBoxQueue::new();
    queue.set_waker(first_waker);
    queue.set_waker(second_waker);
    queue.put_event(1u8);
    assert_eq!(first.0.load(SeqCst), 0);
    assert_eq!(second.0.load(SeqCst), 1);
}

#[test]
fn queue_clear_drops_pending_events_only() {
    let mut queue = EventBoxQueue::new();
    queue.put_event(1u8);
    queue.put_event(2);
    queue.detach();
    queue.clear();
    assert!(queue.is_detached());
    assert_eq!(queue.get_event(), None);
}
