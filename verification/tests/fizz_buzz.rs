use async_event_streams::{Event, EventStream, EventStreams, Poll};
use futures::task::noop_waker;

#[derive(Copy, Clone, PartialEq, PartialOrd, Debug)]
enum FizzBuzz {
    Expected,
    Number,
    Fizz,
    Buzz,
    FizzBuzz,
}

struct Sink {
    values: Vec<Option<FizzBuzz>>,
}

impl Sink {
    fn new() -> Self {
        Self { values: Vec::new() }
    }
    fn set_value(&mut self, pos: usize, value: FizzBuzz) {
        if pos >= self.values.len() {
            self.values.resize(pos, None);
            self.values.push(Some(value))
        } else if let Some(prev) = self.values[pos] {
            if value > prev {
                self.values[pos] = Some(value)
            }
        } else {
            self.values[pos] = Some(value)
        }
    }
    fn validate(&self) -> bool {
        for (n, res) in self.values.iter().enumerate() {
            if let Some(res) = res {
                let expected = match (n % 5 == 0, n % 3 == 0) {
                    (true, true) => FizzBuzz::FizzBuzz,
                    (true, false) => FizzBuzz::Buzz,
                    (false, true) => FizzBuzz::Fizz,
                    (false, false) => FizzBuzz::Number,
                };
                if *res != expected {
                    return false;
                }
            }
        }
        true
    }
}

fn next(stream: &EventStream<usize>, streams: &mut EventStreams<usize>) -> Option<Event<usize>> {
    match stream.poll_next(streams, noop_waker()) {
        Poll::Ready(event) => event,
        Poll::Pending => None,
    }
}

#[test]
fn fizz_buzz_locapool_sync_call() {
    let mut generator = EventStreams::new();
    let nums = generator.create_event_stream();
    let fizz = generator.create_event_stream();
    let buzz = generator.create_event_stream();
    let fizzbuzz = generator.create_event_stream();
    let mut sink = Sink::new();
    for n in 1..100 {
        sink.set_value(n, FizzBuzz::Expected);
        let mut sent = generator.send_event(n, None);
        while let Some(n) = next(&nums, &mut generator) {
            sink.set_value(*n.get(), FizzBuzz::Number)
        }
        while let Some(n) = next(&fizz, &mut generator) {
            let n = *n.get();
            if n % 3 == 0 {
                sink.set_value(n, FizzBuzz::Fizz)
            }
        }
        while let Some(n) = next(&buzz, &mut generator) {
            let n = *n.get();
            if n % 5 == 0 {
                sink.set_value(n, FizzBuzz::Buzz)
            }
        }
        while let Some(n) = next(&fizzbuzz, &mut generator) {
            let n = *n.get();
            if n % 5 == 0 && n % 3 == 0 {
                sink.set_value(n, FizzBuzz::FizzBuzz)
            }
        }
        assert!(matches!(sent.poll(noop_waker()), Poll::Ready(())));
    }
    generator.close();
    assert!(next(&nums, &mut generator).is_none());
    assert!(sink.validate());
}
