# async_event_streams

Publishing events to any number of subscribers, each reading its own ordered
queue of them.

- `src/` is the verified library. `EventStreams` keeps one `EventBoxQueue` per
  subscriber, in slots. A slot stays taken while its `EventStream` handle
  lives; slots whose handles were dropped are freed when the publisher next
  counts, posts, sends or subscribes. Posting or sending an event puts a copy
  into every remaining queue; a subscriber's `EventStream` polls its own
  queue. The laws in `src/laws.rs` state the order in which subscribers read,
  however posts and polls interleave, how streams end once the publisher
  closes, and how the number of subscribers evolves. `src/event_sink_attr.rs`
  reads the `#[event_sink(event = E)]` attributes for which `EventSink` impls
  are derived.
- A `SentEvent` completes when the box shared by all copies of its event is
  dropped: that rests on `Arc`'s counting and on the `futures` one-shot
  channel whose sender the box holds; the library states only which copies
  it hands out and which box names which source.
- `app/` is the asynchronous front end: it shares a publisher between its
  owner and the streams of its subscribers behind a mutex, implements the
  `futures` `Stream` and `Future` traits over the library's polls, ends a
  subscription as soon as its stream is dropped, closes the publisher when
  its owner drops it, and runs pipes from event sources to event sinks.
