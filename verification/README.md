# h2_streams

The coordinator of the streams of one HTTP/2 connection, verified with Verus.

It decides what happens to a stream when a frame arrives, when the user of a handle acts, and when
the connection ends. It does no I/O and owns no flow control, frame codec or stream state machine:
an operation is a sequence of calls into the receiving half, the sending half and the counters of
the connection. A method such as `Streams::recv_headers` gives the first `Step`, which is a `Call`
to make or the `Outcome`; `Streams::resume` takes the `Reply` and gives the next one.

- `src/streams/` holds the operations: `recv` for frames, `sweep` for the end of the connection,
  `request` for requests, `send` and `handle` for handles, `poll` for the connection as a whole.
- `src/store.rs` keeps the streams, `src/call.rs` and `src/step.rs` describe calls and progress.
- `src/laws/` states and proves what holds of whole operations and of any number of them: the calls
  that each operation makes and its result, that transitions are closed and operations end, that
  every handle is counted, and that a connection which has failed refuses requests.
- `app/` shares a connection between threads and runs the operations. What the two halves do is
  chosen there, by an implementation of the trait `Halves`.

Three things are trusted of other crates: how `http::Method` tells `HEAD` from other methods
(`src/method.rs`), that `Arc::clone` leads to the same error (`src/error.rs`), and that the tasks of
`futures` and the errors of `std::io` and their kinds can be carried along.
