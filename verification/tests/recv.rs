//! Operations that receive.
use h2_streams::call::{Call, CountsCall, RecvCall, Reply, SendCall, StateCall};
use h2_streams::error::RecvError;
use h2_streams::frame::{
    Data, Headers, PushPromise, Reason, Reset, Settings, StreamId, WindowUpdate,
};
use h2_streams::peer::Dyn;
use h2_streams::step::{Outcome, Step};
use h2_streams::store::{ContentLength, Key, Stream};
use h2_streams::streams::Streams;
use std::io;

fn recv_id(value: u32) -> StreamId {
    StreamId { value }
}

/// Streams with these identifiers, of the given end.
fn recv_streams(peer: Dyn, ids: &[u32]) -> Streams {
    let mut streams = Streams::new(peer);
    for id in ids {
        let stream = Stream::new(recv_id(*id), 10, 20);
        streams.store_mut().insert(recv_id(*id), stream);
    }
    streams
}

fn recv_key(streams: &Streams, id: u32) -> Key {
    streams.store().find(recv_id(id)).unwrap()
}

/// Replies to one call after the other. Gives the calls and the outcome as text.
fn recv_drive(
    streams: &mut Streams,
    first: Step<u32>,
    replies: Vec<Reply<u32>>,
) -> (Vec<String>, String) {
    let mut calls = Vec::new();
    let mut step = first;
    let mut replies = replies.into_iter();
    loop {
        match step {
            Step::Call { call, pending } => {
                calls.push(format!("{:?}", call));
                let reply = replies.next().expect("one more reply");
                assert!(streams.accepts(&pending, &reply));
                step = streams.resume(pending, reply);
            },
            Step::Done(outcome) => {
                assert!(replies.next().is_none());
                return (calls, format!("{:?}", outcome));
            },
        }
    }
}

fn recv_texts(calls: Vec<Call<u32>>) -> Vec<String> {
    calls.iter().map(|call| format!("{:?}", call)).collect()
}

fn received(result: Result<(), RecvError>) -> String {
    format!("{:?}", Outcome::Received(result))
}

fn protocol_error() -> String {
    received(Err(RecvError::Connection(Reason { code: 1 })))
}

fn begin(key: Key) -> Call<u32> {
    Call::Counts(CountsCall::TransitionStart { key })
}

fn finish(key: Key) -> Call<u32> {
    Call::Counts(CountsCall::TransitionEnd { key })
}

fn headers(id: u32, end_stream: bool) -> Headers<u32> {
    Headers { stream_id: recv_id(id), end_stream, payload: 77 }
}

#[test]
fn headers_open_a_stream() {
    let mut streams = Streams::new(Dyn::Server);
    let first = streams.recv_headers(headers(1, false));
    let (calls, outcome) = recv_drive(
        &mut streams,
        first,
        vec![
            Reply::Opened(Ok(Some(recv_id(1)))),
            Reply::Window(65535),
            Reply::Window(16384),
            Reply::Done,
            Reply::Flag(true),
            Reply::Received(Ok(())),
            Reply::Done,
        ],
    );
    let key = recv_key(&streams, 1);
    assert_eq!(
        calls,
        recv_texts(vec![
            Call::Recv(RecvCall::Open { id: recv_id(1) }),
            Call::Send(SendCall::InitWindowSize),
            Call::Recv(RecvCall::InitWindowSize),
            begin(key),
            Call::State(StateCall::IsRecvHeaders { key }),
            Call::Recv(RecvCall::Headers { key, frame: headers(1, false) }),
            finish(key),
        ])
    );
    assert_eq!(outcome, received(Ok(())));
    let stream = streams.store().resolve(key);
    assert_eq!(stream.id, recv_id(1));
    assert_eq!(stream.init_send_window, 65535);
    assert_eq!(stream.init_recv_window, 16384);
    assert_eq!(stream.content_length, ContentLength::Omitted);
    assert_eq!(stream.ref_count, 0);
    assert!(!stream.is_pending_open);
    assert!(stream.send_task.is_none());
    assert_eq!(streams.num_active_streams(), 1);
}

#[test]
fn headers_of_a_stream_that_is_ignored() {
    let mut streams = Streams::new(Dyn::Server);
    let first = streams.recv_headers(headers(1, false));
    let (calls, outcome) = recv_drive(&mut streams, first, vec![Reply::Opened(Ok(None))]);
    assert_eq!(calls, recv_texts(vec![Call::Recv(RecvCall::Open { id: recv_id(1) })]));
    assert_eq!(outcome, received(Ok(())));
    assert_eq!(streams.num_wired_streams(), 0);
}

#[test]
fn headers_of_a_stream_that_is_not_allowed() {
    let mut streams = Streams::new(Dyn::Server);
    let err = || RecvError::Connection(Reason { code: 7 });
    let first = streams.recv_headers(headers(2, false));
    let (calls, outcome) = recv_drive(&mut streams, first, vec![Reply::Opened(Err(err()))]);
    assert_eq!(calls, recv_texts(vec![Call::Recv(RecvCall::Open { id: recv_id(2) })]));
    assert_eq!(outcome, received(Err(err())));
    assert_eq!(streams.num_wired_streams(), 0);
}

#[test]
fn later_headers_are_trailers() {
    let mut streams = recv_streams(Dyn::Client, &[1, 3]);
    let key = recv_key(&streams, 3);
    let first = streams.recv_headers(headers(3, true));
    let (calls, outcome) = recv_drive(
        &mut streams,
        first,
        vec![Reply::Done, Reply::Flag(false), Reply::Received(Ok(())), Reply::Done],
    );
    assert_eq!(
        calls,
        recv_texts(vec![
            begin(key),
            Call::State(StateCall::IsRecvHeaders { key }),
            Call::Recv(RecvCall::Trailers { key, frame: headers(3, true) }),
            finish(key),
        ])
    );
    assert_eq!(outcome, received(Ok(())));
}

#[test]
fn later_headers_have_to_end_the_stream() {
    let mut streams = recv_streams(Dyn::Client, &[3]);
    let key = recv_key(&streams, 3);
    let first = streams.recv_headers(headers(3, false));
    let (calls, outcome) =
        recv_drive(&mut streams, first, vec![Reply::Done, Reply::Flag(false), Reply::Done]);
    assert_eq!(
        calls,
        recv_texts(vec![
            begin(key),
            Call::State(StateCall::IsRecvHeaders { key }),
            finish(key),
        ])
    );
    assert_eq!(outcome, protocol_error());
}

#[test]
fn stream_error_of_headers_is_answered() {
    let mut streams = recv_streams(Dyn::Client, &[3]);
    let key = recv_key(&streams, 3);
    let reason = Reason { code: 8 };
    let first = streams.recv_headers(headers(3, false));
    let (calls, outcome) = recv_drive(
        &mut streams,
        first,
        vec![
            Reply::Done,
            Reply::Flag(true),
            Reply::Received(Err(RecvError::Stream { id: recv_id(3), reason })),
            Reply::Done,
            Reply::Done,
        ],
    );
    assert_eq!(
        calls,
        recv_texts(vec![
            begin(key),
            Call::State(StateCall::IsRecvHeaders { key }),
            Call::Recv(RecvCall::Headers { key, frame: headers(3, false) }),
            Call::Send(SendCall::Reset { key, reason }),
            finish(key),
        ])
    );
    assert_eq!(outcome, received(Ok(())));
}

fn data(id: u32) -> Data<u32> {
    let mut frame = Data::new(recv_id(id), 5);
    assert!(!frame.end_stream);
    frame.set_end_stream(true);
    frame
}

#[test]
fn data_are_processed() {
    let mut streams = recv_streams(Dyn::Client, &[1]);
    let key = recv_key(&streams, 1);
    let first = streams.recv_data(data(1));
    let (calls, outcome) = recv_drive(
        &mut streams,
        first,
        vec![Reply::Done, Reply::Received(Ok(())), Reply::Done],
    );
    let frame = Data { stream_id: recv_id(1), end_stream: true, payload: 5 };
    assert_eq!(
        calls,
        recv_texts(vec![begin(key), Call::Recv(RecvCall::Data { key, frame }), finish(key)])
    );
    assert_eq!(outcome, received(Ok(())));
}

#[test]
fn data_without_a_stream() {
    let mut streams = recv_streams(Dyn::Client, &[1]);
    let first = streams.recv_data(data(3));
    let (calls, outcome) = recv_drive(&mut streams, first, vec![]);
    assert!(calls.is_empty());
    assert_eq!(outcome, protocol_error());
}

#[test]
fn stream_error_of_data_is_answered() {
    let mut streams = recv_streams(Dyn::Server, &[1]);
    let key = recv_key(&streams, 1);
    let reason = Reason { code: 3 };
    let first = streams.recv_data(data(1));
    let (calls, outcome) = recv_drive(
        &mut streams,
        first,
        vec![
            Reply::Done,
            Reply::Received(Err(RecvError::Stream { id: recv_id(1), reason })),
            Reply::Done,
            Reply::Done,
        ],
    );
    assert_eq!(
        calls,
        recv_texts(vec![
            begin(key),
            Call::Recv(RecvCall::Data { key, frame: data(1) }),
            Call::Send(SendCall::Reset { key, reason }),
            finish(key),
        ])
    );
    assert_eq!(outcome, received(Ok(())));
}

#[test]
fn other_errors_of_data_are_handed_on() {
    let mut streams = recv_streams(Dyn::Server, &[1]);
    let connection = || RecvError::Connection(Reason { code: 3 });
    let broken = || RecvError::Io(io::Error::from(io::ErrorKind::BrokenPipe));
    let first = streams.recv_data(data(1));
    let (calls, outcome) = recv_drive(
        &mut streams,
        first,
        vec![Reply::Done, Reply::Received(Err(connection())), Reply::Done],
    );
    assert_eq!(calls.len(), 3);
    assert_eq!(outcome, received(Err(connection())));
    let first = streams.recv_data(data(1));
    let (calls, outcome) = recv_drive(
        &mut streams,
        first,
        vec![Reply::Done, Reply::Received(Err(broken())), Reply::Done],
    );
    assert_eq!(calls.len(), 3);
    assert_eq!(outcome, received(Err(broken())));
}

fn reset(id: u32) -> Reset {
    Reset { stream_id: recv_id(id), reason: Reason { code: 8 } }
}

#[test]
fn reset_closes_the_stream() {
    let mut streams = recv_streams(Dyn::Client, &[1]);
    let key = recv_key(&streams, 1);
    let first = streams.recv_reset(reset(1));
    let (calls, outcome) = recv_drive(
        &mut streams,
        first,
        vec![Reply::Done, Reply::Received(Ok(())), Reply::Flag(true), Reply::Done],
    );
    assert_eq!(
        calls,
        recv_texts(vec![
            begin(key),
            Call::Recv(RecvCall::Reset { key, frame: reset(1) }),
            Call::State(StateCall::IsClosed { key }),
            finish(key),
        ])
    );
    assert_eq!(outcome, received(Ok(())));
}

#[test]
fn reset_that_leaves_the_stream_open_is_not_accepted() {
    let mut streams = recv_streams(Dyn::Client, &[1]);
    let mut step: Step<u32> = streams.recv_reset(reset(1));
    for reply in vec![Reply::Done, Reply::Received(Ok(()))] {
        step = match step {
            Step::Call { pending, .. } => streams.resume(pending, reply),
            Step::Done(_) => panic!("came to its end too early"),
        };
    }
    match step {
        Step::Call { pending, .. } => {
            assert!(!streams.accepts(&pending, &Reply::Flag(false)));
            assert!(!streams.accepts(&pending, &Reply::Done));
            assert!(streams.accepts(&pending, &Reply::Flag(true)));
        },
        Step::Done(_) => panic!("came to its end too early"),
    }
}

#[test]
fn reset_that_fails() {
    let mut streams = recv_streams(Dyn::Client, &[1]);
    let key = recv_key(&streams, 1);
    let err = || RecvError::Stream { id: recv_id(1), reason: Reason { code: 1 } };
    let first = streams.recv_reset(reset(1));
    let (calls, outcome) = recv_drive(
        &mut streams,
        first,
        vec![Reply::Done, Reply::Received(Err(err())), Reply::Done],
    );
    assert_eq!(
        calls,
        recv_texts(vec![
            begin(key),
            Call::Recv(RecvCall::Reset { key, frame: reset(1) }),
            finish(key),
        ])
    );
    assert_eq!(outcome, received(Err(err())));
}

#[test]
fn reset_on_stream_zero() {
    let mut streams = recv_streams(Dyn::Client, &[1]);
    let first = streams.recv_reset(reset(0));
    let (calls, outcome) = recv_drive(&mut streams, first, vec![]);
    assert!(calls.is_empty());
    assert_eq!(outcome, protocol_error());
}

#[test]
fn reset_on_a_forgotten_stream_asks_the_end_that_opens_it() {
    let local = |id| Call::Send(SendCall::EnsureNotIdle { id: recv_id(id) });
    let remote = |id| Call::Recv(RecvCall::EnsureNotIdle { id: recv_id(id) });
    for (peer, id, call) in vec![
        (Dyn::Client, 5, local(5)),
        (Dyn::Client, 6, remote(6)),
        (Dyn::Server, 5, remote(5)),
        (Dyn::Server, 6, local(6)),
    ] {
        let mut streams = Streams::new(peer);
        let first = streams.recv_reset(reset(id));
        let (calls, outcome) = recv_drive(&mut streams, first, vec![Reply::Checked(Ok(()))]);
        assert_eq!(calls, recv_texts(vec![call]));
        assert_eq!(outcome, received(Ok(())));
    }
}

#[test]
fn reset_on_an_idle_stream() {
    let mut streams = Streams::new(Dyn::Client);
    let reason = Reason { code: 1 };
    let first = streams.recv_reset(reset(5));
    let (_, outcome) = recv_drive(&mut streams, first, vec![Reply::Checked(Err(reason))]);
    assert_eq!(outcome, received(Err(RecvError::Connection(reason))));
}

fn update(id: u32) -> WindowUpdate {
    WindowUpdate { stream_id: recv_id(id), size_increment: 100 }
}

#[test]
fn window_update_of_the_connection() {
    let mut streams = recv_streams(Dyn::Client, &[1]);
    let reason = Reason { code: 3 };
    for (result, expected) in vec![
        (Ok(()), received(Ok(()))),
        (Err(reason), received(Err(RecvError::Connection(reason)))),
    ] {
        let first = streams.recv_window_update(update(0));
        let (calls, outcome) = recv_drive(&mut streams, first, vec![Reply::Checked(result)]);
        let frame = update(0);
        assert_eq!(
            calls,
            recv_texts(vec![Call::Send(SendCall::RecvConnectionWindowUpdate { frame })])
        );
        assert_eq!(outcome, expected);
    }
}

#[test]
fn window_update_of_a_stream_is_no_error() {
    let mut streams = recv_streams(Dyn::Client, &[1]);
    let key = recv_key(&streams, 1);
    let first = streams.recv_window_update(update(1));
    let reply = Reply::Checked(Err(Reason { code: 3 }));
    let (calls, outcome) = recv_drive(&mut streams, first, vec![reply]);
    assert_eq!(
        calls,
        recv_texts(vec![Call::Send(SendCall::RecvStreamWindowUpdate { key, size_increment: 100 })])
    );
    assert_eq!(outcome, received(Ok(())));
}

#[test]
fn window_update_of_a_forgotten_stream_asks_the_end_that_opens_it() {
    let local = |id| Call::Send(SendCall::EnsureNotIdle { id: recv_id(id) });
    let remote = |id| Call::Recv(RecvCall::EnsureNotIdle { id: recv_id(id) });
    for (peer, id, call) in vec![
        (Dyn::Client, 3, local(3)),
        (Dyn::Client, 2, remote(2)),
        (Dyn::Server, 3, remote(3)),
        (Dyn::Server, 2, local(2)),
    ] {
        let mut streams = recv_streams(peer, &[1]);
        let before = format!("{:?}", streams);
        let first = streams.recv_window_update(update(id));
        let (calls, outcome) = recv_drive(&mut streams, first, vec![Reply::Checked(Ok(()))]);
        assert_eq!(calls, recv_texts(vec![call]));
        assert_eq!(outcome, received(Ok(())));
        assert_eq!(format!("{:?}", streams), before);
    }
}

#[test]
fn window_update_of_an_idle_stream() {
    let reason = Reason { code: 1 };
    for id in vec![2, 3] {
        let mut streams = recv_streams(Dyn::Client, &[1]);
        let first = streams.recv_window_update(update(id));
        let (calls, outcome) =
            recv_drive(&mut streams, first, vec![Reply::Checked(Err(reason))]);
        assert_eq!(calls.len(), 1);
        assert_eq!(outcome, received(Err(RecvError::Connection(reason))));
    }
}

fn promise(id: u32) -> PushPromise<u32> {
    PushPromise { stream_id: recv_id(id), payload: 2 }
}

#[test]
fn promise_to_a_client() {
    let mut streams = recv_streams(Dyn::Client, &[1]);
    let key = recv_key(&streams, 1);
    let err = || RecvError::Stream { id: recv_id(2), reason: Reason { code: 7 } };
    let first = streams.recv_push_promise(promise(1));
    let (calls, outcome) = recv_drive(&mut streams, first, vec![Reply::Received(Err(err()))]);
    assert_eq!(
        calls,
        recv_texts(vec![Call::Recv(RecvCall::PushPromise { key, frame: promise(1) })])
    );
    assert_eq!(outcome, received(Err(err())));
}

#[test]
fn promise_to_a_server() {
    let mut streams = recv_streams(Dyn::Server, &[1]);
    let first = streams.recv_push_promise(promise(1));
    let (calls, outcome) = recv_drive(&mut streams, first, vec![]);
    assert!(calls.is_empty());
    assert_eq!(outcome, protocol_error());
}

#[test]
fn promise_without_a_stream() {
    let mut streams = recv_streams(Dyn::Client, &[1]);
    let first = streams.recv_push_promise(promise(3));
    let (calls, outcome) = recv_drive(&mut streams, first, vec![]);
    assert!(calls.is_empty());
    assert_eq!(outcome, protocol_error());
}

#[test]
fn settings_are_counted_before_they_are_applied() {
    let mut streams = recv_streams(Dyn::Client, &[1]);
    let frame = Settings {
        header_table_size: None,
        enable_push: Some(0),
        max_concurrent_streams: Some(100),
        initial_window_size: Some(32768),
        max_frame_size: None,
        max_header_list_size: None,
    };
    let err = || RecvError::Connection(Reason { code: 3 });
    let first = streams.apply_remote_settings(&frame);
    let (calls, outcome) =
        recv_drive(&mut streams, first, vec![Reply::Done, Reply::Received(Err(err()))]);
    assert_eq!(
        calls,
        recv_texts(vec![
            Call::Counts(CountsCall::ApplyRemoteSettings { frame }),
            Call::Send(SendCall::ApplyRemoteSettings { frame }),
        ])
    );
    assert_eq!(outcome, received(Err(err())));
}

#[test]
fn new_stream_leaves_the_others_alone() {
    let mut streams = recv_streams(Dyn::Server, &[1, 5]);
    let keys = vec![recv_key(&streams, 1), recv_key(&streams, 5)];
    let before: Vec<String> =
        keys.iter().map(|key| format!("{:?}", streams.store().resolve(*key))).collect();
    let reason = Reason { code: 3 };
    let first = streams.recv_headers(headers(7, false));
    let (calls, outcome) = recv_drive(
        &mut streams,
        first,
        vec![
            Reply::Opened(Ok(Some(recv_id(7)))),
            Reply::Window(1),
            Reply::Window(2),
            Reply::Done,
            Reply::Flag(true),
            Reply::Received(Err(RecvError::Stream { id: recv_id(7), reason })),
            Reply::Done,
            Reply::Done,
        ],
    );
    assert_eq!(calls.len(), 8);
    assert_eq!(outcome, received(Ok(())));
    let after: Vec<String> =
        keys.iter().map(|key| format!("{:?}", streams.store().resolve(*key))).collect();
    assert_eq!(before, after);
    assert_eq!(streams.store().keys(), vec![keys[0], keys[1], recv_key(&streams, 7)]);
}
