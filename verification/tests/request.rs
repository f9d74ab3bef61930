//! Requests.
use futures::executor;
use futures::future::lazy;
use futures::task::{self, Task};
use h2_streams::call::{Call, ConvertCall, RecvCall, Reply, SendCall, StateCall};
use h2_streams::error::{SendError, UserError};
use h2_streams::frame::{Request, StreamId};
use h2_streams::peer::Dyn;
use h2_streams::step::{Outcome, Readiness, Step};
use h2_streams::store::{ContentLength, Key, Stream};
use h2_streams::streams::Streams;

fn request_id(value: u32) -> StreamId {
    StreamId { value }
}

fn request(method: &str) -> Request<u32> {
    Request { method: String::from(method), payload: 42 }
}

fn some_task() -> Task {
    executor::spawn(lazy(|| Ok::<Task, ()>(task::current()))).wait_future().unwrap()
}

/// Replies to one call after the other. Gives the calls as text, and the outcome.
fn request_drive(
    streams: &mut Streams,
    first: Step<u32>,
    replies: Vec<Reply<u32>>,
) -> (Vec<String>, Outcome) {
    let mut calls = Vec::new();
    let mut step = first;
    let mut replies = replies.into_iter();
    loop {
        match step {
            Step::Call { call, pending } => {
                calls.push(format!("{:?}", call));
                let reply = replies.next().expect("one more reply");
                assert!(streams.accepts(&pending, &reply));
                step = streams.resume(pending, reply);
            },
            Step::Done(outcome) => {
                assert!(replies.next().is_none());
                return (calls, outcome);
            },
        }
    }
}

fn request_texts(calls: Vec<Call<u32>>) -> Vec<String> {
    calls.iter().map(|call| format!("{:?}", call)).collect()
}

fn refusal(outcome: Outcome) -> SendError {
    match outcome {
        Outcome::Requested(Err(err)) => err,
        outcome => panic!("{:?}", outcome),
    }
}

/// The calls up to the conversion, for stream 5.
fn preparation(method: &str) -> Vec<Call<u32>> {
    vec![
        Call::Send(SendCall::EnsureNextStreamId),
        Call::Send(SendCall::Open),
        Call::Send(SendCall::InitWindowSize),
        Call::Recv(RecvCall::InitWindowSize),
        Call::Convert(ConvertCall::Request {
            stream_id: request_id(5),
            request: request(method),
            end_of_stream: true,
        }),
    ]
}

/// Makes a request on stream 5, and gives its key.
fn make_request(streams: &mut Streams, method: &str) -> Key {
    let first = streams.send_request(request(method), true, None);
    let (calls, outcome) = request_drive(
        streams,
        first,
        vec![
            Reply::Allowed(Ok(())),
            Reply::Assigned(Ok(request_id(5))),
            Reply::Window(1000),
            Reply::Window(2000),
            Reply::Converted(Ok(99)),
            Reply::Allowed(Ok(())),
            Reply::Flag(false),
        ],
    );
    let handle = match outcome {
        Outcome::Requested(Ok(handle)) => handle,
        outcome => panic!("{:?}", outcome),
    };
    let key = handle.key();
    let mut expected = preparation(method);
    expected.push(Call::Send(SendCall::Headers { key, frame: 99 }));
    expected.push(Call::State(StateCall::IsClosed { key }));
    assert_eq!(calls, request_texts(expected));
    assert_eq!(streams.store().find(request_id(5)), Some(key));
    key
}

#[test]
fn request_is_given_a_stream_and_a_handle() {
    let mut streams = Streams::new(Dyn::Client);
    let key = make_request(&mut streams, "GET");
    let stream = streams.store().resolve(key);
    assert_eq!(stream.id, request_id(5));
    assert_eq!(stream.init_send_window, 1000);
    assert_eq!(stream.init_recv_window, 2000);
    assert_eq!(stream.content_length, ContentLength::Omitted);
    assert_eq!(stream.ref_count, 1);
}

#[test]
fn request_for_the_head_expects_no_body() {
    for (method, expected) in vec![
        ("HEAD", ContentLength::Head),
        ("GET", ContentLength::Omitted),
        ("POST", ContentLength::Omitted),
        ("head", ContentLength::Omitted),
        ("Head", ContentLength::Omitted),
        ("HEADER", ContentLength::Omitted),
        ("HEA", ContentLength::Omitted),
        ("", ContentLength::Omitted),
        ("H AD", ContentLength::Omitted),
        ("HEAD ", ContentLength::Omitted),
    ] {
        let mut streams = Streams::new(Dyn::Client);
        let key = make_request(&mut streams, method);
        assert_eq!(streams.store().resolve(key).content_length, expected);
    }
}

#[test]
fn request_without_an_identifier_left() {
    let mut streams = Streams::new(Dyn::Client);
    let err = UserError::OverflowedStreamId;
    let first = streams.send_request(request("GET"), true, None);
    let (calls, outcome) = request_drive(&mut streams, first, vec![Reply::Allowed(Err(err))]);
    assert_eq!(calls, request_texts(vec![Call::Send(SendCall::EnsureNextStreamId)]));
    assert_eq!(refusal(outcome), SendError::User(err));
}

/// Streams with one that waits to be opened.
fn waiting(peer: Dyn) -> (Streams, Key) {
    let mut streams = Streams::new(peer);
    let mut stream = Stream::new(request_id(3), 0, 0);
    stream.is_pending_open = true;
    let key = streams.store_mut().insert(request_id(3), stream);
    (streams, key)
}

#[test]
fn request_while_another_waits_to_be_opened() {
    for peer in vec![Dyn::Client, Dyn::Server] {
        let (mut streams, key) = waiting(peer);
        let first = streams.send_request(request("GET"), true, Some(key));
        let (calls, outcome) = request_drive(&mut streams, first, vec![Reply::Allowed(Ok(()))]);
        assert_eq!(calls.len(), 1);
        assert_eq!(refusal(outcome), SendError::User(UserError::Rejected));
    }
}

#[test]
fn request_after_another_was_opened() {
    let (mut streams, key) = waiting(Dyn::Client);
    streams.store_mut().resolve_mut(key).is_pending_open = false;
    let first = streams.send_request(request("GET"), true, Some(key));
    let err = UserError::InactiveStreamId;
    let replies = vec![Reply::Allowed(Ok(())), Reply::Assigned(Err(err))];
    let (calls, outcome) = request_drive(&mut streams, first, replies);
    assert_eq!(
        calls,
        request_texts(vec![
            Call::Send(SendCall::EnsureNextStreamId),
            Call::Send(SendCall::Open),
        ])
    );
    assert_eq!(refusal(outcome), SendError::User(err));
}

#[test]
fn request_of_a_server() {
    let mut streams = Streams::new(Dyn::Server);
    let first = streams.send_request(request("GET"), true, None);
    let (calls, outcome) = request_drive(&mut streams, first, vec![Reply::Allowed(Ok(()))]);
    assert_eq!(calls.len(), 1);
    assert_eq!(refusal(outcome), SendError::User(UserError::UnexpectedFrameType));
}

#[test]
fn request_that_cannot_be_converted() {
    let mut streams = Streams::new(Dyn::Client);
    let err = SendError::User(UserError::MissingUriSchemeAndAuthority);
    let first = streams.send_request(request("GET"), true, None);
    let (calls, outcome) = request_drive(
        &mut streams,
        first,
        vec![
            Reply::Allowed(Ok(())),
            Reply::Assigned(Ok(request_id(5))),
            Reply::Window(1000),
            Reply::Window(2000),
            Reply::Converted(Err(err)),
        ],
    );
    assert_eq!(calls, request_texts(preparation("GET")));
    assert_eq!(refusal(outcome), err);
    assert_eq!(streams.num_wired_streams(), 0);
}

#[test]
fn request_whose_headers_are_not_sent() {
    let mut streams = Streams::new(Dyn::Client);
    let err = UserError::HeaderTooBig;
    let first = streams.send_request(request("GET"), true, None);
    let (calls, outcome) = request_drive(
        &mut streams,
        first,
        vec![
            Reply::Allowed(Ok(())),
            Reply::Assigned(Ok(request_id(5))),
            Reply::Window(1000),
            Reply::Window(2000),
            Reply::Converted(Ok(99)),
            Reply::Allowed(Err(err)),
        ],
    );
    assert_eq!(calls.len(), 6);
    assert_eq!(refusal(outcome), SendError::User(err));
    let key = streams.store().find(request_id(5)).unwrap();
    assert_eq!(streams.store().resolve(key).ref_count, 0);
}

#[test]
fn request_on_a_stream_that_is_taken_is_not_accepted() {
    let mut streams = Streams::new(Dyn::Client);
    let mut step = streams.send_request(request("GET"), true, None);
    for reply in vec![
        Reply::Allowed(Ok(())),
        Reply::Assigned(Ok(request_id(5))),
        Reply::Window(1000),
        Reply::Window(2000),
    ] {
        step = match step {
            Step::Call { pending, .. } => streams.resume(pending, reply),
            Step::Done(_) => panic!("came to its end too early"),
        };
    }
    streams.store_mut().insert(request_id(5), Stream::new(request_id(5), 0, 0));
    match step {
        Step::Call { pending, .. } => {
            assert!(!streams.accepts(&pending, &Reply::Converted(Ok(99))));
            let err = SendError::User(UserError::MalformedHeaders);
            assert!(streams.accepts(&pending, &Reply::Converted(Err(err))));
        },
        Step::Done(_) => panic!("came to its end too early"),
    }
}

fn opened(outcome: Outcome) -> Result<Readiness, SendError> {
    match outcome {
        Outcome::Opened(result) => result,
        outcome => panic!("{:?}", outcome),
    }
}

#[test]
fn next_request_is_ready() {
    let (mut streams, key) = waiting(Dyn::Client);
    streams.store_mut().resolve_mut(key).is_pending_open = false;
    for key in vec![None, Some(key)] {
        let first = streams.poll_pending_open(key);
        let (calls, outcome) = request_drive(&mut streams, first, vec![Reply::Allowed(Ok(()))]);
        assert_eq!(calls, request_texts(vec![Call::Send(SendCall::EnsureNextStreamId)]));
        assert_eq!(opened(outcome), Ok(Readiness::Ready));
    }
}

#[test]
fn next_request_has_to_wait() {
    let (mut streams, key) = waiting(Dyn::Client);
    let first = streams.poll_pending_open(Some(key));
    let replies = vec![Reply::Allowed(Ok(())), Reply::Task(some_task())];
    let (calls, outcome) = request_drive(&mut streams, first, replies);
    assert_eq!(
        calls,
        request_texts(vec![Call::Send(SendCall::EnsureNextStreamId), Call::CurrentTask])
    );
    assert_eq!(opened(outcome), Ok(Readiness::NotReady));
    let stream = streams.store().resolve(key);
    assert!(stream.send_task.is_some());
    assert!(stream.is_pending_open);
}

#[test]
fn next_request_has_no_identifier() {
    let (mut streams, key) = waiting(Dyn::Client);
    let err = UserError::OverflowedStreamId;
    let first = streams.poll_pending_open(Some(key));
    let (_, outcome) = request_drive(&mut streams, first, vec![Reply::Allowed(Err(err))]);
    assert_eq!(opened(outcome), Err(SendError::User(err)));
    assert!(streams.store().resolve(key).send_task.is_none());
}

#[test]
fn request_whose_stream_is_closed_is_not_accepted() {
    let mut streams = Streams::new(Dyn::Client);
    let mut step = streams.send_request(request("GET"), true, None);
    for reply in vec![
        Reply::Allowed(Ok(())),
        Reply::Assigned(Ok(request_id(5))),
        Reply::Window(1000),
        Reply::Window(2000),
        Reply::Converted(Ok(99)),
        Reply::Allowed(Ok(())),
    ] {
        step = match step {
            Step::Call { pending, .. } => streams.resume(pending, reply),
            Step::Done(_) => panic!("came to its end too early"),
        };
    }
    let key = streams.store().find(request_id(5)).unwrap();
    assert_eq!(streams.store().resolve(key).ref_count, 0);
    match step {
        Step::Call { pending, .. } => {
            assert!(!streams.accepts(&pending, &Reply::Flag(true)));
            assert!(streams.accepts(&pending, &Reply::Flag(false)));
        },
        Step::Done(_) => panic!("came to its end too early"),
    }
}

#[test]
fn waiting_for_a_request_agrees_with_making_it() {
    for is_pending_open in vec![false, true] {
        let (mut streams, key) = waiting(Dyn::Client);
        streams.store_mut().resolve_mut(key).is_pending_open = is_pending_open;
        let first = streams.poll_pending_open(Some(key));
        let mut replies = vec![Reply::Allowed(Ok(()))];
        if is_pending_open {
            replies.push(Reply::Task(some_task()));
        }
        let (_, answer) = request_drive(&mut streams, first, replies);
        let is_ready = opened(answer) == Ok(Readiness::Ready);
        assert_eq!(is_ready, !is_pending_open);
        let err = UserError::OverflowedStreamId;
        let first = streams.send_request(request("GET"), true, Some(key));
        let mut replies = vec![Reply::Allowed(Ok(()))];
        if is_ready {
            replies.push(Reply::Assigned(Err(err)));
        }
        let (_, outcome) = request_drive(&mut streams, first, replies);
        let expected = if is_ready { err } else { UserError::Rejected };
        assert_eq!(refusal(outcome), SendError::User(expected));
    }
}

#[test]
fn refused_request_leaves_the_streams_alone() {
    let (mut streams, key) = waiting(Dyn::Client);
    let before = format!("{:?}", streams);
    for pending in vec![Some(key), None] {
        let first = streams.send_request(request("GET"), true, pending);
        let mut replies = vec![Reply::Allowed(Ok(()))];
        if pending.is_none() {
            replies.push(Reply::Assigned(Ok(request_id(5))));
            replies.push(Reply::Window(1000));
            replies.push(Reply::Window(2000));
            replies.push(Reply::Converted(Err(SendError::User(UserError::MalformedHeaders))));
        }
        request_drive(&mut streams, first, replies);
        assert_eq!(format!("{:?}", streams), before);
    }
}
