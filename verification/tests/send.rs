//! Operations on a stream that is there, and on the connection as a whole.
use futures::executor;
use futures::future::lazy;
use futures::task::{self, Task};
use h2_streams::call::{
    Call, ConvertCall, CountsCall, Polled, RecvCall, Reply, SendCall, StateCall,
};
use h2_streams::error::{RecvError, UserError};
use h2_streams::frame::{Data, Reason, StreamId, Trailers};
use h2_streams::peer::Dyn;
use h2_streams::step::{Outcome, Step};
use h2_streams::store::{Key, Stream};
use h2_streams::streams::handle::StreamRef;
use h2_streams::streams::Streams;
use std::io;

fn send_id(value: u32) -> StreamId {
    StreamId { value }
}

/// Replies to one call after the other. Gives the calls as text, and the outcome.
fn send_drive(
    streams: &mut Streams,
    first: Step<u32>,
    replies: Vec<Reply<u32>>,
) -> (Vec<String>, Outcome) {
    let mut calls = Vec::new();
    let mut step = first;
    let mut replies = replies.into_iter();
    loop {
        match step {
            Step::Call { call, pending } => {
                calls.push(format!("{:?}", call));
                let reply = replies.next().expect("one more reply");
                assert!(streams.accepts(&pending, &reply));
                step = streams.resume(pending, reply);
            },
            Step::Done(outcome) => {
                assert!(replies.next().is_none());
                return (calls, outcome);
            },
        }
    }
}

fn send_texts(calls: Vec<Call<u32>>) -> Vec<String> {
    calls.iter().map(|call| format!("{:?}", call)).collect()
}

/// A server with stream 1, which was accepted.
fn accepted() -> (Streams, StreamRef) {
    let mut streams = Streams::new(Dyn::Server);
    let key = streams.store_mut().insert(send_id(1), Stream::new(send_id(1), 10, 20));
    let first = streams.next_incoming();
    let (calls, outcome) = send_drive(&mut streams, first, vec![Reply::Incoming(Some(key))]);
    assert_eq!(calls, send_texts(vec![Call::Recv(RecvCall::NextIncoming)]));
    match outcome {
        Outcome::Incoming(Some(handle)) => (streams, handle),
        outcome => panic!("{:?}", outcome),
    }
}

fn send_begin(key: Key) -> Call<u32> {
    Call::Counts(CountsCall::TransitionStart { key })
}

fn send_finish(key: Key) -> Call<u32> {
    Call::Counts(CountsCall::TransitionEnd { key })
}

fn sent(outcome: Outcome) -> Result<(), UserError> {
    match outcome {
        Outcome::Sent(result) => result,
        outcome => panic!("{:?}", outcome),
    }
}

#[test]
fn stream_that_is_accepted_counts_the_handle() {
    let (streams, handle) = accepted();
    assert_eq!(Some(handle.key()), streams.store().find(send_id(1)));
    assert_eq!(streams.store().resolve(handle.key()).ref_count, 1);
}

#[test]
fn nothing_to_accept() {
    let mut streams = Streams::new(Dyn::Server);
    let first = streams.next_incoming();
    let (_, outcome) = send_drive(&mut streams, first, vec![Reply::Incoming(None)]);
    match outcome {
        Outcome::Incoming(None) => {},
        outcome => panic!("{:?}", outcome),
    }
}

#[test]
fn stream_that_is_gone_is_not_accepted() {
    let (mut streams, _) = accepted();
    let key = streams.store().find(send_id(1)).unwrap();
    streams.store_mut().unlink(key);
    streams.store_mut().remove(key);
    match streams.next_incoming::<u32>() {
        Step::Call { pending, .. } => {
            assert!(!streams.accepts(&pending, &Reply::Incoming(Some(key))));
            assert!(streams.accepts(&pending, &Reply::Incoming(None)));
        },
        Step::Done(_) => panic!("came to its end too early"),
    }
}

#[test]
fn data_are_sent() {
    let (mut streams, handle) = accepted();
    let key = handle.key();
    for end_stream in vec![false, true] {
        for result in vec![Ok(()), Err(UserError::PayloadTooBig)] {
            let first = handle.send_data(&streams, 6, end_stream);
            let replies = vec![Reply::Done, Reply::Allowed(result), Reply::Done];
            let (calls, outcome) = send_drive(&mut streams, first, replies);
            let frame = Data { stream_id: send_id(1), end_stream, payload: 6 };
            assert_eq!(
                calls,
                send_texts(vec![
                    send_begin(key),
                    Call::Send(SendCall::Data { key, frame }),
                    send_finish(key),
                ])
            );
            assert_eq!(sent(outcome), result);
        }
    }
}

#[test]
fn trailers_are_sent() {
    let (mut streams, handle) = accepted();
    let key = handle.key();
    let err = UserError::UnexpectedFrameType;
    let first = handle.send_trailers(&streams, 6);
    let replies = vec![Reply::Done, Reply::Allowed(Err(err)), Reply::Done];
    let (calls, outcome) = send_drive(&mut streams, first, replies);
    let frame = Trailers { stream_id: send_id(1), payload: 6 };
    assert_eq!(
        calls,
        send_texts(vec![
            send_begin(key),
            Call::Send(SendCall::Trailers { key, frame }),
            send_finish(key),
        ])
    );
    assert_eq!(sent(outcome), Err(err));
}

#[test]
fn response_is_converted_and_sent() {
    let (mut streams, handle) = accepted();
    let key = handle.key();
    let first = handle.send_response(&streams, 200, true);
    let (calls, outcome) = send_drive(
        &mut streams,
        first,
        vec![Reply::Done, Reply::Frame(31), Reply::Allowed(Ok(())), Reply::Done],
    );
    assert_eq!(
        calls,
        send_texts(vec![
            send_begin(key),
            Call::Convert(ConvertCall::Response {
                stream_id: send_id(1),
                response: 200,
                end_of_stream: true,
            }),
            Call::Send(SendCall::Headers { key, frame: 31 }),
            send_finish(key),
        ])
    );
    assert_eq!(sent(outcome), Ok(()));
}

/// The calls of a reset for reason 8.
fn reset_calls(key: Key) -> Vec<Call<u32>> {
    vec![
        send_begin(key),
        Call::Send(SendCall::Reset { key, reason: Reason { code: 8 } }),
        send_finish(key),
    ]
}

fn is_unit(outcome: Outcome) -> bool {
    matches!(outcome, Outcome::Unit)
}

#[test]
fn stream_is_reset_by_its_handle() {
    let (mut streams, handle) = accepted();
    let first = handle.send_reset(&streams, Reason { code: 8 });
    let replies = vec![Reply::Done, Reply::Done, Reply::Done];
    let (calls, outcome) = send_drive(&mut streams, first, replies);
    assert_eq!(calls, send_texts(reset_calls(handle.key())));
    assert!(is_unit(outcome));
}

#[test]
fn stream_is_reset_by_its_identifier() {
    let (mut streams, handle) = accepted();
    let first = streams.send_reset(send_id(1), Reason { code: 8 });
    let replies = vec![Reply::Done, Reply::Done, Reply::Done];
    let (calls, outcome) = send_drive(&mut streams, first, replies);
    assert_eq!(calls, send_texts(reset_calls(handle.key())));
    assert!(is_unit(outcome));
}

#[test]
fn stream_is_opened_to_be_reset() {
    let (mut streams, _) = accepted();
    let first = streams.send_reset(send_id(3), Reason { code: 8 });
    let opened = Reply::Opened(Ok(Some(send_id(3))));
    let replies = vec![opened, Reply::Done, Reply::Done, Reply::Done];
    let (calls, outcome) = send_drive(&mut streams, first, replies);
    let key = streams.store().find(send_id(3)).unwrap();
    let mut expected = vec![Call::Recv(RecvCall::Open { id: send_id(3) })];
    expected.extend(reset_calls(key));
    assert_eq!(calls, send_texts(expected));
    assert!(is_unit(outcome));
    let stream = streams.store().resolve(key);
    assert_eq!(stream.id, send_id(3));
    assert_eq!(stream.init_send_window, 0);
    assert_eq!(stream.init_recv_window, 0);
    assert_eq!(streams.num_active_streams(), 2);
}

#[test]
fn stream_that_cannot_be_opened_is_not_reset() {
    let (mut streams, _) = accepted();
    for result in vec![Ok(None), Err(RecvError::Connection(Reason { code: 1 }))] {
        let first = streams.send_reset(send_id(3), Reason { code: 8 });
        let (calls, outcome) = send_drive(&mut streams, first, vec![Reply::Opened(result)]);
        assert_eq!(calls, send_texts(vec![Call::Recv(RecvCall::Open { id: send_id(3) })]));
        assert!(is_unit(outcome));
        assert_eq!(streams.num_active_streams(), 1);
    }
}

#[test]
fn last_handle_cancels_the_stream() {
    let (mut streams, handle) = accepted();
    let key = handle.key();
    let first = handle.drop(&mut streams);
    assert_eq!(streams.store().resolve(key).ref_count, 0);
    let replies = vec![Reply::Done, Reply::Flag(true), Reply::Done, Reply::Done];
    let (calls, outcome) = send_drive(&mut streams, first, replies);
    assert_eq!(
        calls,
        send_texts(vec![
            send_begin(key),
            Call::State(StateCall::IsCanceledInterest { key }),
            Call::Send(SendCall::ScheduleCancel { key }),
            send_finish(key),
        ])
    );
    assert!(is_unit(outcome));
}

#[test]
fn handle_that_is_not_the_last_changes_nothing_else() {
    let (mut streams, handle) = accepted();
    let key = handle.key();
    let other = handle.clone_to_opaque(&mut streams);
    let first = other.drop(&mut streams);
    let replies = vec![Reply::Done, Reply::Flag(false), Reply::Done];
    let (calls, outcome) = send_drive(&mut streams, first, replies);
    assert_eq!(
        calls,
        send_texts(vec![
            send_begin(key),
            Call::State(StateCall::IsCanceledInterest { key }),
            send_finish(key),
        ])
    );
    assert!(is_unit(outcome));
    assert_eq!(streams.store().resolve(key).ref_count, 1);
}

#[test]
fn everything_is_written() {
    let (mut streams, _) = accepted();
    assert!(streams.task_mut().is_none());
    let task = executor::spawn(lazy(|| Ok::<Task, ()>(task::current()))).wait_future().unwrap();
    let first = streams.poll_complete();
    let (calls, outcome) = send_drive(
        &mut streams,
        first,
        vec![Reply::Polled(Polled::Ready), Reply::Polled(Polled::Ready), Reply::Task(task)],
    );
    assert_eq!(
        calls,
        send_texts(vec![
            Call::Recv(RecvCall::PollComplete),
            Call::Send(SendCall::PollComplete),
            Call::CurrentTask,
        ])
    );
    assert!(matches!(outcome, Outcome::Polled(Polled::Ready)));
    assert!(streams.task_mut().is_some());
}

#[test]
fn window_updates_are_not_all_written() {
    let (mut streams, _) = accepted();
    let first = streams.poll_complete();
    let (calls, outcome) = send_drive(&mut streams, first, vec![Reply::Polled(Polled::NotReady)]);
    assert_eq!(calls, send_texts(vec![Call::Recv(RecvCall::PollComplete)]));
    assert!(matches!(outcome, Outcome::Polled(Polled::NotReady)));
    assert!(streams.task_mut().is_none());
}

#[test]
fn writing_fails() {
    let (mut streams, _) = accepted();
    let failed = Polled::Failed(io::Error::from(io::ErrorKind::ConnectionReset));
    let first = streams.poll_complete();
    let replies = vec![Reply::Polled(Polled::Ready), Reply::Polled(failed)];
    let (calls, outcome) = send_drive(&mut streams, first, replies);
    assert_eq!(
        calls,
        send_texts(vec![Call::Recv(RecvCall::PollComplete), Call::Send(SendCall::PollComplete)])
    );
    match outcome {
        Outcome::Polled(Polled::Failed(err)) => {
            assert_eq!(err.kind(), io::ErrorKind::ConnectionReset);
        },
        outcome => panic!("{:?}", outcome),
    }
    assert!(streams.task_mut().is_none());
}

#[test]
fn single_calls() {
    let (mut streams, handle) = accepted();
    let key = handle.key();
    let opaque = handle.clone_to_opaque(&mut streams);
    let made: Vec<Call<u32>> = vec![
        streams.set_target_connection_window_size(7),
        streams.last_processed_id(),
        streams.send_pending_refusal(),
        handle.take_request(&streams),
        handle.reserve_capacity(&streams, 8),
        handle.capacity(&streams),
        handle.poll_capacity(&streams),
        opaque.poll_response(&streams),
        opaque.body_is_empty(&streams),
        opaque.is_end_stream(&streams),
        opaque.poll_data(&streams),
        opaque.poll_trailers(&streams),
        opaque.release_capacity(&streams, 9),
    ];
    let expected: Vec<Call<u32>> = vec![
        Call::Recv(RecvCall::SetTargetConnectionWindow { size: 7 }),
        Call::Recv(RecvCall::LastProcessedId),
        Call::Recv(RecvCall::SendPendingRefusal),
        Call::Recv(RecvCall::TakeRequest { key }),
        Call::Send(SendCall::ReserveCapacity { key, capacity: 8 }),
        Call::Send(SendCall::Capacity { key }),
        Call::Send(SendCall::PollCapacity { key }),
        Call::Recv(RecvCall::PollResponse { key }),
        Call::Recv(RecvCall::BodyIsEmpty { key }),
        Call::Recv(RecvCall::IsEndStream { key }),
        Call::Recv(RecvCall::PollData { key }),
        Call::Recv(RecvCall::PollTrailers { key }),
        Call::Recv(RecvCall::ReleaseCapacity { key, capacity: 9 }),
    ];
    assert_eq!(send_texts(made), send_texts(expected));
}

#[test]
fn every_operation_ends_the_transition_that_it_starts() {
    let (mut streams, handle) = accepted();
    let key = handle.key();
    let reason = Reason { code: 2 };
    for i in 0..6 {
        let first: Step<u32> = match i {
            0 => handle.send_data(&streams, 1, true),
            1 => handle.send_trailers(&streams, 1),
            2 => handle.send_response(&streams, 1, true),
            3 => handle.send_reset(&streams, reason),
            4 => streams.send_reset(send_id(1), reason),
            _ => handle.clone(&mut streams).drop(&mut streams),
        };
        let mut open = None;
        let mut turns = 0;
        let mut step = first;
        while let Step::Call { call, pending } = step {
            turns += 1;
            assert!(turns <= 8);
            match call {
                Call::Counts(CountsCall::TransitionStart { key }) => {
                    assert_eq!(open, None);
                    open = Some(key);
                },
                Call::Counts(CountsCall::TransitionEnd { key }) => {
                    assert_eq!(open, Some(key));
                    open = None;
                },
                _ => assert_eq!(open, Some(key)),
            }
            let reply = match call {
                Call::Convert(_) => Reply::Frame(3),
                Call::State(_) => Reply::Flag(true),
                Call::Send(SendCall::Reset { .. }) => Reply::Done,
                Call::Send(SendCall::ScheduleCancel { .. }) => Reply::Done,
                Call::Send(_) => Reply::Allowed(Ok(())),
                _ => Reply::Done,
            };
            assert!(streams.accepts(&pending, &reply));
            step = streams.resume(pending, reply);
        }
        assert_eq!(open, None);
    }
}
