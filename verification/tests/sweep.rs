//! The end of the connection.
use h2_streams::call::{Call, CountsCall, RecvCall, Reply, SendCall};
use h2_streams::error::{Error, ErrorKind, Failure, SendError};
use h2_streams::frame::{GoAway, Reason, Request, StreamId};
use h2_streams::peer::Dyn;
use h2_streams::step::{Outcome, Step};
use h2_streams::store::{Key, Stream};
use h2_streams::streams::Streams;
use std::io;
use std::sync::Arc;

fn sweep_id(value: u32) -> StreamId {
    StreamId { value }
}

fn sweep_streams(ids: &[u32]) -> Streams {
    let mut streams = Streams::new(Dyn::Client);
    for id in ids {
        let stream = Stream::new(sweep_id(*id), 10, 20);
        streams.store_mut().insert(sweep_id(*id), stream);
    }
    streams
}

fn sweep_key(streams: &Streams, id: u32) -> Key {
    streams.store().find(sweep_id(id)).unwrap()
}

/// Replies to one call after the other. Gives the calls and the outcome as text.
fn sweep_drive(streams: &mut Streams, first: Step<u32>, last_id: u32) -> (Vec<String>, String) {
    let mut calls = Vec::new();
    let mut step = first;
    loop {
        match step {
            Step::Call { call, pending } => {
                calls.push(format!("{:?}", call));
                let reply = match call {
                    Call::Recv(RecvCall::LastProcessedId) => Reply::Id(sweep_id(last_id)),
                    _ => Reply::Done,
                };
                assert!(streams.accepts(&pending, &reply));
                step = streams.resume(pending, reply);
            },
            Step::Done(outcome) => return (calls, format!("{:?}", outcome)),
        }
    }
}

fn told(key: Key, err: Failure) -> Vec<String> {
    let calls: Vec<Call<u32>> = vec![
        Call::Counts(CountsCall::TransitionStart { key }),
        Call::Recv(RecvCall::RecvErr { key, err }),
        Call::Send(SendCall::RecvErr { key }),
        Call::Counts(CountsCall::TransitionEnd { key }),
    ];
    calls.iter().map(|call| format!("{:?}", call)).collect()
}

fn told_of_the_end(key: Key) -> Vec<String> {
    let calls: Vec<Call<u32>> = vec![
        Call::Counts(CountsCall::TransitionStart { key }),
        Call::Recv(RecvCall::Eof { key }),
        Call::Counts(CountsCall::TransitionEnd { key }),
    ];
    calls.iter().map(|call| format!("{:?}", call)).collect()
}

/// An I/O error that says more than its kind.
fn io_failure(kind: io::ErrorKind, text: &str) -> Failure {
    let source = Arc::new(io::Error::new(kind, text));
    Failure::Io { kind: ErrorKind::Reported(source.kind()), source }
}

#[test]
fn goaway_tells_the_streams_past_the_last_one() {
    let mut streams = sweep_streams(&[5, 1, 7, 3]);
    let err = || Failure::Proto(Reason { code: 11 });
    let frame = GoAway { last_stream_id: sweep_id(3), reason: Reason { code: 11 } };
    let mut expected = told(sweep_key(&streams, 5), err());
    expected.extend(told(sweep_key(&streams, 7), err()));
    let first = streams.recv_goaway(&frame);
    assert_eq!(streams.conn_error(), None);
    let (calls, outcome) = sweep_drive(&mut streams, first, 0);
    assert_eq!(calls, expected);
    assert_eq!(outcome, format!("{:?}", Outcome::Unit));
    assert_eq!(streams.conn_error(), Some(err().shallow_clone()));
}

#[test]
fn goaway_with_every_stream_processed() {
    let mut streams = sweep_streams(&[1, 3]);
    let frame = GoAway { last_stream_id: sweep_id(3), reason: Reason { code: 0 } };
    let first = streams.recv_goaway(&frame);
    let (calls, _) = sweep_drive(&mut streams, first, 0);
    assert!(calls.is_empty());
    assert_eq!(streams.conn_error(), Some(Error::Proto(Reason { code: 0 })));
}

#[test]
fn goaway_replaces_an_earlier_error() {
    let mut streams = sweep_streams(&[]);
    for code in vec![0, 2] {
        let frame = GoAway { last_stream_id: sweep_id(1), reason: Reason { code } };
        let first = streams.recv_goaway(&frame);
        sweep_drive(&mut streams, first, 0);
        assert_eq!(streams.conn_error(), Some(Error::Proto(Reason { code })));
    }
}

#[test]
fn failure_tells_every_stream() {
    let mut streams = sweep_streams(&[1, 3]);
    let err = io_failure(io::ErrorKind::ConnectionReset, "cut off");
    let mut expected = vec![format!("{:?}", Call::<u32>::Recv(RecvCall::LastProcessedId))];
    expected.extend(told(sweep_key(&streams, 1), err.share()));
    expected.extend(told(sweep_key(&streams, 3), err.share()));
    let first = streams.recv_err(&err);
    let (calls, outcome) = sweep_drive(&mut streams, first, 2);
    assert_eq!(calls, expected);
    assert_eq!(outcome, format!("{:?}", Outcome::Id(sweep_id(2))));
    assert!(calls[2].contains("cut off"));
    let kept = Error::Io(ErrorKind::Reported(io::ErrorKind::ConnectionReset));
    assert_eq!(streams.conn_error(), Some(kept));
}

#[test]
fn failure_with_no_streams() {
    let mut streams = sweep_streams(&[]);
    let err = Failure::Proto(Reason { code: 1 });
    let first = streams.recv_err(&err);
    let (calls, outcome) = sweep_drive(&mut streams, first, 8);
    assert_eq!(calls.len(), 1);
    assert_eq!(outcome, format!("{:?}", Outcome::Id(sweep_id(8))));
    assert_eq!(streams.conn_error(), Some(err.shallow_clone()));
}

#[test]
fn eof_is_a_broken_pipe() {
    let mut streams = sweep_streams(&[1, 3]);
    let mut expected = told_of_the_end(sweep_key(&streams, 1));
    expected.extend(told_of_the_end(sweep_key(&streams, 3)));
    let first = streams.recv_eof();
    assert_eq!(streams.conn_error(), Some(Error::Io(ErrorKind::BrokenPipe)));
    let (calls, outcome) = sweep_drive(&mut streams, first, 0);
    assert_eq!(calls, expected);
    assert_eq!(outcome, format!("{:?}", Outcome::Unit));
    assert_eq!(streams.conn_error(), Some(Error::Io(ErrorKind::BrokenPipe)));
}

#[test]
fn eof_keeps_an_earlier_error() {
    let mut streams = sweep_streams(&[1]);
    let err = Failure::Proto(Reason { code: 2 });
    let first = streams.recv_err(&err);
    sweep_drive(&mut streams, first, 0);
    let first = streams.recv_eof();
    let (calls, _) = sweep_drive(&mut streams, first, 0);
    assert_eq!(calls, told_of_the_end(sweep_key(&streams, 1)));
    assert_eq!(streams.conn_error(), Some(err.shallow_clone()));
}

#[test]
fn stream_that_is_forgotten_meanwhile_is_not_told() {
    let mut streams = sweep_streams(&[1, 3, 5]);
    let first_key = sweep_key(&streams, 1);
    let forgotten = sweep_key(&streams, 3);
    let last_key = sweep_key(&streams, 5);
    let mut started = Vec::new();
    let mut step: Step<u32> = streams.recv_eof();
    loop {
        match step {
            Step::Call { call, pending } => {
                if let Call::Counts(CountsCall::TransitionStart { key }) = call {
                    started.push(key);
                    if key == first_key {
                        streams.store_mut().unlink(forgotten);
                        streams.store_mut().remove(forgotten);
                    }
                }
                step = streams.resume(pending, Reply::Done);
            },
            Step::Done(_) => break,
        }
    }
    assert_eq!(started, vec![first_key, last_key]);
    assert_eq!(streams.num_active_streams(), 2);
}

#[test]
fn failed_connection_refuses_requests() {
    let err = Error::Proto(Reason { code: 2 });
    let goaway = GoAway { last_stream_id: sweep_id(1), reason: Reason { code: 2 } };
    for i in 0..3 {
        let mut streams = sweep_streams(&[1]);
        let first = match i {
            0 => streams.recv_err(&Failure::Proto(Reason { code: 2 })),
            1 => streams.recv_goaway(&goaway),
            _ => streams.recv_eof(),
        };
        sweep_drive(&mut streams, first, 0);
        let expected = SendError::Connection(match i {
            2 => Error::Io(ErrorKind::BrokenPipe),
            _ => err,
        });
        let request = Request { method: String::from("GET"), payload: 1 };
        match streams.send_request(request, true, None) {
            Step::Done(Outcome::Requested(Err(err))) => assert_eq!(err, expected),
            step => panic!("{:?}", step),
        }
        match streams.poll_pending_open::<u32>(None) {
            Step::Done(Outcome::Opened(Err(err))) => assert_eq!(err, expected),
            step => panic!("{:?}", step),
        }
    }
}

#[test]
fn every_kind_of_failure_is_kept() {
    for kind in vec![
        io::ErrorKind::TimedOut,
        io::ErrorKind::Unsupported,
        io::ErrorKind::OutOfMemory,
        io::Error::from_raw_os_error(113).kind(),
    ] {
        let mut streams = sweep_streams(&[1]);
        let err = io_failure(kind, "why");
        let first = streams.recv_err(&err);
        sweep_drive(&mut streams, first, 0);
        match streams.conn_error() {
            Some(Error::Io(ErrorKind::Reported(kept))) => assert_eq!(kept, kind),
            err => panic!("{:?}", err),
        }
    }
}
