//! Operations that receive.
use crate::call::{Call, CountsCall, RecvCall, SendCall, StateCall};
use crate::error::RecvError;
use crate::frame::{
    Data, Headers, PushPromise, Reason, Reset, Settings, StreamId, WindowUpdate,
};
use crate::laws::{
    calls, end, gains_stream, leaves_alone, lemma_leaves_alone, lemma_rest, lemma_turn, runs, start,
    unused_stream, Turn,
};
use crate::peer::Dyn;
use crate::step::{Outcome, Pending, Step};
use crate::store::{ContentLength, Key};
use crate::streams::recv::RecvPending;
use crate::streams::StreamsView;
use vstd::prelude::*;

verus! {

/// The call that answers the result of processing a frame: an error of the stream is answered with
/// a reset for that reason.
pub open spec fn answer<P>(key: Key, result: Result<(), RecvError>) -> Seq<Call<P>> {
    match result {
        Err(RecvError::Stream { reason, .. }) => seq![Call::Send(SendCall::Reset { key, reason })],
        _ => seq![],
    }
}

/// The result of an operation that processed a frame: an error of the stream is none.
pub open spec fn absorbed(result: Result<(), RecvError>) -> Result<(), RecvError> {
    match result {
        Err(RecvError::Stream { .. }) => Ok(()),
        _ => result,
    }
}

/// The result that a check leads to: a reason against is an error of the connection.
pub open spec fn verdict(result: Result<(), Reason>) -> Result<(), RecvError> {
    match result {
        Ok(()) => Ok(()),
        Err(reason) => Err(RecvError::Connection(reason)),
    }
}

/// The question whether a stream has been open, to the half of the end that opens it: a server
/// opens streams with even identifiers, and a client those with odd ones.
pub open spec fn ask_opener<P>(peer: Dyn, id: StreamId) -> Call<P> {
    match (peer, id.value % 2 == 0) {
        (Dyn::Server, true) => Call::Send(SendCall::EnsureNotIdle { id }),
        (Dyn::Server, false) => Call::Recv(RecvCall::EnsureNotIdle { id }),
        (Dyn::Client, true) => Call::Recv(RecvCall::EnsureNotIdle { id }),
        (Dyn::Client, false) => Call::Send(SendCall::EnsureNotIdle { id }),
    }
}

/// Whether headers were processed in these turns for the stream under `key`: as the ones that start
/// it, if such were expected, else as trailers, if they end it. Headers that are neither are an
/// error of the connection, and are not processed. The operation itself leaves the streams alone.
pub open spec fn processes_headers<P>(
    key: Key,
    frame: Headers<P>,
    turns: Seq<Turn<P>>,
    outcome: Outcome,
) -> bool {
    let question = Call::State(StateCall::IsRecvHeaders { key });
    let starts = turns[1].reply->Flag_0;
    let result = turns[2].reply->Received_0;
    &&& leaves_alone(turns)
    &&& if starts || frame.end_stream {
        let process = if starts {
            RecvCall::Headers { key, frame }
        } else {
            RecvCall::Trailers { key, frame }
        };
        &&& calls(turns) == seq![start(key), question, Call::Recv(process)] + answer(key, result)
            + seq![end(key)]
        &&& outcome == Outcome::Received(absorbed(result))
    } else {
        &&& calls(turns) == seq![start(key), question, end(key)]
        &&& outcome == Outcome::Received(Err(RecvError::Connection(Reason { code: 1 })))
    }
}

/// Once a frame is processed, an error of the stream is answered, and the transition ends.
proof fn lemma_answer<P>(
    key: Key,
    process: Call<P>,
    turns: Seq<Turn<P>>,
    outcome: Outcome,
)
    requires
        runs(
            Step::Call { call: process, pending: Pending::Recv(RecvPending::Processed { key }) },
            turns,
            outcome,
        ),
    ensures
        turns.len() > 0,
        calls(turns) == seq![process] + answer(key, turns[0].reply->Received_0) + seq![end(key)],
        outcome == Outcome::Received(absorbed(turns[0].reply->Received_0)),
{
    let first = Step::Call {
        call: process,
        pending: Pending::Recv(RecvPending::Processed { key }),
    };
    lemma_turn(first, turns, outcome, 0);
    lemma_turn(first, turns, outcome, 1);
    lemma_turn(first, turns, outcome, 2);
    if turns[0].reply->Received_0 matches Err(RecvError::Stream { .. }) {
        lemma_turn(first, turns, outcome, 3);
    }
}

proof fn lemma_processes_headers<P>(
    key: Key,
    frame: Headers<P>,
    turns: Seq<Turn<P>>,
    outcome: Outcome,
)
    requires
        runs(
            Step::start(key, Pending::Recv(RecvPending::HeadersStart { key, frame })),
            turns,
            outcome,
        ),
    ensures
        processes_headers(key, frame, turns, outcome),
{
    let first = Step::start(key, Pending::Recv(RecvPending::HeadersStart { key, frame }));
    lemma_leaves_alone(first, turns, outcome);
    lemma_turn(first, turns, outcome, 0);
    lemma_turn(first, turns, outcome, 1);
    lemma_turn(first, turns, outcome, 2);
    let starts = turns[1].reply->Flag_0;
    if starts || frame.end_stream {
        let process = if starts {
            RecvCall::Headers { key, frame }
        } else {
            RecvCall::Trailers { key, frame }
        };
        let rest = turns.skip(2);
        lemma_rest(first, turns, outcome, 2);
        lemma_answer(key, Call::Recv(process), rest, outcome);
        assert(rest[0] == turns[2]);
        assert(calls(turns) =~= calls(turns.take(2)) + calls(rest));
        assert(calls(turns.take(2)) =~= seq![
            start(key),
            Call::State(StateCall::IsRecvHeaders { key }),
        ]);
        assert(calls(turns) =~= seq![
            start(key),
            Call::State(StateCall::IsRecvHeaders { key }),
            Call::Recv(process),
        ] + answer(key, turns[2].reply->Received_0) + seq![end(key)]);
    } else {
        lemma_turn(first, turns, outcome, 3);
        assert(calls(turns) =~= seq![
            start(key),
            Call::State(StateCall::IsRecvHeaders { key }),
            end(key),
        ]);
    }
}

/// Headers for a stream that is there are processed for it. For one that is not, the receiving half
/// is asked whether the remote opens it. If so, the stream is added with the initial windows of
/// both halves, and the headers are processed for it; if not, the answer is the result.
pub proof fn law_recv_headers<P>(
    s: StreamsView,
    frame: Headers<P>,
    turns: Seq<Turn<P>>,
    outcome: Outcome,
)
    requires
        runs(s.recv_headers(frame), turns, outcome),
    ensures
        match s.store.key_of(frame.stream_id) {
            Some(key) => processes_headers(key, frame, turns, outcome),
            None => {
                let open = Call::<P>::Recv(RecvCall::Open { id: frame.stream_id });
                match turns[0].reply->Opened_0 {
                    Err(err) => {
                        &&& leaves_alone(turns)
                        &&& calls(turns) == seq![open]
                        &&& outcome == Outcome::Received(Err(err))
                    },
                    Ok(None) => {
                        &&& leaves_alone(turns)
                        &&& calls(turns) == seq![open]
                        &&& outcome == Outcome::Received(Ok(()))
                    },
                    Ok(Some(stream_id)) => {
                        let stream = unused_stream(
                            stream_id,
                            turns[1].reply->Window_0,
                            turns[2].reply->Window_0,
                            ContentLength::Omitted,
                        );
                        &&& turns[0].after == turns[0].before
                        &&& turns[1].after == turns[1].before
                        &&& calls(turns.take(3)) == seq![
                            open,
                            Call::Send(SendCall::InitWindowSize),
                            Call::Recv(RecvCall::InitWindowSize),
                        ]
                        &&& exists|key: Key|
                            {
                                &&& #[trigger] gains_stream(
                                    turns[2].before,
                                    frame.stream_id,
                                    key,
                                    stream,
                                    turns[2].after,
                                )
                                &&& processes_headers(key, frame, turns.skip(3), outcome)
                            }
                    },
                }
            },
        },
{
    let first = s.recv_headers(frame);
    match s.store.key_of(frame.stream_id) {
        Some(key) => lemma_processes_headers(key, frame, turns, outcome),
        None => {
            let open = Call::<P>::Recv(RecvCall::Open { id: frame.stream_id });
            let opened = turns[0].reply->Opened_0;
            if let Ok(Some(stream_id)) = opened {
                let send_window = turns[1].reply->Window_0;
                let recv_window = turns[2].reply->Window_0;
                let stream = unused_stream(
                    stream_id,
                    send_window,
                    recv_window,
                    ContentLength::Omitted,
                );
                assert(turns.len() > 0 && turns[0].after == turns[0].before && turns[0].call == open
                    && turns[0].next == Step::Call {
                    call: Call::Send(SendCall::InitWindowSize),
                    pending: Pending::Recv(RecvPending::SendWindow { frame, stream_id }),
                }) by {
                    lemma_turn(first, turns, outcome, 0);
                }
                assert(turns.len() > 1 && turns[1].after == turns[1].before && turns[1].call
                    == Call::<P>::Send(SendCall::InitWindowSize) && turns[1].next == Step::Call {
                    call: Call::Recv(RecvCall::InitWindowSize),
                    pending: Pending::Recv(
                        RecvPending::RecvWindow { frame, stream_id, send_window },
                    ),
                }) by {
                    lemma_turn(first, turns, outcome, 1);
                }
                let key = choose|key: Key|
                    {
                        &&& #[trigger] turns[2].before.adds(
                            frame.stream_id,
                            key,
                            stream,
                            turns[2].after,
                        )
                        &&& turns[2].next == Step::start(
                            key,
                            Pending::Recv(RecvPending::HeadersStart { key, frame }),
                        )
                    };
                assert({
                    &&& turns.len() > 2
                    &&& turns[2].call == Call::<P>::Recv(RecvCall::InitWindowSize)
                    &&& gains_stream(
                        turns[2].before,
                        frame.stream_id,
                        key,
                        stream,
                        turns[2].after,
                    )
                    &&& turns[2].next == Step::start(
                        key,
                        Pending::Recv(RecvPending::HeadersStart { key, frame }),
                    )
                }) by {
                    lemma_turn(first, turns, outcome, 2);
                }
                assert(processes_headers(key, frame, turns.skip(3), outcome)) by {
                    lemma_rest(first, turns, outcome, 3);
                    lemma_processes_headers(key, frame, turns.skip(3), outcome);
                }
                assert(calls(turns.take(3)) =~= seq![
                    open,
                    Call::Send(SendCall::InitWindowSize),
                    Call::Recv(RecvCall::InitWindowSize),
                ]);
            } else {
                lemma_turn(first, turns, outcome, 0);
                lemma_turn(first, turns, outcome, 1);
                assert(calls(turns) =~= seq![open]);
            }
        },
    }
}

/// Data for a stream that is not there are an error of the connection, and no call is made. Else
/// they are processed in a transition of the stream; an error of the stream is answered with one
/// reset for that reason, and is no error of the operation; every other result is its result. The
/// operation itself leaves the streams alone.
pub proof fn law_recv_data<P>(
    s: StreamsView,
    frame: Data<P>,
    turns: Seq<Turn<P>>,
    outcome: Outcome,
)
    requires
        runs(s.recv_data(frame), turns, outcome),
    ensures
        leaves_alone(turns),
        match s.store.key_of(frame.stream_id) {
            None => {
                &&& calls(turns) == Seq::<Call<P>>::empty()
                &&& outcome == Outcome::Received(Err(RecvError::Connection(Reason { code: 1 })))
            },
            Some(key) => {
                let result = turns[1].reply->Received_0;
                &&& calls(turns) == seq![start(key), Call::Recv(RecvCall::Data { key, frame })]
                    + answer(key, result) + seq![end(key)]
                &&& outcome == Outcome::Received(absorbed(result))
            },
        },
{
    let first = s.recv_data(frame);
    lemma_leaves_alone(first, turns, outcome);
    lemma_turn(first, turns, outcome, 0);
    if let Some(key) = s.store.key_of(frame.stream_id) {
        lemma_turn(first, turns, outcome, 1);
        lemma_rest(first, turns, outcome, 1);
        let rest = turns.skip(1);
        lemma_answer(key, Call::Recv(RecvCall::Data { key, frame }), rest, outcome);
        assert(rest[0] == turns[1]);
        assert(calls(turns) =~= seq![start(key)] + calls(rest));
    }
}

/// A reset on stream zero is an error of the connection. One for a stream that is there is
/// processed in a transition of the stream, which is closed then, or the error is the result. For
/// a stream that is not there, the half that opens such streams is asked whether it has been open.
/// The operation itself leaves the streams alone.
pub proof fn law_recv_reset<P>(
    s: StreamsView,
    frame: Reset,
    turns: Seq<Turn<P>>,
    outcome: Outcome,
)
    requires
        runs(s.recv_reset(frame), turns, outcome),
    ensures
        leaves_alone(turns),
        if frame.stream_id.value == 0 {
            &&& calls(turns) == Seq::<Call<P>>::empty()
            &&& outcome == Outcome::Received(Err(RecvError::Connection(Reason { code: 1 })))
        } else {
            match s.store.key_of(frame.stream_id) {
                Some(key) => {
                    let reset = Call::<P>::Recv(RecvCall::Reset { key, frame });
                    let question = Call::<P>::State(StateCall::IsClosed { key });
                    let result = turns[1].reply->Received_0;
                    &&& result is Ok ==> {
                        &&& calls(turns) == seq![start(key), reset, question, end(key)]
                        &&& turns[2].reply->Flag_0
                        &&& outcome == Outcome::Received(Ok(()))
                    }
                    &&& result is Err ==> {
                        &&& calls(turns) == seq![start(key), reset, end(key)]
                        &&& outcome == Outcome::Received(result)
                    }
                },
                None => {
                    &&& calls(turns) == seq![ask_opener::<P>(s.peer, frame.stream_id)]
                    &&& outcome == Outcome::Received(verdict(turns[0].reply->Checked_0))
                },
            }
        },
{
    let first = s.recv_reset(frame);
    lemma_leaves_alone(first, turns, outcome);
    if frame.stream_id.value == 0 {
        lemma_turn(first, turns, outcome, 0);
        assert(calls(turns) =~= Seq::<Call<P>>::empty());
    } else if let Some(key) = s.store.key_of(frame.stream_id) {
        let reset = Call::<P>::Recv(RecvCall::Reset { key, frame });
        let question = Call::<P>::State(StateCall::IsClosed { key });
        let processed = Pending::Recv(RecvPending::ResetProcessed { key });
        let closed = Pending::Recv(RecvPending::ResetClosed { key });
        assert(turns.len() > 0 && turns[0].call == start::<P>(key) && turns[0].next == Step::Call {
            call: reset,
            pending: processed,
        }) by {
            lemma_turn(first, turns, outcome, 0);
        }
        let result = turns[1].reply->Received_0;
        let ended = Step::end(key, Pending::Recv(RecvPending::End { result }));
        assert(turns.len() > 1 && turns[1].call == reset && turns[1].next == if result is Ok {
            Step::Call { call: question, pending: closed }
        } else {
            ended
        }) by {
            lemma_turn(first, turns, outcome, 1);
        }
        if result is Ok {
            assert(turns.len() > 2 && turns[2].call == question && turns[2].reply->Flag_0
                && turns[2].next == Step::end(
                key,
                Pending::<P>::Recv(RecvPending::End { result: Ok(()) }),
            )) by {
                lemma_turn(first, turns, outcome, 2);
            }
            lemma_turn(first, turns, outcome, 3);
            lemma_turn(first, turns, outcome, 4);
            assert(calls(turns) =~= seq![start(key), reset, question, end(key)]);
        } else {
            lemma_turn(first, turns, outcome, 2);
            lemma_turn(first, turns, outcome, 3);
            assert(calls(turns) =~= seq![start(key), reset, end(key)]);
        }
    } else {
        lemma_turn(first, turns, outcome, 0);
        lemma_turn(first, turns, outcome, 1);
        assert(calls(turns) =~= seq![ask_opener::<P>(s.peer, frame.stream_id)]);
    }
}

/// A window update is one call: for the window of the connection, for that of a stream that is
/// there, or, to the half that opens such streams, for the question whether the stream has been
/// open. An error of a stream that is there is not one of the operation; the others are errors of
/// the connection. The operation itself leaves the streams alone.
pub proof fn law_recv_window_update<P>(
    s: StreamsView,
    frame: WindowUpdate,
    turns: Seq<Turn<P>>,
    outcome: Outcome,
)
    requires
        runs(s.recv_window_update(frame), turns, outcome),
    ensures
        leaves_alone(turns),
        if frame.stream_id.value == 0 {
            &&& calls(turns) == seq![
                Call::<P>::Send(SendCall::RecvConnectionWindowUpdate { frame }),
            ]
            &&& outcome == Outcome::Received(verdict(turns[0].reply->Checked_0))
        } else {
            match s.store.key_of(frame.stream_id) {
                Some(key) => {
                    let size_increment = frame.size_increment;
                    &&& calls(turns) == seq![
                        Call::<P>::Send(SendCall::RecvStreamWindowUpdate { key, size_increment }),
                    ]
                    &&& outcome == Outcome::Received(Ok(()))
                },
                None => {
                    &&& calls(turns) == seq![ask_opener::<P>(s.peer, frame.stream_id)]
                    &&& outcome == Outcome::Received(verdict(turns[0].reply->Checked_0))
                },
            }
        },
{
    let first = s.recv_window_update(frame);
    lemma_leaves_alone(first, turns, outcome);
    lemma_turn(first, turns, outcome, 0);
    lemma_turn(first, turns, outcome, 1);
}

/// A promise is processed by a client, on a stream that is there. Everything else is an error of
/// the connection, and no call is made. The operation itself leaves the streams alone.
pub proof fn law_recv_push_promise<P>(
    s: StreamsView,
    frame: PushPromise<P>,
    turns: Seq<Turn<P>>,
    outcome: Outcome,
)
    requires
        runs(s.recv_push_promise(frame), turns, outcome),
    ensures
        leaves_alone(turns),
        match s.store.key_of(frame.stream_id) {
            Some(key) if s.peer == Dyn::Client => {
                &&& calls(turns) == seq![Call::Recv(RecvCall::PushPromise { key, frame })]
                &&& outcome == Outcome::Received(turns[0].reply->Received_0)
            },
            _ => {
                &&& calls(turns) == Seq::<Call<P>>::empty()
                &&& outcome == Outcome::Received(Err(RecvError::Connection(Reason { code: 1 })))
            },
        },
{
    let first = s.recv_push_promise(frame);
    lemma_leaves_alone(first, turns, outcome);
    lemma_turn(first, turns, outcome, 0);
    if turns.len() > 0 {
        lemma_turn(first, turns, outcome, 1);
    }
}

/// The counters follow the settings of the remote first, then the sending half, which gives the
/// result. The operation itself leaves the streams alone.
pub proof fn law_apply_remote_settings<P>(
    s: StreamsView,
    frame: Settings,
    turns: Seq<Turn<P>>,
    outcome: Outcome,
)
    requires
        runs(s.apply_remote_settings(frame), turns, outcome),
    ensures
        leaves_alone(turns),
        calls(turns) == seq![
            Call::<P>::Counts(CountsCall::ApplyRemoteSettings { frame }),
            Call::<P>::Send(SendCall::ApplyRemoteSettings { frame }),
        ],
        outcome == Outcome::Received(turns[1].reply->Received_0),
{
    let first = s.apply_remote_settings::<P>(frame);
    lemma_leaves_alone(first, turns, outcome);
    lemma_turn(first, turns, outcome, 0);
    lemma_turn(first, turns, outcome, 1);
    lemma_turn(first, turns, outcome, 2);
}

} // verus!
