//! Operations on a stream that is there, and on the connection as a whole.
use crate::call::{Call, ConvertCall, Polled, RecvCall, SendCall, StateCall};
use crate::frame::{Data, Reason, StreamId, Trailers};
use crate::laws::handles::law_new_handle_counts_one;
use crate::laws::{
    calls, end, gains_handle, gains_stream, leaves_alone, lemma_leaves_alone, lemma_rest, lemma_turn,
    runs, start, unused_stream, Turn,
};
use crate::step::Outcome;
use crate::store::{ContentLength, Key};
use crate::streams::StreamsView;
use vstd::prelude::*;

verus! {

/// A reset is sent in a transition of the stream, and is no more than that.
pub proof fn law_reset<P>(
    s: StreamsView,
    key: Key,
    reason: Reason,
    turns: Seq<Turn<P>>,
    outcome: Outcome,
)
    requires
        runs(s.reset(key, reason), turns, outcome),
    ensures
        leaves_alone(turns),
        calls(turns) == seq![
            start::<P>(key),
            Call::Send(SendCall::Reset { key, reason }),
            end(key),
        ],
        outcome == Outcome::Unit,
{
    let first = s.reset::<P>(key, reason);
    lemma_leaves_alone(first, turns, outcome);
    lemma_turn(first, turns, outcome, 0);
    lemma_turn(first, turns, outcome, 1);
    lemma_turn(first, turns, outcome, 2);
    lemma_turn(first, turns, outcome, 3);
}

/// A stream that is not there is opened to be reset, with no windows; if the remote may not open
/// it, nothing is sent.
pub proof fn law_send_reset<P>(
    s: StreamsView,
    id: StreamId,
    reason: Reason,
    turns: Seq<Turn<P>>,
    outcome: Outcome,
)
    requires
        runs(s.send_reset(id, reason), turns, outcome),
    ensures
        outcome == Outcome::Unit,
        match s.store.key_of(id) {
            Some(key) => {
                &&& leaves_alone(turns)
                &&& calls(turns) == seq![
                    start(key),
                    Call::<P>::Send(SendCall::Reset { key, reason }),
                    end(key),
                ]
            },
            None => {
                let open = Call::<P>::Recv(RecvCall::Open { id });
                match turns[0].reply->Opened_0 {
                    Ok(Some(stream_id)) => exists|key: Key|
                        {
                            &&& #[trigger] gains_stream(
                                turns[0].before,
                                id,
                                key,
                                unused_stream(stream_id, 0, 0, ContentLength::Omitted),
                                turns[0].after,
                            )
                            &&& leaves_alone(turns.skip(1))
                            &&& calls(turns) == seq![
                                open,
                                start(key),
                                Call::<P>::Send(SendCall::Reset { key, reason }),
                                end(key),
                            ]
                        },
                    _ => leaves_alone(turns) && calls(turns) == seq![open],
                }
            },
        },
{
    let first = s.send_reset::<P>(id, reason);
    match s.store.key_of(id) {
        Some(key) => law_reset(s, key, reason, turns, outcome),
        None => {
            lemma_turn(first, turns, outcome, 0);
            if let Ok(Some(stream_id)) = turns[0].reply->Opened_0 {
                let stream = unused_stream(stream_id, 0, 0, ContentLength::Omitted);
                let key = choose|key: Key|
                    {
                        &&& #[trigger] turns[0].before.adds(id, key, stream, turns[0].after)
                        &&& turns[0].next == s.reset::<P>(key, reason)
                    };
                let rest = turns.skip(1);
                lemma_rest(first, turns, outcome, 1);
                law_reset(s, key, reason, rest, outcome);
                assert(calls(turns) =~= calls(turns.take(1)) + calls(rest));
                assert(calls(turns) =~= seq![
                    Call::<P>::Recv(RecvCall::Open { id }),
                    start(key),
                    Call::<P>::Send(SendCall::Reset { key, reason }),
                    end(key),
                ]);
                assert(turns[0].before.adds(id, key, stream, turns[0].after));
                assert(gains_stream(turns[0].before, id, key, stream, turns[0].after));
            } else {
                lemma_turn(first, turns, outcome, 1);
                assert(calls(turns) =~= seq![Call::<P>::Recv(RecvCall::Open { id })]);
            }
        },
    }
}

/// Data are sent in a transition of the stream, in a frame with its identifier that ends it as was
/// asked, and the answer to that is the result.
pub proof fn law_send_data<P>(
    s: StreamsView,
    key: Key,
    data: P,
    end_stream: bool,
    turns: Seq<Turn<P>>,
    outcome: Outcome,
)
    requires
        runs(s.send_data(key, data, end_stream), turns, outcome),
    ensures
        leaves_alone(turns),
        ({
            let frame = Data { stream_id: s.store.streams[key].id, end_stream, payload: data };
            &&& calls(turns) == seq![start(key), Call::Send(SendCall::Data { key, frame }), end(key)]
            &&& outcome == Outcome::Sent(turns[1].reply->Allowed_0)
        }),
{
    let first = s.send_data(key, data, end_stream);
    lemma_leaves_alone(first, turns, outcome);
    lemma_turn(first, turns, outcome, 0);
    lemma_turn(first, turns, outcome, 1);
    lemma_turn(first, turns, outcome, 2);
    lemma_turn(first, turns, outcome, 3);
}

/// Trailers are sent in a transition of the stream, in a frame with its identifier, and the answer
/// to that is the result.
pub proof fn law_send_trailers<P>(
    s: StreamsView,
    key: Key,
    trailers: P,
    turns: Seq<Turn<P>>,
    outcome: Outcome,
)
    requires
        runs(s.send_trailers(key, trailers), turns, outcome),
    ensures
        leaves_alone(turns),
        ({
            let frame = Trailers { stream_id: s.store.streams[key].id, payload: trailers };
            &&& calls(turns) == seq![
                start(key),
                Call::Send(SendCall::Trailers { key, frame }),
                end(key),
            ]
            &&& outcome == Outcome::Sent(turns[1].reply->Allowed_0)
        }),
{
    let first = s.send_trailers(key, trailers);
    lemma_leaves_alone(first, turns, outcome);
    lemma_turn(first, turns, outcome, 0);
    lemma_turn(first, turns, outcome, 1);
    lemma_turn(first, turns, outcome, 2);
    lemma_turn(first, turns, outcome, 3);
}

/// A response is converted and sent in a transition of the stream, and the answer to the latter is
/// the result.
pub proof fn law_send_response<P>(
    s: StreamsView,
    key: Key,
    response: P,
    end_of_stream: bool,
    turns: Seq<Turn<P>>,
    outcome: Outcome,
)
    requires
        runs(s.send_response(key, response, end_of_stream), turns, outcome),
    ensures
        leaves_alone(turns),
        ({
            let stream_id = s.store.streams[key].id;
            let frame = turns[1].reply->Frame_0;
            &&& calls(turns) == seq![
                start(key),
                Call::Convert(ConvertCall::Response { stream_id, response, end_of_stream }),
                Call::Send(SendCall::Headers { key, frame }),
                end(key),
            ]
            &&& outcome == Outcome::Sent(turns[2].reply->Allowed_0)
        }),
{
    let first = s.send_response(key, response, end_of_stream);
    lemma_leaves_alone(first, turns, outcome);
    lemma_turn(first, turns, outcome, 0);
    lemma_turn(first, turns, outcome, 1);
    lemma_turn(first, turns, outcome, 2);
    lemma_turn(first, turns, outcome, 3);
    lemma_turn(first, turns, outcome, 4);
}

/// When a handle goes, the stream is reset in time, if nobody waits for it any more, and left alone
/// otherwise.
pub proof fn law_drop<P>(s: StreamsView, key: Key, turns: Seq<Turn<P>>, outcome: Outcome)
    requires
        runs(s.dropped(key), turns, outcome),
    ensures
        leaves_alone(turns),
        ({
            let question = Call::<P>::State(StateCall::IsCanceledInterest { key });
            let cancel = Call::<P>::Send(SendCall::ScheduleCancel { key });
            &&& outcome == Outcome::Unit
            &&& calls(turns) == if turns[1].reply->Flag_0 {
                seq![start(key), question, cancel, end(key)]
            } else {
                seq![start(key), question, end(key)]
            }
        }),
{
    let first = s.dropped::<P>(key);
    lemma_leaves_alone(first, turns, outcome);
    let question = Call::<P>::State(StateCall::IsCanceledInterest { key });
    let cancel = Call::<P>::Send(SendCall::ScheduleCancel { key });
    lemma_turn(first, turns, outcome, 0);
    lemma_turn(first, turns, outcome, 1);
    lemma_turn(first, turns, outcome, 2);
    lemma_turn(first, turns, outcome, 3);
    if turns[1].reply->Flag_0 {
        lemma_turn(first, turns, outcome, 4);
        assert(calls(turns) =~= seq![start(key), question, cancel, end(key)]);
    } else {
        assert(calls(turns) =~= seq![start(key), question, end(key)]);
    }
}

/// A stream that is handed out to be accepted counts the handle.
pub proof fn law_next_incoming<P>(s: StreamsView, turns: Seq<Turn<P>>, outcome: Outcome)
    requires
        runs(s.next_incoming::<P>(), turns, outcome),
    ensures
        calls(turns) == seq![Call::<P>::Recv(RecvCall::NextIncoming)],
        match turns[0].reply->Incoming_0 {
            Some(key) => {
                &&& outcome matches Outcome::Incoming(Some(handle))
                &&& handle@ == key
                &&& gains_handle(turns[0].before, key, turns[0].after)
            },
            None => outcome == Outcome::Incoming(None) && turns[0].after == turns[0].before,
        },
{
    let first = s.next_incoming::<P>();
    lemma_turn(first, turns, outcome, 0);
    if let Some(key) = turns[0].reply->Incoming_0 {
        law_new_handle_counts_one(turns[0].before, key);
    }
    lemma_turn(first, turns, outcome, 1);
}

/// Window updates are written before other frames, and these only when the former are all written.
/// The task is kept only when everything is written; otherwise the first answer that says why not
/// is the result.
pub proof fn law_poll_complete<P>(s: StreamsView, turns: Seq<Turn<P>>, outcome: Outcome)
    requires
        runs(s.poll_complete::<P>(), turns, outcome),
    ensures
        ({
            let recv = Call::<P>::Recv(RecvCall::PollComplete);
            let send = Call::<P>::Send(SendCall::PollComplete);
            if !(turns[0].reply->Polled_0 is Ready) {
                &&& calls(turns) == seq![recv]
                &&& outcome == Outcome::Polled(turns[0].reply->Polled_0)
                &&& turns[0].after == turns[0].before
            } else if !(turns[1].reply->Polled_0 is Ready) {
                &&& calls(turns) == seq![recv, send]
                &&& outcome == Outcome::Polled(turns[1].reply->Polled_0)
                &&& leaves_alone(turns)
            } else {
                &&& calls(turns) == seq![recv, send, Call::CurrentTask]
                &&& outcome == Outcome::Polled(Polled::Ready)
                &&& turns[0].after == turns[0].before
                &&& turns[1].after == turns[1].before
                &&& turns[2].after == StreamsView {
                    task: Some(turns[2].reply->Task_0),
                    ..turns[2].before
                }
            }
        }),
{
    let first = s.poll_complete::<P>();
    let recv = Call::<P>::Recv(RecvCall::PollComplete);
    let send = Call::<P>::Send(SendCall::PollComplete);
    lemma_turn(first, turns, outcome, 0);
    lemma_turn(first, turns, outcome, 1);
    if turns[0].reply->Polled_0 is Ready {
        lemma_turn(first, turns, outcome, 2);
        if turns[1].reply->Polled_0 is Ready {
            lemma_turn(first, turns, outcome, 3);
            assert(calls(turns) =~= seq![recv, send, Call::CurrentTask]);
        } else {
            assert(calls(turns) =~= seq![recv, send]);
        }
    } else {
        assert(calls(turns) =~= seq![recv]);
    }
}

} // verus!
