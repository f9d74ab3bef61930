//! Requests.
use crate::call::{Call, ConvertCall, RecvCall, Reply, SendCall, StateCall};
use crate::error::{SendError, UserError};
use crate::frame::{Request, StreamId, WindowSize};
use crate::laws::handles::law_new_handle_counts_one;
use crate::laws::{
    calls, gains_handle, gains_stream, leaves_alone, lemma_turn, runs, unused_stream, Turn,
};
use crate::peer::Dyn;
use crate::step::{Outcome, Pending, Readiness, Step};
use crate::store::{ContentLength, Key, StoreView, Stream};
use crate::streams::request::{expected_length, RequestPending};
use crate::streams::StreamsView;
use vstd::prelude::*;

verus! {

/// Whether a stream is given whose field says that it waits for the remote to allow one more.
pub open spec fn waits_to_open(s: StreamsView, key: Option<Key>) -> bool {
    match key {
        Some(key) => s.store.streams[key].is_pending_open,
        None => false,
    }
}

/// Why a request is refused once an identifier is known to be left: the stream before it still
/// waits to be opened, or this end is a server.
pub open spec fn refusal(s: StreamsView, pending: Option<Key>) -> Option<UserError> {
    if waits_to_open(s, pending) {
        Some(UserError::Rejected)
    } else if s.peer == Dyn::Server {
        Some(UserError::UnexpectedFrameType)
    } else {
        None
    }
}

/// The stream that a request is given.
pub open spec fn request_stream<P>(
    request: Request<P>,
    stream_id: StreamId,
    send_window: WindowSize,
    recv_window: WindowSize,
) -> Stream {
    let content_length = if request.method@ == "HEAD"@ {
        ContentLength::Head
    } else {
        ContentLength::Omitted
    };
    unused_stream(stream_id, send_window, recv_window, content_length)
}

/// The calls of a request up to the conversion of it, for a stream with this identifier.
pub open spec fn preparation<P>(
    request: Request<P>,
    end_of_stream: bool,
    stream_id: StreamId,
) -> Seq<Call<P>> {
    seq![
        Call::Send(SendCall::EnsureNextStreamId),
        Call::Send(SendCall::Open),
        Call::Send(SendCall::InitWindowSize),
        Call::Recv(RecvCall::InitWindowSize),
        Call::Convert(ConvertCall::Request { stream_id, request, end_of_stream }),
    ]
}

/// A request is refused by the first of these that applies, and no call is made after it: the
/// connection has failed; no identifier is left; the stream of the request before still waits to be
/// opened; this end is a server; no identifier was given; the request could not be converted. Up to
/// its conversion a request leaves the streams alone, and so does one that is refused.
pub proof fn law_send_request_refused<P>(
    s: StreamsView,
    request: Request<P>,
    end_of_stream: bool,
    pending: Option<Key>,
    turns: Seq<Turn<P>>,
    outcome: Outcome,
)
    requires
        runs(s.send_request(request, end_of_stream, pending), turns, outcome),
    ensures
        forall|i: int|
            0 <= i < 4 && i < turns.len() ==> (#[trigger] turns[i]).after == turns[i].before,
        turns.len() <= 5 ==> leaves_alone(turns),
        s.conn_error matches Some(err) ==> {
            &&& turns.len() == 0
            &&& outcome == Outcome::Requested(Err(SendError::Connection(err)))
        },
        s.conn_error is None ==> {
            &&& turns.len() > 0
            &&& turns[0].call == Call::<P>::Send(SendCall::EnsureNextStreamId)
            &&& turns[0].reply->Allowed_0 matches Err(err) ==> {
                &&& turns.len() == 1
                &&& outcome == Outcome::Requested(Err(SendError::User(err)))
            }
            &&& turns[0].reply->Allowed_0 is Ok ==> match refusal(turns[0].before, pending) {
                Some(err) => {
                    &&& turns.len() == 1
                    &&& outcome == Outcome::Requested(Err(SendError::User(err)))
                },
                None => {
                    &&& turns.len() > 1
                    &&& turns[1].call == Call::<P>::Send(SendCall::Open)
                    &&& turns[1].reply->Assigned_0 matches Err(err) ==> {
                        &&& turns.len() == 2
                        &&& outcome == Outcome::Requested(Err(SendError::User(err)))
                    }
                    &&& turns[1].reply->Assigned_0 is Ok ==> {
                        &&& turns.len() > 4
                        &&& turns[4].reply->Converted_0 matches Err(err) ==> {
                            &&& turns.len() == 5
                            &&& outcome == Outcome::Requested(Err(err))
                        }
                        &&& turns[4].reply->Converted_0 is Ok ==> turns.len() > 5
                    }
                },
            }
        },
{
    let first = s.send_request(request, end_of_stream, pending);
    lemma_turn(first, turns, outcome, 0);
    if s.conn_error is None {
        lemma_turn(first, turns, outcome, 1);
        if turns[0].reply->Allowed_0 is Ok && refusal(turns[0].before, pending) is None {
            lemma_turn(first, turns, outcome, 2);
            if turns[1].reply->Assigned_0 is Ok {
                lemma_turn(first, turns, outcome, 3);
                lemma_turn(first, turns, outcome, 4);
                lemma_turn(first, turns, outcome, 5);
                if turns[4].reply->Converted_0 is Ok {
                    lemma_turn(first, turns, outcome, 6);
                }
            }
        }
    }
}

/// A request that is not refused is given a stream with the identifier and the windows that were
/// asked for, that expects no body if the method is HEAD. The stream is added when there are
/// headers for it, and these are sent. If that is allowed, the stream is not closed, and the result
/// is a handle, which the stream counts.
pub proof fn law_send_request_made<P>(
    s: StreamsView,
    request: Request<P>,
    end_of_stream: bool,
    pending: Option<Key>,
    turns: Seq<Turn<P>>,
    outcome: Outcome,
)
    requires
        runs(s.send_request(request, end_of_stream, pending), turns, outcome),
        turns.len() > 5,
    ensures
        ({
            let stream = request_stream(
                request,
                turns[1].reply->Assigned_0->Ok_0,
                turns[2].reply->Window_0,
                turns[3].reply->Window_0,
            );
            let frame = turns[4].reply->Converted_0->Ok_0;
            exists|key: Key|
                {
                    let headers = Call::<P>::Send(SendCall::Headers { key, frame });
                    &&& #[trigger] gains_stream(
                        turns[4].before,
                        stream.id,
                        key,
                        stream,
                        turns[4].after,
                    )
                    &&& turns[4].after.store.streams[key].content_length == ContentLength::Head
                        <==> request.method@ == "HEAD"@
                    &&& turns[4].after.store.streams[key].content_length == ContentLength::Omitted
                        <==> request.method@ != "HEAD"@
                    &&& match turns[5].reply->Allowed_0 {
                        Ok(()) => {
                            &&& calls(turns) == preparation(request, end_of_stream, stream.id)
                                + seq![headers, Call::State(StateCall::IsClosed { key })]
                            &&& turns[5].after == turns[5].before
                            &&& turns[6].reply == Reply::<P>::Flag(false)
                            &&& gains_handle(turns[6].before, key, turns[6].after)
                            &&& outcome matches Outcome::Requested(Ok(handle))
                            &&& handle@ == key
                        },
                        Err(err) => {
                            &&& calls(turns) == preparation(request, end_of_stream, stream.id)
                                + seq![headers]
                            &&& outcome == Outcome::Requested(Err(SendError::User(err)))
                            &&& turns[5].after == turns[5].before
                        },
                    }
                }
        }),
{
    let first = s.send_request(request, end_of_stream, pending);
    let stream_id = turns[1].reply->Assigned_0->Ok_0;
    let send_window = turns[2].reply->Window_0;
    let recv_window = turns[3].reply->Window_0;
    let stream = request_stream(request, stream_id, send_window, recv_window);
    let frame = turns[4].reply->Converted_0->Ok_0;
    law_send_request_refused(s, request, end_of_stream, pending, turns, outcome);
    assert(turns[0].next == Step::Call {
        call: Call::Send(SendCall::Open),
        pending: Pending::Request(RequestPending::Open { request, end_of_stream }),
    }) by {
        lemma_turn(first, turns, outcome, 0);
    }
    assert(turns[1].next == Step::Call {
        call: Call::Send(SendCall::InitWindowSize),
        pending: Pending::Request(RequestPending::SendWindow { request, end_of_stream, stream_id }),
    }) by {
        lemma_turn(first, turns, outcome, 1);
    }
    assert({
        &&& turns[2].call == Call::<P>::Send(SendCall::InitWindowSize)
        &&& turns[2].next == Step::Call {
            call: Call::Recv(RecvCall::InitWindowSize),
            pending: Pending::Request(
                RequestPending::RecvWindow { request, end_of_stream, stream_id, send_window },
            ),
        }
    }) by {
        lemma_turn(first, turns, outcome, 2);
    }
    assert({
        &&& turns[3].call == Call::<P>::Recv(RecvCall::InitWindowSize)
        &&& turns[3].next == Step::Call {
            call: Call::Convert(ConvertCall::Request { stream_id, request, end_of_stream }),
            pending: Pending::Request(
                RequestPending::Convert {
                    stream_id,
                    send_window,
                    recv_window,
                    content_length: expected_length(request),
                },
            ),
        }
    }) by {
        lemma_turn(first, turns, outcome, 3);
    }
    let key = choose|key: Key|
        {
            &&& #[trigger] turns[4].before.adds(stream.id, key, stream, turns[4].after)
            &&& turns[4].next == (Step::Call {
                call: Call::Send(SendCall::Headers { key, frame }),
                pending: Pending::Request(RequestPending::Headers { key }),
            })
        };
    lemma_turn(first, turns, outcome, 4);
    assert(turns[4].before.adds(stream.id, key, stream, turns[4].after));
    assert(gains_stream(turns[4].before, stream.id, key, stream, turns[4].after));
    lemma_turn(first, turns, outcome, 5);
    lemma_turn(first, turns, outcome, 6);
    let headers = Call::<P>::Send(SendCall::Headers { key, frame });
    let prepared = preparation(request, end_of_stream, stream.id);
    if turns[5].reply->Allowed_0 is Ok {
        lemma_turn(first, turns, outcome, 7);
        law_new_handle_counts_one(turns[6].before, key);
        assert(calls(turns) =~= prepared + seq![
            headers,
            Call::State(StateCall::IsClosed { key }),
        ]);
    } else {
        assert(calls(turns) =~= prepared + seq![headers]);
    }
}

/// Whether a request can be made: an error of the connection or a missing identifier says no, and a
/// stream that waits to be opened keeps the current task, to wake it. Otherwise the streams are left
/// alone.
pub proof fn law_poll_pending_open<P>(
    s: StreamsView,
    key: Option<Key>,
    turns: Seq<Turn<P>>,
    outcome: Outcome,
)
    requires
        runs(s.poll_pending_open(key), turns, outcome),
    ensures
        match s.conn_error {
            Some(err) => {
                &&& leaves_alone(turns)
                &&& calls(turns) == Seq::<Call<P>>::empty()
                &&& outcome == Outcome::Opened(Err(SendError::Connection(err)))
            },
            None => {
                let question = Call::<P>::Send(SendCall::EnsureNextStreamId);
                match turns[0].reply->Allowed_0 {
                    Err(err) => {
                        &&& leaves_alone(turns)
                        &&& calls(turns) == seq![question]
                        &&& outcome == Outcome::Opened(Err(SendError::User(err)))
                    },
                    Ok(()) => if waits_to_open(turns[0].before, key) {
                        let before = turns[1].before;
                        let stream = Stream {
                            send_task: Some(turns[1].reply->Task_0),
                            ..before.store.streams[key->0]
                        };
                        &&& calls(turns) == seq![question, Call::CurrentTask]
                        &&& turns[0].after == turns[0].before
                        &&& outcome == Outcome::Opened(Ok(Readiness::NotReady))
                        &&& turns[1].after == StreamsView {
                            store: StoreView {
                                streams: before.store.streams.insert(key->0, stream),
                                links: before.store.links,
                            },
                            ..before
                        }
                    } else {
                        &&& leaves_alone(turns)
                        &&& calls(turns) == seq![question]
                        &&& outcome == Outcome::Opened(Ok(Readiness::Ready))
                    },
                }
            },
        },
{
    let first = s.poll_pending_open::<P>(key);
    let question = Call::<P>::Send(SendCall::EnsureNextStreamId);
    lemma_turn(first, turns, outcome, 0);
    if s.conn_error is None {
        lemma_turn(first, turns, outcome, 1);
        if turns[0].reply->Allowed_0 is Ok && waits_to_open(turns[0].before, key) {
            lemma_turn(first, turns, outcome, 2);
            assert(calls(turns) =~= seq![question, Call::CurrentTask]);
        } else {
            assert(calls(turns) =~= seq![question]);
        }
    } else {
        assert(calls(turns) =~= Seq::<Call<P>>::empty());
    }
}

/// Only the field of the stream that says so makes anyone wait for it, whatever else there is to the
/// stream: with an identifier left on a sound connection, the answer is to wait, with the task kept,
/// exactly where that field is set, and exactly there a request after that stream is rejected.
pub proof fn law_field_decides<P>(
    s: StreamsView,
    key: Key,
    waited: Seq<Turn<P>>,
    answer: Outcome,
    request: Request<P>,
    end_of_stream: bool,
    turns: Seq<Turn<P>>,
    outcome: Outcome,
)
    requires
        s.conn_error is None,
        runs(s.poll_pending_open(Some(key)), waited, answer),
        runs(s.send_request(request, end_of_stream, Some(key)), turns, outcome),
        waited[0].reply->Allowed_0 is Ok,
        turns[0].reply->Allowed_0 is Ok,
    ensures
        waited[0].before.store.streams[key].is_pending_open <==> answer == Outcome::Opened(
            Ok(Readiness::NotReady),
        ),
        waited[0].before.store.streams[key].is_pending_open ==> waited[1].after.store.streams[key]
            == (Stream {
            send_task: Some(waited[1].reply->Task_0),
            ..waited[1].before.store.streams[key]
        }),
        !waited[0].before.store.streams[key].is_pending_open <==> answer == Outcome::Opened(
            Ok(Readiness::Ready),
        ),
        turns[0].before.store.streams[key].is_pending_open <==> turns.len() == 1 && outcome
            == Outcome::Requested(Err(SendError::User(UserError::Rejected))),
{
    law_poll_pending_open(s, Some(key), waited, answer);
    law_send_request_refused(s, request, end_of_stream, Some(key), turns, outcome);
}

/// Whoever waits for a request to be possible is told the truth: where the answer is to wait, a
/// request after that stream is rejected at once, and where the answer is that it is ready, the
/// request is not rejected on account of that stream, and goes on unless this end is a server.
pub proof fn law_ready_is_not_rejected<P>(
    s: StreamsView,
    key: Option<Key>,
    waited: Seq<Turn<P>>,
    answer: Outcome,
    request: Request<P>,
    end_of_stream: bool,
    turns: Seq<Turn<P>>,
    outcome: Outcome,
)
    requires
        s.conn_error is None,
        runs(s.poll_pending_open(key), waited, answer),
        runs(s.send_request(request, end_of_stream, key), turns, outcome),
        waited[0].reply->Allowed_0 is Ok,
        turns[0].reply->Allowed_0 is Ok,
        waits_to_open(waited[0].before, key) == waits_to_open(turns[0].before, key),
    ensures
        answer == Outcome::Opened(Ok(Readiness::Ready)) || answer == Outcome::Opened(
            Ok(Readiness::NotReady),
        ),
        answer == Outcome::Opened(Ok(Readiness::NotReady)) ==> {
            &&& turns.len() == 1
            &&& outcome == Outcome::Requested(Err(SendError::User(UserError::Rejected)))
        },
        answer == Outcome::Opened(Ok(Readiness::Ready)) ==> {
            &&& refusal(turns[0].before, key) != Some(UserError::Rejected)
            &&& turns[0].before.peer == Dyn::Client ==> turns.len() > 1 && turns[1].call == Call::<
                P,
            >::Send(SendCall::Open)
        },
{
    law_poll_pending_open(s, key, waited, answer);
    law_send_request_refused(s, request, end_of_stream, key, turns, outcome);
}

} // verus!
