//! The replies that an operation goes on with.
use crate::call::{Call, ConvertCall, RecvCall, Reply, SendCall, StateCall};
use crate::frame::StreamId;
use crate::laws::operation::{is_reply, takes, Operation};
use crate::laws::store::law_no_link_leads_nowhere;
use crate::laws::{reached, Turn};
use crate::step::{Pending, Step};
use crate::store::Key;
use crate::streams::poll::PollPending;
use crate::streams::recv::RecvPending;
use crate::streams::request::RequestPending;
use crate::streams::send::SendPending;
use crate::streams::sweep::SweepPending;
use crate::streams::StreamsView;
use vstd::prelude::*;

verus! {

/// Whether no link is for `id`.
pub open spec fn is_unlinked(s: StreamsView, id: StreamId) -> bool {
    forall|i: int| 0 <= i < s.store.links.len() ==> #[trigger] s.store.links[i].id != id
}

/// Whether the stream under `key` is there, and can count one handle more.
pub open spec fn has_room(s: StreamsView, key: Key) -> bool {
    s.store.streams.contains_key(key) && s.store.streams[key].ref_count < usize::MAX
}

/// What an operation asks of a reply to its call and of the streams at that time, besides that it is
/// a reply to that call: an identifier that a stream is to be added under is not linked, a stream
/// that is read or given a handle to is there, a stream that was reset is closed, and one that was
/// started is not.
pub open spec fn is_fit<P>(
    operation: Operation<P>,
    call: Call<P>,
    s: StreamsView,
    reply: Reply<P>,
) -> bool {
    match (operation, call) {
        (Operation::RecvHeaders { frame }, Call::Recv(RecvCall::InitWindowSize)) => is_unlinked(
            s,
            frame.stream_id,
        ),
        (Operation::RecvReset { .. }, Call::State(StateCall::IsClosed { .. })) => reply->Flag_0,
        (Operation::NextIncoming, Call::Recv(RecvCall::NextIncoming)) =>
            reply->Incoming_0 matches Some(key) ==> has_room(s, key),
        (Operation::SendRequest { pending, .. }, Call::Send(SendCall::EnsureNextStreamId)) =>
            reply->Allowed_0 is Ok && pending is Some ==> s.store.streams.contains_key(pending->0),
        (
            Operation::SendRequest { .. },
            Call::Convert(ConvertCall::Request { stream_id, .. }),
        ) => reply->Converted_0 is Ok ==> is_unlinked(s, stream_id),
        (Operation::SendRequest { .. }, Call::State(StateCall::IsClosed { key })) => {
            &&& !reply->Flag_0
            &&& has_room(s, key)
        },
        (Operation::PollPendingOpen { key }, Call::Send(SendCall::EnsureNextStreamId)) =>
            reply->Allowed_0 is Ok && key is Some ==> s.store.streams.contains_key(key->0),
        (Operation::PollPendingOpen { key }, Call::CurrentTask) => s.store.streams.contains_key(
            key->0,
        ),
        (Operation::SendReset { id, .. }, Call::Recv(RecvCall::Open { .. })) =>
            reply->Opened_0 matches Ok(Some(_)) ==> is_unlinked(s, id),
        _ => true,
    }
}

/// Whether what an operation waits with belongs to the operation and to the call that it made.
spec fn is_placed<P>(operation: Operation<P>, step: Step<P>) -> bool {
    match step {
        Step::Done(_) => true,
        Step::Call { call, pending } => match pending {
            Pending::Recv(pending) => match pending {
                RecvPending::Open { frame } => {
                    &&& call matches Call::Recv(RecvCall::Open { .. })
                    &&& operation == Operation::RecvHeaders { frame }
                },
                RecvPending::SendWindow { frame, .. } => {
                    &&& call matches Call::Send(SendCall::InitWindowSize)
                    &&& operation == Operation::RecvHeaders { frame }
                },
                RecvPending::RecvWindow { frame, .. } => {
                    &&& call matches Call::Recv(RecvCall::InitWindowSize)
                    &&& operation == Operation::RecvHeaders { frame }
                },
                RecvPending::HeadersState { .. } => {
                    call matches Call::State(StateCall::IsRecvHeaders { .. })
                },
                RecvPending::Processed { .. } => {
                    ||| call matches Call::Recv(RecvCall::Headers { .. })
                    ||| call matches Call::Recv(RecvCall::Trailers { .. })
                    ||| call matches Call::Recv(RecvCall::Data { .. })
                },
                RecvPending::Answered { .. } => call matches Call::Send(SendCall::Reset { .. }),
                RecvPending::ResetStart { .. } => call is Counts && operation is RecvReset,
                RecvPending::ResetProcessed { .. } => {
                    &&& call matches Call::Recv(RecvCall::Reset { .. })
                    &&& operation is RecvReset
                },
                RecvPending::ResetClosed { .. } => {
                    &&& call matches Call::State(StateCall::IsClosed { .. })
                    &&& operation is RecvReset
                },
                RecvPending::Checked => {
                    ||| call matches Call::Send(SendCall::EnsureNotIdle { .. })
                    ||| call matches Call::Recv(RecvCall::EnsureNotIdle { .. })
                    ||| call matches Call::Send(SendCall::RecvConnectionWindowUpdate { .. })
                },
                RecvPending::Ignored => {
                    call matches Call::Send(SendCall::RecvStreamWindowUpdate { .. })
                },
                RecvPending::Decided => {
                    ||| call matches Call::Recv(RecvCall::PushPromise { .. })
                    ||| call matches Call::Send(SendCall::ApplyRemoteSettings { .. })
                },
                _ => call is Counts,
            },
            Pending::Sweep(pending) => match pending {
                SweepPending::LastProcessedId { .. } => {
                    call matches Call::Recv(RecvCall::LastProcessedId)
                },
                SweepPending::Recv { .. } => {
                    ||| call matches Call::Recv(RecvCall::RecvErr { .. })
                    ||| call matches Call::Recv(RecvCall::Eof { .. })
                },
                SweepPending::Send { .. } => call matches Call::Send(SendCall::RecvErr { .. }),
                _ => call is Counts,
            },
            Pending::Request(pending) => match pending {
                RequestPending::NextStreamId { request, end_of_stream, pending } => {
                    &&& call matches Call::Send(SendCall::EnsureNextStreamId)
                    &&& operation == (Operation::SendRequest { request, end_of_stream, pending })
                },
                RequestPending::Open { .. } => {
                    &&& call matches Call::Send(SendCall::Open)
                    &&& operation is SendRequest
                },
                RequestPending::SendWindow { .. } => {
                    &&& call matches Call::Send(SendCall::InitWindowSize)
                    &&& operation is SendRequest
                },
                RequestPending::RecvWindow { .. } => {
                    &&& call matches Call::Recv(RecvCall::InitWindowSize)
                    &&& operation is SendRequest
                },
                RequestPending::Convert { stream_id, .. } => {
                    &&& call matches Call::Convert(ConvertCall::Request { stream_id: id, .. })
                    &&& id == stream_id
                    &&& operation is SendRequest
                },
                RequestPending::Headers { .. } => {
                    &&& call matches Call::Send(SendCall::Headers { .. })
                    &&& operation is SendRequest
                },
                RequestPending::Started { key } => {
                    &&& call == Call::<P>::State(StateCall::IsClosed { key })
                    &&& operation is SendRequest
                },
                RequestPending::ReadyNextStreamId { key } => {
                    &&& call matches Call::Send(SendCall::EnsureNextStreamId)
                    &&& operation == Operation::<P>::PollPendingOpen { key }
                },
                RequestPending::ReadyTask { key } => {
                    &&& call is CurrentTask
                    &&& operation == Operation::<P>::PollPendingOpen { key: Some(key) }
                },
            },
            Pending::Send(pending) => match pending {
                SendPending::ResetOpen { id, reason } => {
                    &&& call matches Call::Recv(RecvCall::Open { .. })
                    &&& operation == Operation::<P>::SendReset { id, reason }
                },
                SendPending::ResponseConverted { .. } => {
                    call matches Call::Convert(ConvertCall::Response { .. })
                },
                SendPending::Sent { .. } => {
                    ||| call matches Call::Send(SendCall::Headers { .. })
                    ||| call matches Call::Send(SendCall::Data { .. })
                    ||| call matches Call::Send(SendCall::Trailers { .. })
                },
                SendPending::DropState { .. } => {
                    call matches Call::State(StateCall::IsCanceledInterest { .. })
                },
                SendPending::Told { .. } => {
                    ||| call matches Call::Send(SendCall::Reset { .. })
                    ||| call matches Call::Send(SendCall::ScheduleCancel { .. })
                },
                _ => call is Counts,
            },
            Pending::Poll(pending) => match pending {
                PollPending::NextIncoming => {
                    &&& call matches Call::Recv(RecvCall::NextIncoming)
                    &&& operation is NextIncoming
                },
                PollPending::Recv => {
                    &&& call matches Call::Recv(RecvCall::PollComplete)
                    &&& operation is PollComplete
                },
                PollPending::Send => {
                    &&& call matches Call::Send(SendCall::PollComplete)
                    &&& operation is PollComplete
                },
                PollPending::Task => call is CurrentTask && operation is PollComplete,
            },
        },
    }
}

/// An operation that goes on stays in its place.
proof fn lemma_placed<P>(operation: Operation<P>, turn: Turn<P>, step: Step<P>)
    requires
        is_placed(operation, step),
        turn.follows(step),
    ensures
        is_placed(operation, turn.next),
{
}

/// An operation is in its place after any number of turns.
proof fn lemma_reached_is_placed<P>(
    operation: Operation<P>,
    s: StreamsView,
    t: StreamsView,
    first: Step<P>,
    turns: Seq<Turn<P>>,
    n: int,
)
    requires
        operation.starts(s, t, first),
        takes(first, turns),
        0 <= n <= turns.len(),
    ensures
        is_placed(operation, reached(first, turns, n)),
    decreases n,
{
    if n > 0 {
        lemma_reached_is_placed(operation, s, t, first, turns, n - 1);
        assert(turns[n - 1].follows(reached(first, turns, n - 1)));
        lemma_placed(operation, turns[n - 1], reached(first, turns, n - 1));
    }
}

/// Wherever an operation has come to, it goes on with every reply to its call, and with no other
/// reply: all that it asks besides is what [`is_fit`] says of the reply and of the streams.
pub proof fn law_replies_are_accepted<P>(
    operation: Operation<P>,
    s: StreamsView,
    t: StreamsView,
    first: Step<P>,
    turns: Seq<Turn<P>>,
    u: StreamsView,
    reply: Reply<P>,
)
    requires
        operation.starts(s, t, first),
        takes(first, turns),
    ensures
        reached(first, turns, turns.len() as int) matches Step::Call { call, pending } ==> {
            pending.awaits(u, reply) <==> is_reply(call, reply) && is_fit(
                operation,
                call,
                u,
                reply,
            )
        },
{
    lemma_reached_is_placed(operation, s, t, first, turns, turns.len() as int);
    assert(forall|id: StreamId| is_unlinked(u, id) == !#[trigger] u.store.is_linked(id)) by {
        assert forall|id: StreamId| is_unlinked(u, id) == !#[trigger] u.store.is_linked(id) by {
            if is_unlinked(u, id) {
                law_no_link_leads_nowhere(u.store, id);
            } else {
                let i = choose|i: int|
                    0 <= i < u.store.links.len() && #[trigger] u.store.links[i].id == id;
                assert(u.store.links_at(i, id));
            }
        }
    }
}

} // verus!
