//! What holds of every operation.
use crate::call::{Call, ConvertCall, CountsCall, RecvCall, Reply, SendCall, StateCall};
use crate::error::Failure;
use crate::frame::{
    Data, GoAway, Headers, PushPromise, Reason, Request, Reset, Settings, StreamId, WindowUpdate,
};
use crate::laws::{calls, lemma_turn, reached, runs, Turn};
use crate::step::{Outcome, Pending, Step};
use crate::store::Key;
use crate::streams::poll::PollPending;
use crate::streams::recv::RecvPending;
use crate::streams::request::RequestPending;
use crate::streams::send::SendPending;
use crate::streams::sweep::{Sweep, SweepPending};
use crate::streams::StreamsView;
use vstd::prelude::*;

verus! {

/// The operations that take calls to come to their outcome.
#[allow(inconsistent_fields)]
pub enum Operation<P> {
    RecvHeaders { frame: Headers<P> },
    RecvData { frame: Data<P> },
    RecvReset { frame: Reset },
    RecvErr { err: Failure },
    RecvGoaway { frame: GoAway },
    RecvEof,
    RecvWindowUpdate { frame: WindowUpdate },
    RecvPushPromise { frame: PushPromise<P> },
    NextIncoming,
    PollComplete,
    ApplyRemoteSettings { frame: Settings },
    SendRequest { request: Request<P>, end_of_stream: bool, pending: Option<Key> },
    PollPendingOpen { key: Option<Key> },
    SendReset { id: StreamId, reason: Reason },
    SendData { key: Key, data: P, end_stream: bool },
    SendTrailers { key: Key, trailers: P },
    ResetStream { key: Key, reason: Reason },
    SendResponse { key: Key, response: P, end_of_stream: bool },
    DropHandle { key: Key },
}

impl<P> Operation<P> {
    /// Whether the operation starts with `step`, when the streams are as `s` says before and as `t`
    /// says afterwards.
    pub open spec fn starts(self, s: StreamsView, t: StreamsView, step: Step<P>) -> bool {
        match self {
            Operation::RecvHeaders { frame } => t == s && step == s.recv_headers(frame),
            Operation::RecvData { frame } => t == s && step == s.recv_data(frame),
            Operation::RecvReset { frame } => t == s && step == s.recv_reset::<P>(frame),
            Operation::RecvErr { err } => t == s && step == s.recv_err::<P>(err),
            Operation::RecvGoaway { frame } => s.recv_goaway(frame, t, step),
            Operation::RecvEof => s.recv_eof(t, step),
            Operation::RecvWindowUpdate { frame } => {
                &&& t == s
                &&& step == s.recv_window_update::<P>(frame)
            },
            Operation::RecvPushPromise { frame } => t == s && step == s.recv_push_promise(frame),
            Operation::NextIncoming => t == s && step == s.next_incoming::<P>(),
            Operation::PollComplete => t == s && step == s.poll_complete::<P>(),
            Operation::ApplyRemoteSettings { frame } => {
                &&& t == s
                &&& step == s.apply_remote_settings::<P>(frame)
            },
            Operation::SendRequest { request, end_of_stream, pending } => {
                &&& t == s
                &&& step == s.send_request(request, end_of_stream, pending)
            },
            Operation::PollPendingOpen { key } => t == s && step == s.poll_pending_open::<P>(key),
            Operation::SendReset { id, reason } => t == s && step == s.send_reset::<P>(id, reason),
            Operation::SendData { key, data, end_stream } => {
                &&& t == s
                &&& step == s.send_data(key, data, end_stream)
            },
            Operation::SendTrailers { key, trailers } => {
                &&& t == s
                &&& step == s.send_trailers(key, trailers)
            },
            Operation::ResetStream { key, reason } => t == s && step == s.reset::<P>(key, reason),
            Operation::SendResponse { key, response, end_of_stream } => {
                &&& t == s
                &&& step == s.send_response(key, response, end_of_stream)
            },
            Operation::DropHandle { key } => t == s.ref_dec(key) && step == s.dropped::<P>(key),
        }
    }
}

/// The stream whose transition has started and not ended after the first `n` calls.
pub open spec fn in_transition<P>(calls: Seq<Call<P>>, n: int) -> Option<Key>
    decreases n,
{
    if n <= 0 {
        None
    } else {
        match calls[n - 1] {
            Call::Counts(CountsCall::TransitionStart { key }) => Some(key),
            Call::Counts(CountsCall::TransitionEnd { .. }) => None,
            _ => in_transition(calls, n - 1),
        }
    }
}

/// The stream that a call processes a frame for, tells of the end, resets, sends on, or asks what it
/// expects or who waits for it. The headers of a request are sent on a stream that was not there
/// before, whose state nothing has counted, and whether a stream is closed is asked there too.
pub open spec fn stream_of<P>(call: Call<P>) -> Option<Key> {
    match call {
        Call::Recv(RecvCall::Headers { key, .. }) => Some(key),
        Call::Recv(RecvCall::Trailers { key, .. }) => Some(key),
        Call::Recv(RecvCall::Data { key, .. }) => Some(key),
        Call::Recv(RecvCall::Reset { key, .. }) => Some(key),
        Call::Recv(RecvCall::RecvErr { key, .. }) => Some(key),
        Call::Recv(RecvCall::Eof { key }) => Some(key),
        Call::Send(SendCall::Reset { key, .. }) => Some(key),
        Call::Send(SendCall::RecvErr { key }) => Some(key),
        Call::Send(SendCall::Data { key, .. }) => Some(key),
        Call::Send(SendCall::Trailers { key, .. }) => Some(key),
        Call::Send(SendCall::ScheduleCancel { key }) => Some(key),
        Call::State(StateCall::IsRecvHeaders { key }) => Some(key),
        Call::State(StateCall::IsCanceledInterest { key }) => Some(key),
        _ => None,
    }
}

/// Whether a call may be made while a transition of the stream under `open` goes on: a transition
/// starts where there is none, ends where it is the one that goes on, and a call for a stream is
/// made in a transition of that stream.
pub open spec fn fits<P>(open: Option<Key>, call: Call<P>) -> bool {
    match call {
        Call::Counts(CountsCall::TransitionStart { .. }) => open is None,
        Call::Counts(CountsCall::TransitionEnd { key }) => open == Some(key),
        _ => stream_of(call) is Some ==> open == stream_of(call),
    }
}

/// Whether transitions start and end in turn, each one of one stream, with the calls for a stream in
/// its transitions, and none is left open.
pub open spec fn bracketed<P>(calls: Seq<Call<P>>) -> bool {
    &&& forall|i: int|
        0 <= i < calls.len() ==> fits(in_transition(calls, i), #[trigger] calls[i])
    &&& in_transition(calls, calls.len() as int) is None
}

/// The stream whose transition goes on while an operation waits, once it has made its call.
pub open spec fn within<P>(pending: Pending<P>) -> Option<Key> {
    match pending {
        Pending::Recv(pending) => match pending {
            RecvPending::HeadersStart { key, .. } => Some(key),
            RecvPending::HeadersState { key, .. } => Some(key),
            RecvPending::DataStart { key, .. } => Some(key),
            RecvPending::Processed { key } => Some(key),
            RecvPending::Answered { key } => Some(key),
            RecvPending::ResetStart { key, .. } => Some(key),
            RecvPending::ResetProcessed { key } => Some(key),
            RecvPending::ResetClosed { key } => Some(key),
            _ => None,
        },
        Pending::Sweep(pending) => match pending {
            SweepPending::Start { key, .. } => Some(key),
            SweepPending::Recv { key, .. } => Some(key),
            SweepPending::Send { key, .. } => Some(key),
            _ => None,
        },
        Pending::Send(pending) => match pending {
            SendPending::ResetStart { key, .. } => Some(key),
            SendPending::DataStart { key, .. } => Some(key),
            SendPending::TrailersStart { key, .. } => Some(key),
            SendPending::ResponseStart { key, .. } => Some(key),
            SendPending::ResponseConverted { key } => Some(key),
            SendPending::Sent { key } => Some(key),
            SendPending::DropStart { key } => Some(key),
            SendPending::DropState { key } => Some(key),
            SendPending::Told { key } => Some(key),
            _ => None,
        },
        _ => None,
    }
}

/// Whether an operation may come to `step` while a transition of the stream under `open` goes on:
/// its call fits, and it waits for what it then waits for.
spec fn agrees<P>(open: Option<Key>, step: Step<P>) -> bool {
    match step {
        Step::Done(_) => open is None,
        Step::Call { call, pending } => fits(open, call) && within(pending) == match call {
            Call::Counts(CountsCall::TransitionStart { key }) => Some(key),
            Call::Counts(CountsCall::TransitionEnd { .. }) => None,
            _ => open,
        },
    }
}

/// An operation that goes on does so with what fits.
proof fn lemma_agrees<P>(turn: Turn<P>, step: Step<P>)
    requires
        turn.follows(step),
    ensures
        step matches Step::Call { pending, .. } && agrees(within(pending), turn.next),
{
}

/// After each turn, the calls that were made say which transition goes on.
proof fn lemma_bracketed<P>(first: Step<P>, turns: Seq<Turn<P>>, outcome: Outcome, n: int)
    requires
        agrees(None, first),
        runs(first, turns, outcome),
        0 <= n <= turns.len(),
    ensures
        agrees(in_transition(calls(turns), n), reached(first, turns, n)),
    decreases n,
{
    if n > 0 {
        lemma_bracketed(first, turns, outcome, n - 1);
        lemma_turn(first, turns, outcome, n - 1);
        lemma_agrees(turns[n - 1], reached(first, turns, n - 1));
        assert(calls(turns)[n - 1] == turns[n - 1].call);
    }
}

/// Whatever happens, an operation starts a transition only where none goes on, ends the one that it
/// started, and comes to its outcome only when it has ended it. What it does to a stream, it does in
/// a transition of that stream.
pub proof fn law_transitions_end<P>(
    operation: Operation<P>,
    s: StreamsView,
    t: StreamsView,
    first: Step<P>,
    turns: Seq<Turn<P>>,
    outcome: Outcome,
)
    requires
        operation.starts(s, t, first),
        runs(first, turns, outcome),
    ensures
        bracketed(calls(turns)),
{
    let made = calls(turns);
    assert(agrees(None, first));
    assert forall|i: int| 0 <= i < made.len() implies fits(
        in_transition(made, i),
        #[trigger] made[i],
    ) by {
        lemma_bracketed(first, turns, outcome, i);
        lemma_turn(first, turns, outcome, i);
        assert(made[i] == turns[i].call);
    }
    lemma_bracketed(first, turns, outcome, turns.len() as int);
}

/// Whether a call is replied to by a reply like this one. The calls whose reply is the result of an
/// operation are not made on the way to one.
pub open spec fn is_reply<P>(call: Call<P>, reply: Reply<P>) -> bool {
    match call {
        Call::Recv(call) => match call {
            RecvCall::Open { .. } => reply is Opened,
            RecvCall::InitWindowSize => reply is Window,
            RecvCall::LastProcessedId => reply is Id,
            RecvCall::Headers { .. } => reply is Received,
            RecvCall::Trailers { .. } => reply is Received,
            RecvCall::Data { .. } => reply is Received,
            RecvCall::Reset { .. } => reply is Received,
            RecvCall::RecvErr { .. } => reply is Done,
            RecvCall::Eof { .. } => reply is Done,
            RecvCall::EnsureNotIdle { .. } => reply is Checked,
            RecvCall::PushPromise { .. } => reply is Received,
            RecvCall::NextIncoming => reply is Incoming,
            RecvCall::PollComplete => reply is Polled,
            _ => false,
        },
        Call::Send(call) => match call {
            SendCall::InitWindowSize => reply is Window,
            SendCall::Reset { .. } => reply is Done,
            SendCall::RecvErr { .. } => reply is Done,
            SendCall::RecvConnectionWindowUpdate { .. } => reply is Checked,
            SendCall::RecvStreamWindowUpdate { .. } => reply is Checked,
            SendCall::EnsureNotIdle { .. } => reply is Checked,
            SendCall::EnsureNextStreamId => reply is Allowed,
            SendCall::Open => reply is Assigned,
            SendCall::Headers { .. } => reply is Allowed,
            SendCall::Data { .. } => reply is Allowed,
            SendCall::Trailers { .. } => reply is Allowed,
            SendCall::PollComplete => reply is Polled,
            SendCall::ApplyRemoteSettings { .. } => reply is Received,
            SendCall::ScheduleCancel { .. } => reply is Done,
            _ => false,
        },
        Call::Counts(_) => reply is Done,
        Call::State(_) => reply is Flag,
        Call::Convert(ConvertCall::Request { .. }) => reply is Converted,
        Call::Convert(ConvertCall::Response { .. }) => reply is Frame,
        Call::CurrentTask => reply is Task,
    }
}

/// Whether an operation that came to `step` waits for a reply to the call that it made.
spec fn asks_right<P>(step: Step<P>) -> bool {
    step matches Step::Call { call, pending } ==> forall|s: StreamsView, reply: Reply<P>| #[trigger]
        pending.awaits(s, reply) ==> is_reply(call, reply)
}

/// A visit that goes on waits for a reply to its call.
proof fn lemma_advance_asks_right<P>(sweep: Sweep, s: StreamsView, t: StreamsView, step: Step<P>)
    requires
        sweep.advances(s, t, step),
    ensures
        asks_right(step),
{
}

/// An operation that goes on waits for a reply to the call that it then makes.
proof fn lemma_asks_right<P>(turn: Turn<P>, step: Step<P>)
    requires
        turn.follows(step),
    ensures
        asks_right(turn.next),
{
    if let Step::Call { pending: Pending::Sweep(pending), .. } = step {
        match pending {
            SweepPending::LastProcessedId { .. } => {
                let sweep = choose|sweep: Sweep| #[trigger]
                    sweep.advances(turn.before, turn.after, turn.next);
                lemma_advance_asks_right(sweep, turn.before, turn.after, turn.next);
            },
            SweepPending::End { sweep } => {
                lemma_advance_asks_right(sweep, turn.before, turn.after, turn.next);
            },
            _ => {},
        }
    }
}

/// An operation goes on from each of its calls with a reply to that call, and with no other.
pub proof fn law_calls_are_replied_to<P>(
    operation: Operation<P>,
    s: StreamsView,
    t: StreamsView,
    first: Step<P>,
    turns: Seq<Turn<P>>,
    i: int,
)
    requires
        operation.starts(s, t, first),
        takes(first, turns),
        0 <= i < turns.len(),
    ensures
        is_reply(turns[i].call, turns[i].reply),
{
    assert(turns[i].follows(reached(first, turns, i)));
    if i > 0 {
        assert(turns[i - 1].follows(reached(first, turns, i - 1)));
        lemma_asks_right(turns[i - 1], reached(first, turns, i - 1));
    } else {
        assert(asks_right(first));
    }
}

/// How many streams a visit has not passed.
pub open spec fn streams_ahead(sweep: Sweep) -> nat {
    if sweep.passed <= sweep.keys@.len() {
        (sweep.keys@.len() - sweep.passed) as nat
    } else {
        0
    }
}

/// No more than so many turns lead from here to the outcome. For a failure of the connection, that
/// is known once the streams to visit are.
pub open spec fn turns_left<P>(step: Step<P>) -> nat {
    match step {
        Step::Done(_) => 0,
        Step::Call { pending, .. } => match pending {
            Pending::Recv(pending) => match pending {
                RecvPending::Open { .. } => 8,
                RecvPending::SendWindow { .. } => 7,
                RecvPending::RecvWindow { .. } => 6,
                RecvPending::HeadersStart { .. } => 5,
                RecvPending::HeadersState { .. } => 4,
                RecvPending::DataStart { .. } => 4,
                RecvPending::Processed { .. } => 3,
                RecvPending::Answered { .. } => 2,
                RecvPending::ResetStart { .. } => 4,
                RecvPending::ResetProcessed { .. } => 3,
                RecvPending::ResetClosed { .. } => 2,
                RecvPending::SettingsCounted { .. } => 2,
                _ => 1,
            },
            Pending::Sweep(pending) => match pending {
                SweepPending::LastProcessedId { .. } => 0,
                SweepPending::Start { sweep, .. } => 4 + 4 * streams_ahead(sweep),
                SweepPending::Recv { sweep, .. } => 3 + 4 * streams_ahead(sweep),
                SweepPending::Send { sweep, .. } => 2 + 4 * streams_ahead(sweep),
                SweepPending::End { sweep } => 1 + 4 * streams_ahead(sweep),
            },
            Pending::Request(pending) => match pending {
                RequestPending::NextStreamId { .. } => 7,
                RequestPending::Open { .. } => 6,
                RequestPending::SendWindow { .. } => 5,
                RequestPending::RecvWindow { .. } => 4,
                RequestPending::Convert { .. } => 3,
                RequestPending::Headers { .. } => 2,
                RequestPending::ReadyNextStreamId { .. } => 2,
                _ => 1,
            },
            Pending::Send(pending) => match pending {
                SendPending::ResetOpen { .. } => 4,
                SendPending::ResponseStart { .. } => 4,
                SendPending::DropStart { .. } => 4,
                SendPending::ResetStart { .. } => 3,
                SendPending::DataStart { .. } => 3,
                SendPending::TrailersStart { .. } => 3,
                SendPending::ResponseConverted { .. } => 3,
                SendPending::DropState { .. } => 3,
                SendPending::Sent { .. } => 2,
                SendPending::Told { .. } => 2,
                _ => 1,
            },
            Pending::Poll(pending) => match pending {
                PollPending::Recv => 3,
                PollPending::Send => 2,
                _ => 1,
            },
        },
    }
}

/// Whether an operation is about to visit the streams of a failed connection.
pub open spec fn is_failing<P>(step: Step<P>) -> bool {
    step matches Step::Call { pending: Pending::Sweep(SweepPending::LastProcessedId { .. }), .. }
}

/// Whether an operation that came to `first` took these turns, whether or not they led to its
/// outcome.
pub open spec fn takes<P>(first: Step<P>, turns: Seq<Turn<P>>) -> bool {
    forall|i: int| 0 <= i < turns.len() ==> #[trigger] turns[i].follows(reached(first, turns, i))
}

/// A visit that goes on has fewer streams before it.
proof fn lemma_advance_is_closer<P>(sweep: Sweep, s: StreamsView, t: StreamsView, step: Step<P>)
    requires
        sweep.advances(s, t, step),
    ensures
        turns_left(step) <= 4 * streams_ahead(sweep),
        !is_failing(step),
{
    assert(sweep.keys.len() <= usize::MAX);
}

/// Every turn brings an operation closer to its outcome.
proof fn lemma_turn_is_closer<P>(turn: Turn<P>, step: Step<P>)
    requires
        turn.follows(step),
    ensures
        !is_failing(turn.next),
        !is_failing(step) ==> turns_left(turn.next) < turns_left(step),
        is_failing(step) ==> turns_left(turn.next) <= 4 * turn.before.store.links.len(),
{
    if let Step::Call { pending: Pending::Sweep(pending), .. } = step {
        match pending {
            SweepPending::LastProcessedId { err } => {
                let sweep = choose|sweep: Sweep|
                    {
                        &&& sweep.keys@ == turn.before.store.linked_keys()
                        &&& sweep.passed == 0
                        &&& #[trigger] sweep.advances(turn.before, turn.after, turn.next)
                    };
                lemma_advance_is_closer(sweep, turn.before, turn.after, turn.next);
            },
            SweepPending::End { sweep } => {
                lemma_advance_is_closer(sweep, turn.before, turn.after, turn.next);
            },
            _ => {},
        }
    }
}

/// Every turn that was taken is one less.
proof fn lemma_turns_left<P>(first: Step<P>, turns: Seq<Turn<P>>)
    requires
        takes(first, turns),
        !is_failing(first),
    ensures
        !is_failing(reached(first, turns, turns.len() as int)),
        turns.len() + turns_left(reached(first, turns, turns.len() as int)) <= turns_left(first),
    decreases turns.len(),
{
    let n = turns.len() as int;
    if n > 0 {
        let made = turns.drop_last();
        assert forall|i: int| 0 <= i < made.len() implies #[trigger] made[i].follows(
            reached(first, made, i),
        ) by {
            assert(turns[i].follows(reached(first, turns, i)));
        }
        lemma_turns_left(first, made);
        assert(reached(first, made, n - 1) == reached(first, turns, n - 1));
        assert(turns[n - 1].follows(reached(first, turns, n - 1)));
        lemma_turn_is_closer(turns[n - 1], reached(first, turns, n - 1));
    }
}

/// Every operation comes to its outcome, whatever the replies are: there is a number of turns that
/// it never takes more than. If it visits all streams, these are four for each stream; if it does
/// not, there are no more than eight.
pub proof fn law_operation_ends<P>(
    operation: Operation<P>,
    s: StreamsView,
    t: StreamsView,
    first: Step<P>,
    turns: Seq<Turn<P>>,
)
    requires
        operation.starts(s, t, first),
        takes(first, turns),
    ensures
        match operation {
            Operation::RecvErr { .. } => turns.len() > 0 ==> turns.len() <= 1 + 4
                * turns[0].before.store.links.len(),
            Operation::RecvGoaway { .. } => turns.len() <= 4 * s.store.links.len(),
            Operation::RecvEof => turns.len() <= 4 * s.store.links.len(),
            _ => turns.len() <= 8,
        },
{
    match operation {
        Operation::RecvErr { .. } => {
            if turns.len() > 0 {
                let rest = turns.skip(1);
                assert(turns[0].follows(reached(first, turns, 0)));
                assert forall|i: int| 0 <= i < rest.len() implies #[trigger] rest[i].follows(
                    reached(turns[0].next, rest, i),
                ) by {
                    assert(turns[i + 1].follows(reached(first, turns, i + 1)));
                }
                lemma_turn_is_closer(turns[0], first);
                lemma_turns_left(turns[0].next, rest);
            }
        },
        Operation::RecvGoaway { frame } => {
            let sweep = choose|sweep: Sweep|
                {
                    &&& sweep.keys@ == s.store.linked_keys()
                    &&& sweep.passed == 0
                    &&& #[trigger] sweep.advances(s, t, first)
                };
            lemma_advance_is_closer(sweep, s, t, first);
            lemma_turns_left(first, turns);
        },
        Operation::RecvEof => {
            let sweep = choose|sweep: Sweep|
                {
                    &&& sweep.keys@ == s.store.linked_keys()
                    &&& sweep.passed == 0
                    &&& #[trigger] sweep.advances(s.ended(), t, first)
                };
            lemma_advance_is_closer(sweep, s.ended(), t, first);
            lemma_turns_left(first, turns);
        },
        _ => lemma_turns_left(first, turns),
    }
}

} // verus!
