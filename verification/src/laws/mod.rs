//! What holds of whole operations, and of any number of them.
use crate::call::{Call, CountsCall, Reply};
use crate::frame::{StreamId, WindowSize};
use crate::step::{Outcome, Pending, Step};
use crate::store::{ContentLength, Key, Link, Stream};
use crate::streams::StreamsView;
use vstd::prelude::*;

pub mod accept;
pub mod failure;
pub mod handles;
pub mod operation;
pub mod recv;
pub mod request;
pub mod send;
pub mod store;
pub mod sweep;

verus! {

/// A call of an operation, the reply to it, and how the operation went on. `before` is how the one
/// who made the call left the streams, `after` is how the operation left them.
pub struct Turn<P> {
    pub call: Call<P>,
    pub before: StreamsView,
    pub reply: Reply<P>,
    pub after: StreamsView,
    pub next: Step<P>,
}

impl<P> Turn<P> {
    /// Whether an operation that came to `step` took this turn.
    pub open spec fn follows(self, step: Step<P>) -> bool {
        &&& step matches Step::Call { call, pending }
        &&& self.call == call
        &&& pending.awaits(self.before, self.reply)
        &&& pending.resumes(self.before, self.reply, self.after, self.next)
    }
}

/// What the operation that started with `first` has come to after `n` turns.
pub open spec fn reached<P>(first: Step<P>, turns: Seq<Turn<P>>, n: int) -> Step<P> {
    if n == 0 {
        first
    } else {
        turns[n - 1].next
    }
}

/// Whether the operation that started with `first` took these turns, and came to `outcome`.
pub open spec fn runs<P>(first: Step<P>, turns: Seq<Turn<P>>, outcome: Outcome) -> bool {
    &&& forall|i: int|
        0 <= i < turns.len() ==> #[trigger] turns[i].follows(reached(first, turns, i))
    &&& reached(first, turns, turns.len() as int) == Step::<P>::Done(outcome)
}

/// Whether the operation itself left the streams alone in these turns.
pub open spec fn leaves_alone<P>(turns: Seq<Turn<P>>) -> bool {
    forall|i: int| 0 <= i < turns.len() ==> (#[trigger] turns[i]).after == turns[i].before
}

/// Whether an operation that came to `step` is one on a stream that is there, or on none, and will
/// not add one.
spec fn is_settled<P>(step: Step<P>) -> bool {
    match step {
        Step::Call { pending: Pending::Recv(pending), .. } => !(pending is Open || pending
            is SendWindow || pending is RecvWindow),
        Step::Call { pending: Pending::Send(pending), .. } => !(pending is ResetOpen),
        Step::Call { .. } => false,
        Step::Done(_) => true,
    }
}

/// An operation that adds no stream leaves the streams alone.
proof fn lemma_leaves_alone<P>(first: Step<P>, turns: Seq<Turn<P>>, outcome: Outcome)
    requires
        runs(first, turns, outcome),
        is_settled(first),
    ensures
        leaves_alone(turns),
{
    assert forall|i: int| 0 <= i < turns.len() implies (#[trigger] turns[i]).after
        == turns[i].before by {
        lemma_settled(first, turns, outcome, i);
        lemma_turn(first, turns, outcome, i);
    }
}

/// An operation that adds no stream never comes to the point where it would.
proof fn lemma_settled<P>(first: Step<P>, turns: Seq<Turn<P>>, outcome: Outcome, n: int)
    requires
        runs(first, turns, outcome),
        is_settled(first),
        0 <= n <= turns.len(),
    ensures
        is_settled(reached(first, turns, n)),
    decreases n,
{
    if n > 0 {
        lemma_settled(first, turns, outcome, n - 1);
        lemma_turn(first, turns, outcome, n - 1);
    }
}

/// A stream as it is when it is added: nobody waits for it, and no handle refers to it.
pub open spec fn unused_stream(
    id: StreamId,
    send_window: WindowSize,
    recv_window: WindowSize,
    content_length: ContentLength,
) -> Stream {
    Stream {
        id,
        init_send_window: send_window,
        init_recv_window: recv_window,
        content_length,
        is_pending_open: false,
        send_task: None,
        ref_count: 0,
    }
}

/// Whether from `s` to `t` a stream came in under a key that was free, with a link from `id` to it
/// behind all others, and nothing else changed.
pub open spec fn gains_stream(
    s: StreamsView,
    id: StreamId,
    key: Key,
    stream: Stream,
    t: StreamsView,
) -> bool {
    &&& !s.store.streams.contains_key(key)
    &&& t.store.streams == s.store.streams.insert(key, stream)
    &&& t.store.links == s.store.links.push(Link { id, key })
    &&& t.peer == s.peer
    &&& t.task == s.task
    &&& t.conn_error == s.conn_error
}

/// Whether from `s` to `t` the stream under `key` came to count one handle more, and nothing else
/// changed.
pub open spec fn gains_handle(s: StreamsView, key: Key, t: StreamsView) -> bool {
    &&& s.store.streams.contains_key(key)
    &&& t.store.streams.dom() == s.store.streams.dom()
    &&& t.store.streams[key].ref_count == s.store.streams[key].ref_count + 1
    &&& t.store.streams[key] == Stream {
        ref_count: t.store.streams[key].ref_count,
        ..s.store.streams[key]
    }
    &&& forall|other: Key| other != key ==> #[trigger] t.store.streams[other]
        == s.store.streams[other]
    &&& t.store.links == s.store.links
    &&& t.peer == s.peer
    &&& t.task == s.task
    &&& t.conn_error == s.conn_error
}

/// The calls that were made.
pub open spec fn calls<P>(turns: Seq<Turn<P>>) -> Seq<Call<P>> {
    turns.map_values(|turn: Turn<P>| turn.call)
}

/// The start of a transition of a stream.
pub open spec fn start<P>(key: Key) -> Call<P> {
    Call::Counts(CountsCall::TransitionStart { key })
}

/// The end of a transition of a stream.
pub open spec fn end<P>(key: Key) -> Call<P> {
    Call::Counts(CountsCall::TransitionEnd { key })
}

/// An operation that waits takes a turn, and one that has come to its outcome takes none.
proof fn lemma_turn<P>(first: Step<P>, turns: Seq<Turn<P>>, outcome: Outcome, n: int)
    requires
        runs(first, turns, outcome),
        0 <= n <= turns.len(),
    ensures
        match reached(first, turns, n) {
            Step::Call { .. } => n < turns.len() && turns[n].follows(reached(first, turns, n)),
            Step::Done(o) => n == turns.len() && o == outcome,
        },
{
    if n < turns.len() {
        assert(turns[n].follows(reached(first, turns, n)));
    }
}

/// What is left of an operation after `n` turns is an operation.
proof fn lemma_rest<P>(first: Step<P>, turns: Seq<Turn<P>>, outcome: Outcome, n: int)
    requires
        runs(first, turns, outcome),
        0 <= n <= turns.len(),
    ensures
        runs(reached(first, turns, n), turns.skip(n), outcome),
{
    let rest = turns.skip(n);
    let step = reached(first, turns, n);
    assert forall|i: int| 0 <= i < rest.len() implies #[trigger] rest[i].follows(
        reached(step, rest, i),
    ) by {
        assert(turns[n + i].follows(reached(first, turns, n + i)));
    }
}

} // verus!
