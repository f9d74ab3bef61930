//! Handles, and the count that a stream keeps of them.
use crate::call::{Call, Reply, StateCall};
use crate::frame::GoAway;
use crate::laws::send::law_drop;
use crate::laws::sweep::left;
use crate::laws::{calls, end, gains_handle, lemma_turn, runs, start, Turn};
use crate::step::{Outcome, Pending, Step};
use crate::store::{Key, Stream};
use crate::streams::StreamsView;
use vstd::multiset::Multiset;
use vstd::prelude::*;

verus! {

/// How many handles the stream under `key` counts.
pub open spec fn counted(s: StreamsView, key: Key) -> nat {
    if s.store.holds(key) {
        s.store.streams[key].ref_count as nat
    } else {
        0
    }
}

/// Whether every stream counts the handles to it, and no other handles are there.
pub open spec fn accounted(s: StreamsView, handles: Multiset<Key>) -> bool {
    forall|key: Key| counted(s, key) == #[trigger] handles.count(key)
}

/// The handle that an operation hands out at this step, if it does.
pub open spec fn handed_out<P>(step: Step<P>) -> Multiset<Key> {
    match step {
        Step::Done(Outcome::Incoming(Some(handle))) => Multiset::singleton(handle@),
        Step::Done(Outcome::Requested(Ok(handle))) => Multiset::singleton(handle@),
        _ => Multiset::empty(),
    }
}

/// One of the changes that the streams of a connection go through.
pub enum Change<P> {
    /// A call was made. Whoever made it reached the streams and the task that writes, added no
    /// stream that counts a handle, took none away that does, and left the counts alone.
    Tended,
    /// An operation went on.
    Resumed { pending: Pending<P>, reply: Reply<P>, step: Step<P> },
    /// The remote goes away.
    GoneAway { frame: GoAway, step: Step<P> },
    /// Nothing more can be read.
    Ended { step: Step<P> },
    /// A handle to the stream under `key` was cloned.
    Cloned { key: Key },
    /// A handle to the stream under `key` was dropped.
    Dropped { key: Key },
}

impl<P> Change<P> {
    /// Whether this change leads from `s`, where there are the handles `h`, to `t`, where there are
    /// the handles `g`.
    pub open spec fn leads(
        self,
        s: StreamsView,
        h: Multiset<Key>,
        t: StreamsView,
        g: Multiset<Key>,
    ) -> bool {
        match self {
            Change::Tended => {
                &&& t.peer == s.peer
                &&& t.conn_error == s.conn_error
                &&& forall|key: Key| #[trigger] counted(t, key) == counted(s, key)
                &&& g == h
            },
            Change::Resumed { pending, reply, step } => {
                &&& pending.awaits(s, reply)
                &&& pending.resumes(s, reply, t, step)
                &&& g == h.add(handed_out(step))
            },
            Change::GoneAway { frame, step } => {
                &&& s.recv_goaway(frame, t, step)
                &&& g == h.add(handed_out(step))
            },
            Change::Ended { step } => s.recv_eof(t, step) && g == h.add(handed_out(step)),
            Change::Cloned { key } => {
                &&& h.contains(key)
                &&& s.can_ref_inc(key)
                &&& t == s.ref_inc(key)
                &&& g == h.insert(key)
            },
            Change::Dropped { key } => {
                &&& h.contains(key)
                &&& t == s.ref_dec(key)
                &&& g == h.remove(key)
            },
        }
    }
}

/// A handle always leads to a stream, which counts it, so that it can be used and dropped.
pub proof fn law_handle_resolves(s: StreamsView, handles: Multiset<Key>, key: Key)
    requires
        accounted(s, handles),
        handles.contains(key),
    ensures
        s.store.holds(key),
        s.can_ref_dec(key),
{
    assert(counted(s, key) == handles.count(key));
}

/// A handle can be given to a stream that is there and does not count as many as there are numbers
/// for, and to no other. The stream then counts exactly one more, and nothing else has changed.
pub proof fn law_new_handle_counts_one(s: StreamsView, key: Key)
    ensures
        s.can_ref_inc(key) <==> s.store.streams.contains_key(key) && s.store.streams[key].ref_count
            < usize::MAX,
        s.can_ref_inc(key) ==> gains_handle(s, key, s.ref_inc(key)),
{
    if s.can_ref_inc(key) {
        assert(s.ref_inc(key).store.streams.dom() =~= s.store.streams.dom());
    }
}

/// A handle can be dropped where its stream is there and counts a handle, and nowhere else. The
/// stream then counts exactly one less, and nothing else has changed: to count it again would lead
/// back.
pub proof fn law_drop_counts_one(s: StreamsView, key: Key)
    ensures
        s.can_ref_dec(key) <==> s.store.streams.contains_key(key) && s.store.streams[key].ref_count
            > 0,
        s.can_ref_dec(key) ==> gains_handle(s.ref_dec(key), key, s),
{
    if s.can_ref_dec(key) {
        assert(s.ref_dec(key).store.streams.dom() =~= s.store.streams.dom());
    }
}

/// Dropping a handle undoes cloning it: the streams are as they were.
pub proof fn law_drop_undoes_clone(s: StreamsView, key: Key)
    requires
        s.can_ref_inc(key),
    ensures
        s.ref_inc(key).can_ref_dec(key),
        s.ref_inc(key).ref_dec(key) == s,
{
    assert(s.ref_inc(key).ref_dec(key).store.streams =~= s.store.streams);
}

/// Whether nobody was said to wait for a stream only where it counted no handle.
pub open spec fn is_canceled_by_last<P>(key: Key, turns: Seq<Turn<P>>) -> bool {
    forall|i: int|
        0 <= i < turns.len() && (#[trigger] turns[i]).call == Call::<P>::State(
            StateCall::IsCanceledInterest { key },
        ) && turns[i].reply == Reply::<P>::Flag(true) ==> counted(turns[i].before, key) == 0
}

/// Whether the calls that were made left alone how many handles the stream under `key` counts.
pub open spec fn keeps_count<P>(key: Key, t: StreamsView, turns: Seq<Turn<P>>) -> bool {
    forall|i: int|
        0 <= i < turns.len() ==> counted((#[trigger] turns[i]).before, key) == counted(
            left(t, turns.take(i)),
            key,
        )
}

/// Dropping a handle while another one is left cancels nothing: in a transition of the stream it is
/// asked whether anyone waits for it, and that is all.
pub proof fn law_drop_before_last<P>(
    s: StreamsView,
    key: Key,
    turns: Seq<Turn<P>>,
    outcome: Outcome,
)
    requires
        s.can_ref_dec(key),
        counted(s.ref_dec(key), key) > 0,
        runs(s.dropped(key), turns, outcome),
        keeps_count(key, s.ref_dec(key), turns),
        is_canceled_by_last(key, turns),
    ensures
        calls(turns) == seq![
            start::<P>(key),
            Call::State(StateCall::IsCanceledInterest { key }),
            end(key),
        ],
        outcome == Outcome::Unit,
        counted(turns.last().after, key) == counted(s, key) - 1,
{
    let t = s.ref_dec(key);
    let first = s.dropped::<P>(key);
    law_drop(s, key, turns, outcome);
    lemma_turn(first, turns, outcome, 0);
    lemma_turn(first, turns, outcome, 1);
    assert(turns.take(0).len() == 0);
    assert(counted(turns[0].before, key) == counted(t, key));
    assert(turns.take(1).last() == turns[0]);
    assert(counted(turns[1].before, key) == counted(t, key));
    assert(turns[1].reply == Reply::<P>::Flag(turns[1].reply->Flag_0));
    assert(!turns[1].reply->Flag_0);
    lemma_turn(first, turns, outcome, 2);
    assert(calls(turns).len() == turns.len());
    assert(turns.take(2).last() == turns[1]);
    assert(counted(turns[2].before, key) == counted(t, key));
}

/// One handle more, in the streams and among the handles.
proof fn lemma_inc(s: StreamsView, handles: Multiset<Key>, key: Key)
    requires
        accounted(s, handles),
        s.can_ref_inc(key),
    ensures
        accounted(s.ref_inc(key), handles.insert(key)),
{
    assert forall|k: Key| counted(s.ref_inc(key), k) == #[trigger] handles.insert(key).count(k) by {
        assert(counted(s, k) == handles.count(k));
    }
}

/// A stream that counts no handle makes no difference.
proof fn lemma_adds(
    s: StreamsView,
    handles: Multiset<Key>,
    key: Key,
    stream: Stream,
    t: StreamsView,
)
    requires
        accounted(s, handles),
        stream.ref_count == 0,
        !s.store.holds(key),
        t.store.streams == s.store.streams.insert(key, stream),
    ensures
        accounted(t, handles),
{
    assert forall|k: Key| counted(t, k) == #[trigger] handles.count(k) by {
        assert(counted(s, k) == handles.count(k));
    }
}

/// Streams of which none is taken away and none counts differently make no difference.
proof fn lemma_same(s: StreamsView, handles: Multiset<Key>, t: StreamsView)
    requires
        accounted(s, handles),
        forall|key: Key| #[trigger] counted(t, key) == counted(s, key),
    ensures
        accounted(t, handles.add(Multiset::empty())),
{
    assert(handles.add(Multiset::empty()) =~= handles);
    assert forall|key: Key| counted(t, key) == #[trigger] handles.count(key) by {
        assert(counted(s, key) == handles.count(key));
    }
}

/// How an operation that goes on changes the streams: it adds one that counts no handle, it counts
/// the handle that it hands out, or it leaves the counts alone.
proof fn lemma_resumed<P>(
    pending: Pending<P>,
    s: StreamsView,
    reply: Reply<P>,
    t: StreamsView,
    step: Step<P>,
)
    requires
        pending.awaits(s, reply),
        pending.resumes(s, reply, t, step),
    ensures
        ({
            ||| handed_out(step) == Multiset::<Key>::empty() && exists|key: Key, stream: Stream|
                stream.ref_count == 0 && !s.store.holds(key) && t.store.streams
                    == #[trigger] s.store.streams.insert(key, stream)
            ||| exists|key: Key|
                #[trigger] s.can_ref_inc(key) && t == s.ref_inc(key) && handed_out(step)
                    == Multiset::singleton(key)
            ||| handed_out(step) == Multiset::<Key>::empty() && forall|key: Key| #[trigger]
                counted(t, key) == counted(s, key)
        }),
{
    match pending {
        Pending::Recv(pending) => {
            if t != s {
                let stream = Stream::fresh(
                    pending->RecvWindow_stream_id,
                    pending->RecvWindow_send_window,
                    reply->Window_0,
                );
                let frame = pending->RecvWindow_frame;
                let key = choose|key: Key| #[trigger] s.adds(frame.stream_id, key, stream, t);
                assert(t.store.streams == s.store.streams.insert(key, stream));
            }
        },
        _ => {
        },
    }
}

/// No change breaks the accounts.
pub proof fn law_change_is_accounted<P>(
    change: Change<P>,
    s: StreamsView,
    h: Multiset<Key>,
    t: StreamsView,
    g: Multiset<Key>,
)
    requires
        accounted(s, h),
        change.leads(s, h, t, g),
    ensures
        accounted(t, g),
{
    match change {
        Change::Tended => {
            assert forall|key: Key| counted(t, key) == #[trigger] g.count(key) by {
                assert(counted(s, key) == h.count(key));
            }
        },
        Change::Resumed { pending, reply, step } => {
            lemma_resumed(pending, s, reply, t, step);
            if exists|key: Key|
                #[trigger] s.can_ref_inc(key) && t == s.ref_inc(key) && handed_out(step)
                    == Multiset::singleton(key) {
                let key = choose|key: Key|
                    #[trigger] s.can_ref_inc(key) && t == s.ref_inc(key) && handed_out(step)
                        == Multiset::singleton(key);
                lemma_inc(s, h, key);
                assert(h.add(Multiset::singleton(key)) =~= h.insert(key));
            } else if forall|key: Key| #[trigger] counted(t, key) == counted(s, key) {
                lemma_same(s, h, t);
            } else {
                let (key, stream) = choose|key: Key, stream: Stream|
                    stream.ref_count == 0 && !s.store.holds(key) && t.store.streams
                        == #[trigger] s.store.streams.insert(key, stream);
                lemma_adds(s, h, key, stream, t);
                assert(h.add(Multiset::empty()) =~= h);
            }
        },
        Change::GoneAway { .. } => lemma_same(s, h, t),
        Change::Ended { .. } => lemma_same(s, h, t),
        Change::Cloned { key } => lemma_inc(s, h, key),
        Change::Dropped { key } => {
            law_handle_resolves(s, h, key);
            assert forall|k: Key| counted(t, k) == #[trigger] g.count(k) by {
                assert(counted(s, k) == h.count(k));
            }
        },
    }
}

/// No change turns the connection around, and none makes it sound again once it has failed. Only the
/// end of the connection gives it an error.
pub proof fn law_change_keeps_failure<P>(
    change: Change<P>,
    s: StreamsView,
    h: Multiset<Key>,
    t: StreamsView,
    g: Multiset<Key>,
)
    requires
        change.leads(s, h, t, g),
    ensures
        t.peer == s.peer,
        s.conn_error is Some ==> t.conn_error is Some,
        t.conn_error != s.conn_error ==> match change {
            Change::Resumed { pending, .. } => pending is Sweep,
            Change::GoneAway { .. } => true,
            Change::Ended { .. } => s.conn_error is None,
            _ => false,
        },
{
}

/// The streams of a connection and the handles that there are, at one time.
pub struct Moment {
    pub streams: StreamsView,
    pub handles: Multiset<Key>,
}

/// Whether these changes lead from each moment to the next.
pub open spec fn happens<P>(moments: Seq<Moment>, changes: Seq<Change<P>>) -> bool {
    &&& moments.len() == changes.len() + 1
    &&& forall|i: int|
        0 <= i < changes.len() ==> (#[trigger] changes[i]).leads(
            moments[i].streams,
            moments[i].handles,
            moments[i + 1].streams,
            moments[i + 1].handles,
        )
}

/// From a new connection on, every stream counts the handles to it, whatever happens; which end this
/// is never changes, and a connection that has failed stays so.
pub proof fn law_history<P>(moments: Seq<Moment>, changes: Seq<Change<P>>, i: int, j: int)
    requires
        happens(moments, changes),
        moments[0].streams.store.streams == Map::<Key, Stream>::empty(),
        moments[0].handles == Multiset::<Key>::empty(),
        0 <= i <= j < moments.len(),
    ensures
        accounted(moments[j].streams, moments[j].handles),
        moments[j].streams.peer == moments[i].streams.peer,
        moments[i].streams.conn_error is Some ==> moments[j].streams.conn_error is Some,
    decreases j,
{
    if j > 0 {
        let change = changes[j - 1];
        let s = moments[j - 1];
        let t = moments[j];
        assert(change.leads(s.streams, s.handles, t.streams, t.handles));
        law_history(moments, changes, if i < j { i } else { j - 1 }, j - 1);
        law_change_is_accounted(change, s.streams, s.handles, t.streams, t.handles);
        law_change_keeps_failure(change, s.streams, s.handles, t.streams, t.handles);
    }
}

} // verus!
