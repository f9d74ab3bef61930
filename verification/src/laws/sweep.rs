//! The end of the connection.
use crate::call::{Call, CountsCall, RecvCall, SendCall};
use crate::error::{Error, ErrorKind, Failure};
use crate::frame::{GoAway, StreamId};
use crate::laws::operation::{takes, Operation};
use crate::laws::{calls, leaves_alone, lemma_rest, lemma_turn, reached, runs, start, Turn};
use crate::step::{Outcome, Pending, Step};
use crate::store::Key;
use crate::streams::sweep::{Cause, Sweep, SweepPending};
use crate::streams::StreamsView;
use vstd::prelude::*;

verus! {

/// What the streams are told of the end of the connection.
pub enum News {
    /// The connection failed with this error.
    Failed(Failure),
    /// Nothing more can be read.
    Ended,
}

/// How one stream is told, in a transition of it: of an error first the receiving half, then the
/// sending half, and of the mere end the receiving half alone.
pub open spec fn visit<P>(news: News, key: Key) -> Seq<Call<P>> {
    match news {
        News::Failed(err) => seq![
            Call::Counts(CountsCall::TransitionStart { key }),
            Call::Recv(RecvCall::RecvErr { key, err }),
            Call::Send(SendCall::RecvErr { key }),
            Call::Counts(CountsCall::TransitionEnd { key }),
        ],
        News::Ended => seq![
            Call::Counts(CountsCall::TransitionStart { key }),
            Call::Recv(RecvCall::Eof { key }),
            Call::Counts(CountsCall::TransitionEnd { key }),
        ],
    }
}

/// How these streams are told, one after the other.
pub open spec fn visits<P>(news: News, keys: Seq<Key>) -> Seq<Call<P>>
    decreases keys.len(),
{
    if keys.len() == 0 {
        seq![]
    } else {
        visit(news, keys[0]) + visits(news, keys.drop_first())
    }
}

/// The streams that identifiers lead to, in order.
pub open spec fn linked(s: StreamsView) -> Seq<Key> {
    Seq::new(s.store.links.len(), |i: int| s.store.links[i].key)
}

/// Whether an identifier leads to the stream under `key`, and, if a last stream is named, that
/// stream has a greater identifier.
pub open spec fn is_past(last: Option<StreamId>, s: StreamsView, key: Key) -> bool {
    &&& linked(s).contains(key)
    &&& last matches Some(last) ==> s.store.streams[key].id.value > last.value
}

/// Those of `keys` that are past the last stream, in order.
pub open spec fn past(last: Option<StreamId>, s: StreamsView, keys: Seq<Key>) -> Seq<Key>
    decreases keys.len(),
{
    if keys.len() == 0 {
        seq![]
    } else {
        let rest = past(last, s, keys.drop_first());
        if is_past(last, s, keys[0]) {
            seq![keys[0]] + rest
        } else {
            rest
        }
    }
}

/// Whether the calls that were made left alone whether a stream is past the last one, up to the time
/// when it is told.
pub open spec fn undisturbed<P>(
    last: Option<StreamId>,
    s: StreamsView,
    turns: Seq<Turn<P>>,
) -> bool {
    forall|i: int, key: Key|
        #![trigger is_past(last, turns[i].before, key)]
        0 <= i < turns.len() && !calls(turns.take(i + 1)).contains(start(key)) ==> (is_past(
            last,
            turns[i].before,
            key,
        ) <==> is_past(last, s, key))
}

/// Whether an operation that found the streams as `s` says, started by leaving them as `t` says and
/// then took these turns, changed nothing but the error of the connection, and that at its very end,
/// if there is one to keep.
pub open spec fn keeps_only<P>(
    s: StreamsView,
    t: StreamsView,
    turns: Seq<Turn<P>>,
    kept: Option<Error>,
) -> bool {
    let n = turns.len() as int;
    let found = if n == 0 {
        s
    } else {
        turns[n - 1].before
    };
    let left = if n == 0 {
        t
    } else {
        turns[n - 1].after
    };
    &&& n > 0 ==> t == s
    &&& forall|i: int| 0 <= i < n - 1 ==> (#[trigger] turns[i]).after == turns[i].before
    &&& left == match kept {
        Some(err) => StreamsView { conn_error: Some(err), ..found },
        None => found,
    }
}

/// What is told for a cause.
spec fn news(cause: Cause) -> News {
    match cause {
        Cause::Failure { err, .. } => News::Failed(err),
        Cause::GoAway { frame } => News::Failed(Failure::Proto(frame.reason)),
        Cause::Eof => News::Ended,
    }
}

/// What is kept for a cause.
spec fn kept(cause: Cause) -> Option<Error> {
    match cause {
        Cause::Failure { err: Failure::Proto(reason), .. } => Some(Error::Proto(reason)),
        Cause::Failure { err: Failure::Io { kind, .. }, .. } => Some(Error::Io(kind)),
        Cause::GoAway { frame } => Some(Error::Proto(frame.reason)),
        Cause::Eof => None,
    }
}

/// The last stream that is named for a cause.
spec fn last_of(cause: Cause) -> Option<StreamId> {
    match cause {
        Cause::GoAway { frame } => Some(frame.last_stream_id),
        _ => None,
    }
}

/// The streams of `keys` that a visit stops at, by how things stand in `s`.
spec fn concerned(cause: Cause, s: StreamsView, keys: Seq<Key>) -> Seq<Key>
    decreases keys.len(),
{
    if keys.len() == 0 {
        seq![]
    } else {
        let rest = concerned(cause, s, keys.drop_first());
        if cause.concerns(s, keys[0]) {
            seq![keys[0]] + rest
        } else {
            rest
        }
    }
}

/// A visit stops at the streams past the last one.
proof fn lemma_stops(cause: Cause, s: StreamsView, key: Key)
    ensures
        cause.concerns(s, key) == is_past(last_of(cause), s, key),
{
    assert(s.store.linked_keys() =~= linked(s));
}

/// A visit stops at the streams past the last one, and in the same order.
proof fn lemma_concerned(cause: Cause, s: StreamsView, keys: Seq<Key>)
    ensures
        concerned(cause, s, keys) == past(last_of(cause), s, keys),
    decreases keys.len(),
{
    if keys.len() > 0 {
        lemma_stops(cause, s, keys[0]);
        lemma_concerned(cause, s, keys.drop_first());
    }
}

/// A stream is told exactly if it is one of those to tell.
proof fn lemma_told<P>(news: News, keys: Seq<Key>, key: Key)
    ensures
        visits::<P>(news, keys).contains(start(key)) <==> keys.contains(key),
    decreases keys.len(),
{
    if keys.len() > 0 {
        let first = visit::<P>(news, keys[0]);
        let rest = visits::<P>(news, keys.drop_first());
        let all = visits::<P>(news, keys);
        lemma_told::<P>(news, keys.drop_first(), key);
        if keys.contains(key) {
            if keys[0] == key {
                assert(all[0] == start::<P>(key));
            } else {
                let i = choose|i: int| 0 <= i < keys.len() && keys[i] == key;
                assert(keys.drop_first()[i - 1] == key);
                let j = choose|j: int| 0 <= j < rest.len() && rest[j] == start::<P>(key);
                assert(all[first.len() + j] == start::<P>(key));
            }
        }
        if all.contains(start(key)) {
            let j = choose|j: int| 0 <= j < all.len() && all[j] == start::<P>(key);
            if j < first.len() {
                assert(first[j] == start::<P>(key));
                assert(keys[0] == key);
            } else {
                assert(rest[j - first.len()] == start::<P>(key));
                let i = choose|i: int|
                    0 <= i < keys.drop_first().len() && keys.drop_first()[i] == key;
                assert(keys[i + 1] == key);
            }
        }
    }
}

/// A stream is among those past the last one exactly if it is past it.
proof fn lemma_past(last: Option<StreamId>, s: StreamsView, keys: Seq<Key>, key: Key)
    ensures
        past(last, s, keys).contains(key) <==> keys.contains(key) && is_past(last, s, key),
    decreases keys.len(),
{
    if keys.len() > 0 {
        let rest = past(last, s, keys.drop_first());
        let all = past(last, s, keys);
        lemma_past(last, s, keys.drop_first(), key);
        if keys.contains(key) && is_past(last, s, key) {
            if keys[0] == key {
                assert(all[0] == key);
            } else {
                let i = choose|i: int| 0 <= i < keys.len() && keys[i] == key;
                assert(keys.drop_first()[i - 1] == key);
                let j = choose|j: int| 0 <= j < rest.len() && rest[j] == key;
                assert(all[all.len() - rest.len() + j] == key);
            }
        }
        if all.contains(key) {
            let j = choose|j: int| 0 <= j < all.len() && all[j] == key;
            if all.len() > rest.len() && j == 0 {
                assert(keys[0] == key);
            } else {
                assert(rest[j - (all.len() - rest.len())] == key);
                let i = choose|i: int|
                    0 <= i < keys.drop_first().len() && keys.drop_first()[i] == key;
                assert(keys[i + 1] == key);
            }
        }
    }
}

/// Without a last stream, every linked stream is told.
proof fn lemma_all_past(s: StreamsView, keys: Seq<Key>)
    requires
        forall|i: int| 0 <= i < keys.len() ==> linked(s).contains(#[trigger] keys[i]),
    ensures
        past(None, s, keys) == keys,
    decreases keys.len(),
{
    if keys.len() > 0 {
        assert(linked(s).contains(keys[0]));
        lemma_all_past(s, keys.drop_first());
        assert(seq![keys[0]] + keys.drop_first() =~= keys);
    }
}

/// How the streams are left at the end of an operation: as its last turn says, or as its start
/// says, if it took none.
pub open spec fn left<P>(t: StreamsView, turns: Seq<Turn<P>>) -> StreamsView {
    if turns.len() == 0 {
        t
    } else {
        turns.last().after
    }
}

/// Streams that are not told make no difference.
proof fn lemma_passed(cause: Cause, s: StreamsView, keys: Seq<Key>, n: int)
    requires
        0 <= n <= keys.len(),
        forall|i: int| 0 <= i < n ==> !cause.concerns(s, #[trigger] keys[i]),
    ensures
        concerned(cause, s, keys) == concerned(cause, s, keys.skip(n)),
    decreases n,
{
    if n == 0 {
        assert(keys.skip(0) =~= keys);
    } else {
        assert(!cause.concerns(s, keys[0]));
        lemma_passed(cause, s, keys.drop_first(), n - 1);
        assert(keys.drop_first().skip(n - 1) =~= keys.skip(n));
    }
}

/// The turns in which one stream is told, and the step after them.
proof fn lemma_visit<P>(
    sweep: Sweep,
    key: Key,
    turns: Seq<Turn<P>>,
    outcome: Outcome,
)
    requires
        runs(
            Step::start(key, Pending::Sweep(SweepPending::Start { sweep, key })),
            turns,
            outcome,
        ),
    ensures
        ({
            let n = visit::<P>(news(sweep.cause), key).len() as int;
            let last = turns[n - 1];
            &&& n <= turns.len()
            &&& calls(turns.take(n)) == visit::<P>(news(sweep.cause), key)
            &&& forall|i: int| 0 <= i < n - 1 ==> (#[trigger] turns[i]).after == turns[i].before
            &&& sweep.advances(last.before, last.after, last.next)
        }),
{
    let first = Step::start(key, Pending::Sweep(SweepPending::Start { sweep, key }));
    let n = visit::<P>(news(sweep.cause), key).len() as int;
    lemma_turn(first, turns, outcome, 0);
    lemma_turn(first, turns, outcome, 1);
    lemma_turn(first, turns, outcome, 2);
    if !(sweep.cause is Eof) {
        lemma_turn(first, turns, outcome, 3);
    }
    assert(calls(turns.take(n)) =~= visit::<P>(news(sweep.cause), key));
}

/// The first stream that is told comes first, and the streams after it follow.
proof fn lemma_first_concerned(cause: Cause, s: StreamsView, keys: Seq<Key>, n: int)
    requires
        0 <= n < keys.len(),
        forall|i: int| 0 <= i < n ==> !cause.concerns(s, #[trigger] keys[i]),
        cause.concerns(s, keys[n]),
    ensures
        concerned(cause, s, keys) == seq![keys[n]] + concerned(cause, s, keys.skip(n + 1)),
{
    lemma_passed(cause, s, keys, n);
    assert(keys.skip(n).drop_first() =~= keys.skip(n + 1));
}

/// Telling one stream more.
proof fn lemma_visits<P>(cause: Cause, key: Key, keys: Seq<Key>)
    ensures
        visits::<P>(news(cause), seq![key] + keys) == visit::<P>(news(cause), key) + visits::<P>(news(cause), keys),
{
    assert((seq![key] + keys).drop_first() =~= keys);
}

/// The part of [`undisturbed`] that concerns some streams.
spec fn steady<P>(cause: Cause, s: StreamsView, keys: Seq<Key>, turns: Seq<Turn<P>>) -> bool {
    forall|j: int, key: Key|
        #![trigger cause.concerns(turns[j].before, key)]
        0 <= j < turns.len() && keys.contains(key) && !calls(turns.take(j + 1)).contains(start(key))
            ==> (cause.concerns(turns[j].before, key) <==> cause.concerns(s, key))
}

/// Whether it has not changed for some streams whether they are to be told.
spec fn agree(cause: Cause, s: StreamsView, u: StreamsView, keys: Seq<Key>) -> bool {
    forall|key: Key|
        #![trigger cause.concerns(u, key)]
        #![trigger cause.concerns(s, key)]
        keys.contains(key) ==> (cause.concerns(u, key) <==> cause.concerns(s, key))
}

/// A stream that is not the one that was told was not told.
proof fn lemma_not_told<P>(cause: Cause, key: Key, other: Key)
    requires
        key != other,
    ensures
        !visit::<P>(news(cause), key).contains(start(other)),
{
}

/// After a stream was told, the rest goes on for the streams behind it.
proof fn lemma_steady<P>(
    cause: Cause,
    s: StreamsView,
    keys: Seq<Key>,
    turns: Seq<Turn<P>>,
    m: int,
    n: int,
)
    requires
        keys.no_duplicates(),
        0 <= m < keys.len(),
        0 < n <= turns.len(),
        calls(turns.take(n)) == visit::<P>(news(cause), keys[m]),
        steady(cause, s, keys, turns),
    ensures
        steady(cause, s, keys.skip(m + 1), turns.skip(n)),
        agree(cause, s, turns[n - 1].before, keys.skip(m + 1)),
{
    let ahead = keys.skip(m + 1);
    let rest = turns.skip(n);
    let told = turns.take(n);
    assert forall|key: Key| ahead.contains(key) implies keys.contains(key) && key != keys[m] by {
        let i = choose|i: int| 0 <= i < ahead.len() && ahead[i] == key;
        assert(keys[m + 1 + i] == key);
    }
    assert forall|key: Key| ahead.contains(key) implies (#[trigger] cause.concerns(
        turns[n - 1].before,
        key,
    ) <==> cause.concerns(s, key)) by {
        lemma_not_told::<P>(cause, keys[m], key);
        assert(turns.take(n - 1 + 1) =~= told);
    }
    assert forall|j: int, key: Key|
        #![trigger cause.concerns(rest[j].before, key)]
        0 <= j < rest.len() && ahead.contains(key) && !calls(rest.take(j + 1)).contains(
            start(key),
        ) implies (cause.concerns(rest[j].before, key) <==> cause.concerns(s, key)) by {
        lemma_not_told::<P>(cause, keys[m], key);
        let all = calls(turns.take(n + j + 1));
        assert(all =~= calls(told) + calls(rest.take(j + 1)));
        assert(!all.contains(start(key))) by {
            if all.contains(start(key)) {
                let k = choose|k: int| 0 <= k < all.len() && all[k] == start::<P>(key);
                if k < n {
                    assert(calls(told)[k] == start::<P>(key));
                } else {
                    assert(calls(rest.take(j + 1))[k - n] == start::<P>(key));
                }
            }
        }
        assert(rest[j] == turns[n + j]);
        assert(turns.take(n + j + 1) == turns.take((n + j) + 1));
    }
}

/// What is left of a visit to all streams.
proof fn lemma_sweep<P>(
    sweep: Sweep,
    s: StreamsView,
    u: StreamsView,
    t: StreamsView,
    step: Step<P>,
    turns: Seq<Turn<P>>,
    outcome: Outcome,
)
    requires
        sweep.passed <= sweep.keys@.len(),
        sweep.keys@.no_duplicates(),
        sweep.advances(u, t, step),
        runs(step, turns, outcome),
        agree(sweep.cause, s, u, sweep.ahead()),
        steady(sweep.cause, s, sweep.ahead(), turns),
    ensures
        calls(turns) == visits::<P>(news(sweep.cause), concerned(sweep.cause, s, sweep.ahead())),
        outcome == sweep.cause.outcome(),
        keeps_only(u, t, turns, kept(sweep.cause)),
    decreases turns.len(),
{
    let cause = sweep.cause;
    let keys = sweep.ahead();
    if sweep.is_over(u) && t == cause.settled(u) && step == Step::<P>::Done(cause.outcome()) {
        lemma_turn(step, turns, outcome, 0);
        assert forall|i: int| 0 <= i < keys.len() implies !cause.concerns(s, #[trigger] keys[i]) by {
            assert(keys[i] == sweep.keys@[sweep.passed + i]);
            assert(keys.contains(keys[i]));
        }
        lemma_passed(cause, s, keys, keys.len() as int);
        assert(calls(turns) =~= Seq::<Call<P>>::empty());
    } else {
        let i = choose|i: int|
            {
                let key = sweep.keys@[i];
                let next = Sweep { passed: (i + 1) as usize, ..sweep };
                &&& #[trigger] sweep.stops_at(u, i)
                &&& t == u
                &&& step == Step::<P>::start(
                    key,
                    Pending::Sweep(SweepPending::Start { sweep: next, key }),
                )
            };
        let m = i - sweep.passed;
        let next = Sweep { passed: (i + 1) as usize, ..sweep };
        let key = sweep.keys@[i];
        assert(sweep.keys.len() <= usize::MAX);
        assert(keys[m] == key);
        assert(next.ahead() =~= keys.skip(m + 1));
        assert forall|j: int| 0 <= j < m implies !cause.concerns(s, #[trigger] keys[j]) by {
            assert(keys[j] == sweep.keys@[sweep.passed + j]);
            assert(keys.contains(keys[j]));
        }
        assert(keys.contains(key));
        lemma_tell(next, key, s, keys, m, turns, outcome, step);
        let n = visit::<P>(news(cause), key).len() as int;
        let last = turns[n - 1];
        lemma_sweep(next, s, last.before, last.after, last.next, turns.skip(n), outcome);
        lemma_first_concerned(cause, s, keys, m);
        lemma_visits::<P>(cause, key, concerned(cause, s, next.ahead()));
        assert(calls(turns) =~= calls(turns.take(n)) + calls(turns.skip(n)));
        let rest = turns.skip(n);
        assert forall|j: int| 0 <= j < turns.len() - 1 implies (#[trigger] turns[j]).after
            == turns[j].before by {
            if j >= n {
                assert(rest[j - n] == turns[j]);
            }
        }
        if rest.len() > 0 {
            assert(rest[rest.len() - 1] == turns[turns.len() - 1]);
        }
    }
}

/// The visit to one stream, as the start of what is left of a visit to all.
proof fn lemma_tell<P>(
    next: Sweep,
    key: Key,
    s: StreamsView,
    keys: Seq<Key>,
    m: int,
    turns: Seq<Turn<P>>,
    outcome: Outcome,
    step: Step<P>,
)
    requires
        step == Step::<P>::start(key, Pending::Sweep(SweepPending::Start { sweep: next, key })),
        runs(step, turns, outcome),
        keys.no_duplicates(),
        0 <= m < keys.len(),
        keys[m] == key,
        steady(next.cause, s, keys, turns),
    ensures
        ({
            let n = visit::<P>(news(next.cause), key).len() as int;
            let last = turns[n - 1];
            let ahead = keys.skip(m + 1);
            &&& 0 < n <= turns.len()
            &&& calls(turns.take(n)) == visit::<P>(news(next.cause), key)
            &&& forall|i: int| 0 <= i < n - 1 ==> (#[trigger] turns[i]).after == turns[i].before
            &&& next.advances(last.before, last.after, last.next)
            &&& runs(last.next, turns.skip(n), outcome)
            &&& steady(next.cause, s, ahead, turns.skip(n))
            &&& agree(next.cause, s, last.before, ahead)
        }),
{
    let n = visit::<P>(news(next.cause), key).len() as int;
    lemma_visit(next, key, turns, outcome);
    lemma_rest(step, turns, outcome, n);
    lemma_steady(next.cause, s, keys, turns, m, n);
}

/// The streams that are linked are different ones.
proof fn lemma_linked_keys(s: StreamsView)
    requires
        s.store.wf(),
    ensures
        s.store.linked_keys().no_duplicates(),
{
    let keys = s.store.linked_keys();
    assert forall|i: int, j: int| 0 <= i < j < keys.len() implies keys[i] != keys[j] by {
        assert(s.store.links[i].key != s.store.links[j].key);
    }
}

/// A visit to all streams, from its start.
proof fn lemma_whole_sweep<P>(
    sweep: Sweep,
    s: StreamsView,
    t: StreamsView,
    step: Step<P>,
    turns: Seq<Turn<P>>,
    outcome: Outcome,
)
    requires
        s.store.wf(),
        sweep.keys@ == s.store.linked_keys(),
        sweep.passed == 0,
        sweep.advances(s, t, step),
        runs(step, turns, outcome),
        undisturbed(last_of(sweep.cause), s, turns),
    ensures
        calls(turns) == visits::<P>(
            news(sweep.cause),
            past(last_of(sweep.cause), s, linked(s)),
        ),
        outcome == sweep.cause.outcome(),
        keeps_only(s, t, turns, kept(sweep.cause)),
{
    let cause = sweep.cause;
    lemma_linked_keys(s);
    assert(s.store.linked_keys() =~= linked(s));
    assert(sweep.ahead() =~= s.store.linked_keys());
    assert forall|j: int, key: Key|
        #![trigger cause.concerns(turns[j].before, key)]
        0 <= j < turns.len() && sweep.ahead().contains(key) && !calls(turns.take(j + 1)).contains(
            start(key),
        ) implies (cause.concerns(turns[j].before, key) <==> cause.concerns(s, key)) by {
        lemma_stops(cause, turns[j].before, key);
        lemma_stops(cause, s, key);
    }
    lemma_sweep(sweep, s, s, t, step, turns, outcome);
    lemma_concerned(cause, s, linked(s));
}

/// When the remote goes away, for whatever reason, exactly the streams whose identifier is greater
/// than the last one that it names are told the reason, each once, in order. Then the reason is the
/// error of the connection, and nothing else has changed.
pub proof fn law_recv_goaway<P>(
    s: StreamsView,
    frame: GoAway,
    t: StreamsView,
    step: Step<P>,
    turns: Seq<Turn<P>>,
    outcome: Outcome,
)
    requires
        s.store.wf(),
        s.recv_goaway(frame, t, step),
        runs(step, turns, outcome),
        undisturbed(Some(frame.last_stream_id), s, turns),
    ensures
        calls(turns) == visits::<P>(
            News::Failed(Failure::Proto(frame.reason)),
            past(Some(frame.last_stream_id), s, linked(s)),
        ),
        forall|i: int|
            0 <= i < s.store.links.len() ==> {
                let key = (#[trigger] s.store.links[i]).key;
                calls(turns).contains(Call::Counts(CountsCall::TransitionStart { key }))
                    <==> s.store.streams[key].id.value > frame.last_stream_id.value
            },
        outcome == Outcome::Unit,
        keeps_only(s, t, turns, Some(Error::Proto(frame.reason))),
        left(t, turns).conn_error == Some(Error::Proto(frame.reason)),
{
    let last = Some(frame.last_stream_id);
    let told = News::Failed(Failure::Proto(frame.reason));
    let sweep = choose|sweep: Sweep|
        {
            &&& sweep.cause == (Cause::GoAway { frame })
            &&& sweep.keys@ == s.store.linked_keys()
            &&& sweep.passed == 0
            &&& #[trigger] sweep.advances(s, t, step)
        };
    lemma_whole_sweep(sweep, s, t, step, turns, outcome);
    assert forall|i: int| 0 <= i < s.store.links.len() implies ({
        let key = (#[trigger] s.store.links[i]).key;
        calls(turns).contains(Call::Counts(CountsCall::TransitionStart { key }))
            <==> s.store.streams[key].id.value > frame.last_stream_id.value
    }) by {
        let key = s.store.links[i].key;
        assert(linked(s)[i] == key);
        lemma_told::<P>(told, past(last, s, linked(s)), key);
        lemma_past(last, s, linked(s), key);
    }
}

/// When nothing more can be read, the connection has an error at once, the one that it had or that
/// of a broken pipe, and nothing else changes. Every linked stream is told, each once, in order.
pub proof fn law_recv_eof<P>(
    s: StreamsView,
    t: StreamsView,
    step: Step<P>,
    turns: Seq<Turn<P>>,
    outcome: Outcome,
)
    requires
        s.store.wf(),
        s.recv_eof(t, step),
        runs(step, turns, outcome),
        undisturbed(None, s, turns),
    ensures
        calls(turns) == visits::<P>(News::Ended, linked(s)),
        outcome == Outcome::Unit,
        t == (StreamsView {
            conn_error: if s.conn_error is Some {
                s.conn_error
            } else {
                Some(Error::Io(ErrorKind::BrokenPipe))
            },
            ..s
        }),
        leaves_alone(turns),
{
    let u = s.ended();
    let sweep = choose|sweep: Sweep|
        {
            &&& sweep.cause == Cause::Eof
            &&& sweep.keys@ == s.store.linked_keys()
            &&& sweep.passed == 0
            &&& #[trigger] sweep.advances(u, t, step)
        };
    assert(linked(u) == linked(s));
    assert forall|key: Key| #[trigger] is_past(None, u, key) == is_past(None, s, key) by {}
    lemma_whole_sweep(sweep, u, t, step, turns, outcome);
    lemma_all_past(u, linked(u));
}

/// When the connection fails, the last stream that was processed is noted, and is the result. Every
/// linked stream is told the error as it came, each once, in order. Then the reason or the kind of it
/// is the error of the connection, and nothing else has changed.
pub proof fn law_recv_err<P>(
    s: StreamsView,
    err: Failure,
    turns: Seq<Turn<P>>,
    outcome: Outcome,
)
    requires
        runs(s.recv_err(err), turns, outcome),
        turns[0].before.store.wf(),
        undisturbed(None, turns[0].before, turns.skip(1)),
    ensures
        ({
            let kept = match err {
                Failure::Proto(reason) => Error::Proto(reason),
                Failure::Io { kind, .. } => Error::Io(kind),
            };
            &&& calls(turns) == seq![Call::<P>::Recv(RecvCall::LastProcessedId)] + visits::<P>(
                News::Failed(err),
                linked(turns[0].before),
            )
            &&& outcome == Outcome::Id(turns[0].reply->Id_0)
            &&& keeps_only(turns[0].before, turns[0].after, turns.skip(1), Some(kept))
            &&& turns.last().after.conn_error == Some(kept)
        }),
{
    let first = s.recv_err::<P>(err);
    lemma_turn(first, turns, outcome, 0);
    lemma_rest(first, turns, outcome, 1);
    let u = turns[0].before;
    let t = turns[0].after;
    let cause = Cause::Failure { err, last_id: turns[0].reply->Id_0 };
    let rest = turns.skip(1);
    let sweep = choose|sweep: Sweep|
        {
            &&& sweep.cause == cause
            &&& sweep.keys@ == u.store.linked_keys()
            &&& sweep.passed == 0
            &&& #[trigger] sweep.advances(u, t, turns[0].next)
        };
    lemma_whole_sweep(sweep, u, t, turns[0].next, rest, outcome);
    lemma_all_past(u, linked(u));
    assert(calls(turns) =~= calls(turns.take(1)) + calls(rest));
    assert(calls(turns.take(1)) =~= seq![Call::<P>::Recv(RecvCall::LastProcessedId)]);
}

/// Whether a visit for `cause` is where it should be, after it left the streams as `u` says.
spec fn on_course<P>(cause: Cause, step: Step<P>, u: StreamsView) -> bool {
    match step {
        Step::Done(_) => true,
        Step::Call { call, pending: Pending::Sweep(SweepPending::Start { sweep, key }) } => {
            &&& sweep.cause == cause
            &&& call == start::<P>(key)
            &&& is_past(last_of(cause), u, key)
        },
        Step::Call { call, pending: Pending::Sweep(SweepPending::Recv { sweep, key }) } => {
            &&& sweep.cause == cause
            &&& call == visit::<P>(news(cause), key)[1]
        },
        Step::Call { call, pending: Pending::Sweep(SweepPending::Send { sweep, key }) } => {
            &&& sweep.cause == cause
            &&& !(cause is Eof)
            &&& call == Call::<P>::Send(SendCall::RecvErr { key })
        },
        Step::Call { call, pending: Pending::Sweep(SweepPending::End { sweep }) } => {
            &&& sweep.cause == cause
            &&& call matches Call::Counts(CountsCall::TransitionEnd { .. })
        },
        _ => false,
    }
}

/// A visit that goes on to the next stream is where it should be.
proof fn lemma_advance_on_course<P>(sweep: Sweep, s: StreamsView, t: StreamsView, step: Step<P>)
    requires
        sweep.advances(s, t, step),
    ensures
        on_course(sweep.cause, step, t),
{
    if let Step::Call { pending: Pending::Sweep(SweepPending::Start { key, .. }), .. } = step {
        lemma_stops(sweep.cause, t, key);
    }
}

/// A visit stays on its course.
proof fn lemma_on_course<P>(
    cause: Cause,
    first: Step<P>,
    t: StreamsView,
    turns: Seq<Turn<P>>,
    n: int,
)
    requires
        on_course(cause, first, t),
        takes(first, turns),
        0 <= n <= turns.len(),
    ensures
        on_course(cause, reached(first, turns, n), if n == 0 { t } else { turns[n - 1].after }),
    decreases n,
{
    if n > 0 {
        lemma_on_course(cause, first, t, turns, n - 1);
        let turn = turns[n - 1];
        assert(turn.follows(reached(first, turns, n - 1)));
        if let Step::Call { pending: Pending::Sweep(SweepPending::End { sweep }), .. } = reached(
            first,
            turns,
            n - 1,
        ) {
            lemma_advance_on_course(sweep, turn.before, turn.after, turn.next);
        }
    }
}

/// Whether a call is one of a visit that tells `news` to a stream past the last one, when the streams
/// were left as `u` says before it.
pub open spec fn tells<P>(news: News, last: Option<StreamId>, u: StreamsView, call: Call<P>) -> bool {
    match call {
        Call::Counts(CountsCall::TransitionStart { key }) => is_past(last, u, key),
        Call::Counts(CountsCall::TransitionEnd { .. }) => true,
        Call::Recv(RecvCall::RecvErr { err, .. }) => news == News::Failed(err),
        Call::Recv(RecvCall::Eof { .. }) => news is Ended,
        Call::Send(SendCall::RecvErr { .. }) => news is Failed,
        _ => false,
    }
}

/// Whatever happens to the streams meanwhile, the end of the connection makes no call but those that
/// tell of it, and these tell what came: the error that was given, the reason of the frame, or the
/// mere end. A visit starts only for a stream that is linked then, and past the last one.
pub proof fn law_told_as_it_came<P>(
    operation: Operation<P>,
    s: StreamsView,
    t: StreamsView,
    first: Step<P>,
    turns: Seq<Turn<P>>,
    i: int,
)
    requires
        operation.starts(s, t, first),
        takes(first, turns),
        0 <= i < turns.len(),
    ensures
        ({
            let u = if i == 0 {
                t
            } else {
                turns[i - 1].after
            };
            match operation {
                Operation::RecvErr { err } => if i == 0 {
                    turns[i].call == Call::<P>::Recv(RecvCall::LastProcessedId)
                } else {
                    tells(News::Failed(err), None, u, turns[i].call)
                },
                Operation::RecvGoaway { frame } => tells(
                    News::Failed(Failure::Proto(frame.reason)),
                    Some(frame.last_stream_id),
                    u,
                    turns[i].call,
                ),
                Operation::RecvEof => tells(News::Ended, None, u, turns[i].call),
                _ => true,
            }
        }),
{
    assert(turns[i].follows(reached(first, turns, i)));
    match operation {
        Operation::RecvErr { err } => {
            assert(turns[0].follows(reached(first, turns, 0)));
            let turn = turns[0];
            let cause = Cause::Failure { err, last_id: turn.reply->Id_0 };
            let rest = turns.skip(1);
            if i > 0 {
                let sweep = choose|sweep: Sweep|
                    {
                        &&& sweep.cause == cause
                        &&& #[trigger] sweep.advances(turn.before, turn.after, turn.next)
                    };
                lemma_advance_on_course(sweep, turn.before, turn.after, turn.next);
                assert forall|j: int| 0 <= j < rest.len() implies #[trigger] rest[j].follows(
                    reached(turn.next, rest, j),
                ) by {
                    assert(turns[j + 1].follows(reached(first, turns, j + 1)));
                }
                lemma_on_course(cause, turn.next, turn.after, rest, i - 1);
            }
        },
        Operation::RecvGoaway { frame } => {
            let cause = Cause::GoAway { frame };
            let sweep = choose|sweep: Sweep|
                sweep.cause == cause && #[trigger] sweep.advances(s, t, first);
            lemma_advance_on_course(sweep, s, t, first);
            lemma_on_course(cause, first, t, turns, i);
        },
        Operation::RecvEof => {
            let sweep = choose|sweep: Sweep|
                sweep.cause == Cause::Eof && #[trigger] sweep.advances(s.ended(), t, first);
            lemma_advance_on_course(sweep, s.ended(), t, first);
            lemma_on_course(Cause::Eof, first, t, turns, i);
        },
        _ => {},
    }
}

} // verus!
