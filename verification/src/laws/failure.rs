//! What is left of a connection that has failed.
use crate::error::{Error, ErrorKind, Failure, SendError};
use crate::frame::Request;
use crate::laws::operation::Operation;
use crate::laws::sweep::left;
use crate::laws::{lemma_rest, lemma_turn, reached, runs, Turn};
use crate::step::{Outcome, Pending, Step};
use crate::store::Key;
use crate::streams::sweep::{Cause, Sweep, SweepPending};
use crate::streams::StreamsView;
use vstd::prelude::*;

verus! {

/// The error that an operation leaves the connection with, if it ends the connection.
pub open spec fn failure<P>(operation: Operation<P>, s: StreamsView) -> Option<Error> {
    match operation {
        Operation::RecvErr { err: Failure::Proto(reason) } => Some(Error::Proto(reason)),
        Operation::RecvErr { err: Failure::Io { kind, .. } } => Some(Error::Io(kind)),
        Operation::RecvGoaway { frame } => Some(Error::Proto(frame.reason)),
        Operation::RecvEof => if s.conn_error is Some {
            s.conn_error
        } else {
            Some(Error::Io(ErrorKind::BrokenPipe))
        },
        _ => None,
    }
}

/// Whether the calls that were made left the error of the connection alone. This is so as long as
/// whoever makes a call starts no other operation meanwhile: the streams and the task that writes can
/// be reached otherwise, the error cannot.
pub open spec fn keeps_error<P>(t: StreamsView, turns: Seq<Turn<P>>) -> bool {
    forall|i: int|
        0 <= i < turns.len() ==> (#[trigger] turns[i]).before.conn_error == left(
            t,
            turns.take(i),
        ).conn_error
}

/// The visit that an operation is on, if it waits as part of one.
spec fn visiting<P>(step: Step<P>) -> Option<Sweep> {
    match step {
        Step::Call { pending: Pending::Sweep(SweepPending::Start { sweep, .. }), .. } => Some(sweep),
        Step::Call { pending: Pending::Sweep(SweepPending::Recv { sweep, .. }), .. } => Some(sweep),
        Step::Call { pending: Pending::Sweep(SweepPending::Send { sweep, .. }), .. } => Some(sweep),
        Step::Call { pending: Pending::Sweep(SweepPending::End { sweep }), .. } => Some(sweep),
        _ => None,
    }
}

/// Whether a visit for `cause` goes on, or has ended with the streams as `u` says.
spec fn is_due<P>(cause: Cause, conn_error: Option<Error>, step: Step<P>, u: StreamsView) -> bool {
    if step is Done {
        u.conn_error == match cause.error() {
            Some(err) => Some(err.shallow()),
            None => conn_error,
        }
    } else {
        &&& visiting(step) matches Some(sweep)
        &&& sweep.cause == cause
        &&& cause is Eof ==> u.conn_error == conn_error
    }
}

proof fn lemma_is_due<P>(
    cause: Cause,
    first: Step<P>,
    t: StreamsView,
    turns: Seq<Turn<P>>,
    outcome: Outcome,
    n: int,
)
    requires
        is_due(cause, t.conn_error, first, t),
        runs(first, turns, outcome),
        keeps_error(t, turns),
        0 <= n <= turns.len(),
    ensures
        is_due(cause, t.conn_error, reached(first, turns, n), left(t, turns.take(n))),
    decreases n,
{
    if n > 0 {
        lemma_is_due(cause, first, t, turns, outcome, n - 1);
        lemma_turn(first, turns, outcome, n - 1);
        assert(turns[n - 1].before.conn_error == left(t, turns.take(n - 1)).conn_error);
        assert(turns.take(n).last() == turns[n - 1]);
    }
}

/// Once an operation that ends the connection has come to its outcome, the connection has its error.
pub proof fn law_failure_is_kept<P>(
    operation: Operation<P>,
    s: StreamsView,
    t: StreamsView,
    first: Step<P>,
    turns: Seq<Turn<P>>,
    outcome: Outcome,
)
    requires
        operation is RecvErr || operation is RecvGoaway || operation is RecvEof,
        operation.starts(s, t, first),
        runs(first, turns, outcome),
        keeps_error(t, turns),
    ensures
        left(t, turns).conn_error == failure(operation, s),
{
    let n = turns.len() as int;
    assert(turns.take(n) =~= turns);
    match operation {
        Operation::RecvErr { err } => {
            let cause = Cause::Failure { err, last_id: turns[0].reply->Id_0 };
            let rest = turns.skip(1);
            let u = turns[0].after;
            lemma_turn(first, turns, outcome, 0);
            lemma_rest(first, turns, outcome, 1);
            assert forall|i: int| 0 <= i < rest.len() implies (#[trigger] rest[i]).before.conn_error
                == left(u, rest.take(i)).conn_error by {
                assert(rest[i] == turns[i + 1]);
                assert(turns[i + 1].before.conn_error == left(t, turns.take(i + 1)).conn_error);
            }
            lemma_is_due(cause, turns[0].next, u, rest, outcome, n - 1);
            assert(rest.take(n - 1) =~= rest);
        },
        Operation::RecvGoaway { frame } => {
            lemma_is_due(Cause::GoAway { frame }, first, t, turns, outcome, n);
        },
        _ => {
            lemma_is_due(Cause::Eof, first, t, turns, outcome, n);
        },
    }
}

/// A connection that has failed makes no request, and does not let anyone wait for one. Both are
/// refused with the error that it has failed with, and no call is made.
pub proof fn law_failed_refuses<P>(
    operation: Operation<P>,
    s: StreamsView,
    t: StreamsView,
    first: Step<P>,
    turns: Seq<Turn<P>>,
    outcome: Outcome,
    request: Request<P>,
    end_of_stream: bool,
    pending: Option<Key>,
)
    requires
        operation is RecvErr || operation is RecvGoaway || operation is RecvEof,
        operation.starts(s, t, first),
        runs(first, turns, outcome),
        keeps_error(t, turns),
    ensures
        ({
            let u = left(t, turns);
            let err = SendError::Connection(failure(operation, s)->0);
            &&& u.send_request(request, end_of_stream, pending) == Step::<P>::Done(
                Outcome::Requested(Err(err)),
            )
            &&& u.poll_pending_open::<P>(pending) == Step::<P>::Done(Outcome::Opened(Err(err)))
        }),
{
    law_failure_is_kept(operation, s, t, first, turns, outcome);
}

} // verus!
