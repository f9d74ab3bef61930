//! The end of the connection, which concerns every stream.
use crate::call::{Call, CountsCall, RecvCall, Reply, SendCall};
use crate::error::{Error, ErrorKind, Failure};
use crate::frame::{GoAway, StreamId};
use crate::step::{Outcome, Pending, Step};
use crate::store::Key;
use crate::streams::{Streams, StreamsView};
use vstd::prelude::*;

verus! {

/// Why all streams are visited.
#[derive(Debug)]
pub enum Cause {
    /// The connection failed. `last_id` was the last stream of the remote that was processed.
    Failure { err: Failure, last_id: StreamId },
    /// The remote goes away, and processes no stream past the last one that it names.
    GoAway { frame: GoAway },
    /// Nothing more can be read.
    Eof,
}

impl Cause {
    /// The error that the streams are told, unless the connection just ended.
    pub open spec fn error(self) -> Option<Failure> {
        match self {
            Cause::Failure { err, .. } => Some(err),
            Cause::GoAway { frame } => Some(Failure::Proto(frame.reason)),
            Cause::Eof => None,
        }
    }

    /// Whether the stream under `key` is told: it is still linked, and, if the remote goes away,
    /// past the last stream that the remote names.
    pub open spec fn concerns(self, s: StreamsView, key: Key) -> bool {
        &&& s.store.linked_keys().contains(key)
        &&& self matches Cause::GoAway { frame } ==> s.store.streams[key].id.value
            > frame.last_stream_id.value
    }

    /// The streams once all of them have been told: a shallow copy of the error is kept.
    pub open spec fn settled(self, s: StreamsView) -> StreamsView {
        match self.error() {
            Some(err) => StreamsView { conn_error: Some(err.shallow()), ..s },
            None => s,
        }
    }

    /// What the operation comes to.
    pub open spec fn outcome(self) -> Outcome {
        match self {
            Cause::Failure { last_id, .. } => Outcome::Id(last_id),
            _ => Outcome::Unit,
        }
    }

    /// What the receiving half is told of the stream under `key`.
    pub open spec fn call<P>(self, key: Key) -> Call<P> {
        match self.error() {
            Some(err) => Call::Recv(RecvCall::RecvErr { key, err }),
            None => Call::Recv(RecvCall::Eof { key }),
        }
    }
}

/// A visit to all streams, and where it has come to.
#[derive(Debug)]
pub struct Sweep {
    pub cause: Cause,
    /// The streams to visit.
    pub keys: Vec<Key>,
    /// How many of them have been passed.
    pub passed: usize,
}

impl Sweep {
    /// The streams that have not been passed.
    pub open spec fn ahead(self) -> Seq<Key> {
        self.keys@.skip(self.passed as int)
    }

    /// Whether the `i`th stream is the next to be told.
    pub open spec fn stops_at(self, s: StreamsView, i: int) -> bool {
        &&& self.passed <= i < self.keys@.len()
        &&& self.cause.concerns(s, self.keys@[i])
        &&& forall|j: int|
            self.passed <= j < i ==> !self.cause.concerns(s, #[trigger] self.keys@[j])
    }

    /// Whether no stream is left to be told.
    pub open spec fn is_over(self, s: StreamsView) -> bool {
        forall|j: int|
            self.passed <= j < self.keys@.len() ==> !self.cause.concerns(
                s,
                #[trigger] self.keys@[j],
            )
    }

    /// Whether the visit goes on as `step` says, when the streams are as `s` says before and as
    /// `t` says afterwards: to the next stream that is told, or to its end.
    pub open spec fn advances<P>(self, s: StreamsView, t: StreamsView, step: Step<P>) -> bool {
        ||| self.is_over(s) && t == self.cause.settled(s) && step == Step::<P>::Done(
            self.cause.outcome(),
        )
        ||| exists|i: int|
            {
                let key = self.keys@[i];
                let sweep = Sweep { passed: (i + 1) as usize, ..self };
                &&& #[trigger] self.stops_at(s, i)
                &&& t == s
                &&& step == Step::<P>::start(key, Pending::Sweep(SweepPending::Start { sweep, key }))
            }
    }
}

/// What a visit to all streams waits for.
#[allow(inconsistent_fields)]
#[derive(Debug)]
pub enum SweepPending {
    /// The last stream of the remote that was processed.
    LastProcessedId { err: Failure },
    /// The start of the transition of a stream.
    Start { sweep: Sweep, key: Key },
    /// The receiving half.
    Recv { sweep: Sweep, key: Key },
    /// The sending half.
    Send { sweep: Sweep, key: Key },
    /// The end of the transition of a stream.
    End { sweep: Sweep },
}

impl SweepPending {
    /// Whether an operation that waits with `self` can go on with `reply`.
    pub open spec fn awaits<P>(self, reply: Reply<P>) -> bool {
        if self is LastProcessedId {
            reply is Id
        } else {
            reply is Done
        }
    }

    /// Whether the operation goes on with `reply` as `step` says, when the streams are as `s` says
    /// before and as `t` says afterwards. Each stream is told in a transition of its own: first
    /// the receiving half, then, if there is an error to tell, the sending half.
    pub open spec fn resumes<P>(
        self,
        s: StreamsView,
        reply: Reply<P>,
        t: StreamsView,
        step: Step<P>,
    ) -> bool {
        match self {
            SweepPending::LastProcessedId { err } => {
                exists|sweep: Sweep|
                    {
                        &&& sweep.cause == (Cause::Failure { err, last_id: reply->Id_0 })
                        &&& sweep.keys@ == s.store.linked_keys()
                        &&& sweep.passed == 0
                        &&& #[trigger] sweep.advances(s, t, step)
                    }
            },
            SweepPending::Start { sweep, key } => {
                &&& t == s
                &&& step == Step::<P>::Call {
                    call: sweep.cause.call::<P>(key),
                    pending: Pending::Sweep(SweepPending::Recv { sweep, key }),
                }
            },
            SweepPending::Recv { sweep, key } => {
                &&& t == s
                &&& step == if sweep.cause.error() is Some {
                    Step::<P>::Call {
                        call: Call::Send(SendCall::RecvErr { key }),
                        pending: Pending::Sweep(SweepPending::Send { sweep, key }),
                    }
                } else {
                    Step::end(key, Pending::Sweep(SweepPending::End { sweep }))
                }
            },
            SweepPending::Send { sweep, key } => {
                &&& t == s
                &&& step == Step::<P>::end(key, Pending::Sweep(SweepPending::End { sweep }))
            },
            SweepPending::End { sweep } => sweep.advances(s, t, step),
        }
    }
}

impl StreamsView {
    /// See [`Streams::recv_err`].
    pub open spec fn recv_err<P>(self, err: Failure) -> Step<P> {
        Step::Call {
            call: Call::Recv(RecvCall::LastProcessedId),
            pending: Pending::Sweep(SweepPending::LastProcessedId { err }),
        }
    }

    /// See [`Streams::recv_goaway`].
    pub open spec fn recv_goaway<P>(self, frame: GoAway, t: StreamsView, step: Step<P>) -> bool {
        exists|sweep: Sweep|
            {
                &&& sweep.cause == (Cause::GoAway { frame })
                &&& sweep.keys@ == self.store.linked_keys()
                &&& sweep.passed == 0
                &&& #[trigger] sweep.advances(self, t, step)
            }
    }

    /// The same, with an error of the connection, if there was none.
    pub open spec fn ended(self) -> StreamsView {
        if self.conn_error is None {
            StreamsView { conn_error: Some(Error::Io(ErrorKind::BrokenPipe)), ..self }
        } else {
            self
        }
    }

    /// See [`Streams::recv_eof`].
    pub open spec fn recv_eof<P>(self, t: StreamsView, step: Step<P>) -> bool {
        exists|sweep: Sweep|
            {
                &&& sweep.cause == Cause::Eof
                &&& sweep.keys@ == self.store.linked_keys()
                &&& sweep.passed == 0
                &&& #[trigger] sweep.advances(self.ended(), t, step)
            }
    }
}

impl Streams {
    /// The connection failed. Every stream is told the error as it came, then a shallow copy of it is
    /// kept for the handles. The outcome is the last stream that was processed before.
    pub fn recv_err<P>(&self, err: &Failure) -> (step: Step<P>)
        ensures
            step == self@.recv_err::<P>(*err),
    {
        Step::Call {
            call: Call::Recv(RecvCall::LastProcessedId),
            pending: Pending::Sweep(SweepPending::LastProcessedId { err: err.share() }),
        }
    }

    /// The remote goes away. Every stream past the last one that it names is told, then the reason
    /// is kept as the error of the connection.
    pub fn recv_goaway<P>(&mut self, frame: &GoAway) -> (step: Step<P>)
        requires
            old(self).wf(),
        ensures
            final(self).wf(),
            old(self)@.recv_goaway::<P>(*frame, final(self)@, step),
    {
        let sweep = Sweep {
            cause: Cause::GoAway { frame: *frame },
            keys: self.store.keys(),
            passed: 0,
        };
        self.advance(sweep)
    }

    /// Nothing more can be read. If the connection has not failed before, this is its failure.
    /// Every stream is told.
    pub fn recv_eof<P>(&mut self) -> (step: Step<P>)
        requires
            old(self).wf(),
        ensures
            final(self).wf(),
            old(self)@.recv_eof::<P>(final(self)@, step),
    {
        if self.actions.conn_error.is_none() {
            self.actions.conn_error = Some(Error::Io(ErrorKind::BrokenPipe));
        }
        let sweep = Sweep { cause: Cause::Eof, keys: self.store.keys(), passed: 0 };
        self.advance(sweep)
    }

    /// Goes on to the next stream that is told, or to the end.
    fn advance<P>(&mut self, sweep: Sweep) -> (step: Step<P>)
        requires
            old(self).wf(),
        ensures
            final(self).wf(),
            sweep.advances(old(self)@, final(self)@, step),
    {
        let mut i: usize = sweep.passed;
        while i < sweep.keys.len()
            invariant
                *self == *old(self),
                self.wf(),
                sweep.passed <= i,
                forall|j: int|
                    sweep.passed <= j < i ==> !sweep.cause.concerns(self@, #[trigger] sweep.keys@[j]),
            decreases sweep.keys.len() - i,
        {
            let key = sweep.keys[i];
            if self.is_concerned(&sweep.cause, key) {
                assert(sweep.stops_at(self@, i as int));
                let sweep = Sweep { cause: sweep.cause, keys: sweep.keys, passed: i + 1 };
                return Step::Call {
                    call: Call::Counts(CountsCall::TransitionStart { key }),
                    pending: Pending::Sweep(SweepPending::Start { sweep, key }),
                };
            }
            i += 1;
        }
        match sweep.cause {
            Cause::Failure { err, last_id } => {
                self.actions.conn_error = Some(err.shallow_clone());
                Step::Done(Outcome::Id(last_id))
            },
            Cause::GoAway { frame } => {
                self.actions.conn_error = Some(Error::Proto(frame.reason));
                Step::Done(Outcome::Unit)
            },
            Cause::Eof => Step::Done(Outcome::Unit),
        }
    }

    /// Whether the stream under `key` is told.
    fn is_concerned(&self, cause: &Cause, key: Key) -> (r: bool)
        requires
            self.wf(),
        ensures
            r == cause.concerns(self@, key),
    {
        if !self.store.is_linked(key) {
            return false;
        }
        match cause {
            Cause::GoAway { frame } => self.store.resolve(key).id.value
                > frame.last_stream_id.value,
            _ => true,
        }
    }

    /// Goes on with a visit to all streams.
    pub(super) fn resume_sweep<P>(&mut self, pending: SweepPending, reply: Reply<P>) -> (step: Step<
        P,
    >)
        requires
            old(self).wf(),
            pending.awaits(reply),
        ensures
            final(self).wf(),
            pending.resumes(old(self)@, reply, final(self)@, step),
    {
        match (pending, reply) {
            (SweepPending::LastProcessedId { err }, Reply::Id(last_id)) => {
                let sweep = Sweep {
                    cause: Cause::Failure { err, last_id },
                    keys: self.store.keys(),
                    passed: 0,
                };
                self.advance(sweep)
            },
            (SweepPending::Start { sweep, key }, _) => {
                let call = match &sweep.cause {
                    Cause::Failure { err, .. } => RecvCall::RecvErr { key, err: err.share() },
                    Cause::GoAway { frame } => RecvCall::RecvErr {
                        key,
                        err: Failure::Proto(frame.reason),
                    },
                    Cause::Eof => RecvCall::Eof { key },
                };
                Step::Call {
                    call: Call::Recv(call),
                    pending: Pending::Sweep(SweepPending::Recv { sweep, key }),
                }
            },
            (SweepPending::Recv { sweep, key }, _) => if let Cause::Eof = sweep.cause {
                Step::Call {
                    call: Call::Counts(CountsCall::TransitionEnd { key }),
                    pending: Pending::Sweep(SweepPending::End { sweep }),
                }
            } else {
                Step::Call {
                    call: Call::Send(SendCall::RecvErr { key }),
                    pending: Pending::Sweep(SweepPending::Send { sweep, key }),
                }
            },
            (SweepPending::Send { sweep, key }, _) => Step::Call {
                call: Call::Counts(CountsCall::TransitionEnd { key }),
                pending: Pending::Sweep(SweepPending::End { sweep }),
            },
            (SweepPending::End { sweep }, _) => self.advance(sweep),
            _ => vstd::pervasive::unreached(),
        }
    }
}

} // verus!
