//! The progress of an operation.
use crate::call::{Call, CountsCall, Polled, Reply};
use crate::error::{RecvError, SendError, UserError};
use crate::frame::StreamId;
use crate::store::Key;
use crate::streams::handle::StreamRef;
use crate::streams::poll::PollPending;
use crate::streams::recv::RecvPending;
use crate::streams::request::RequestPending;
use crate::streams::send::SendPending;
use crate::streams::sweep::SweepPending;
use crate::streams::StreamsView;
use vstd::prelude::*;

verus! {

/// Whether something has happened yet.
#[derive(Clone, Copy, Debug, PartialEq, Eq)]
pub enum Readiness {
    Ready,
    NotReady,
}

/// What an operation has come to.
#[derive(Debug)]
pub enum Outcome {
    /// The operation has no result.
    Unit,
    /// Of an operation that receives.
    Received(Result<(), RecvError>),
    /// The last stream that was processed.
    Id(StreamId),
    /// The next stream to accept.
    Incoming(Option<StreamRef>),
    /// The stream of a new request.
    Requested(Result<StreamRef, SendError>),
    /// Of an operation that sends.
    Sent(Result<(), UserError>),
    /// Whether a request can be made.
    Opened(Result<Readiness, SendError>),
    /// Of an operation that writes.
    Polled(Polled),
}

/// What an operation waits for a reply with.
#[derive(Debug)]
pub enum Pending<P> {
    Recv(RecvPending<P>),
    Sweep(SweepPending),
    Request(RequestPending<P>),
    Send(SendPending<P>),
    Poll(PollPending),
}

impl<P> Pending<P> {
    /// Whether the operation can go on with `reply`, when the streams are as `s` says.
    pub open spec fn awaits(self, s: StreamsView, reply: Reply<P>) -> bool {
        match self {
            Pending::Recv(pending) => pending.awaits(s, reply),
            Pending::Sweep(pending) => pending.awaits(reply),
            Pending::Request(pending) => pending.awaits(s, reply),
            Pending::Send(pending) => pending.awaits(s, reply),
            Pending::Poll(pending) => pending.awaits(s, reply),
        }
    }

    /// Whether the operation goes on with `reply` as `step` says, when the streams are as `s` says
    /// before and as `t` says afterwards.
    pub open spec fn resumes(
        self,
        s: StreamsView,
        reply: Reply<P>,
        t: StreamsView,
        step: Step<P>,
    ) -> bool {
        match self {
            Pending::Recv(pending) => pending.resumes(s, reply, t, step),
            Pending::Sweep(pending) => pending.resumes(s, reply, t, step),
            Pending::Request(pending) => pending.resumes(s, reply, t, step),
            Pending::Send(pending) => pending.resumes(s, reply, t, step),
            Pending::Poll(pending) => pending.resumes(s, reply, t, step),
        }
    }
}

/// How far an operation has come: to a call that it waits for, or to its outcome.
#[derive(Debug)]
pub enum Step<P> {
    Call { call: Call<P>, pending: Pending<P> },
    Done(Outcome),
}

impl<P> Step<P> {
    /// A transition of the stream starts.
    pub open spec fn start(key: Key, pending: Pending<P>) -> Step<P> {
        Step::Call { call: Call::Counts(CountsCall::TransitionStart { key }), pending }
    }

    /// A transition of the stream ends.
    pub open spec fn end(key: Key, pending: Pending<P>) -> Step<P> {
        Step::Call { call: Call::Counts(CountsCall::TransitionEnd { key }), pending }
    }
}

} // verus!
