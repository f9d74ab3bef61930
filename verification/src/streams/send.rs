//! What this end does to a stream that is there.
use crate::call::{Call, ConvertCall, CountsCall, RecvCall, Reply, SendCall, StateCall};
use crate::error::UserError;
use crate::frame::{Data, Reason, StreamId, Trailers};
use crate::step::{Outcome, Pending, Step};
use crate::store::{Key, Stream};
use crate::streams::{Streams, StreamsView};
use vstd::prelude::*;

verus! {

/// What an operation that sends on a stream, or lets go of one, waits for.
#[allow(inconsistent_fields)]
#[derive(Debug)]
pub enum SendPending<P> {
    /// Whether the remote may open the stream that is to be reset.
    ResetOpen { id: StreamId, reason: Reason },
    /// The start of the transition that a reset causes.
    ResetStart { key: Key, reason: Reason },
    /// The start of the transition that data cause.
    DataStart { key: Key, frame: Data<P> },
    /// The start of the transition that trailers cause.
    TrailersStart { key: Key, frame: Trailers<P> },
    /// The start of the transition that a response causes.
    ResponseStart { key: Key, stream_id: StreamId, response: P, end_of_stream: bool },
    /// The headers for the response.
    ResponseConverted { key: Key },
    /// The sending of a frame.
    Sent { key: Key },
    /// The end of the transition, and with it of the operation.
    End { result: Result<(), UserError> },
    /// The start of the transition that a handle causes when it goes.
    DropStart { key: Key },
    /// Whether nobody waits for the stream any more.
    DropState { key: Key },
    /// The reset of the stream, at once or later.
    Told { key: Key },
    /// The end of the transition, and with it of an operation without a result.
    Ended,
}

impl<P> SendPending<P> {
    /// Whether an operation that waits with `self` can go on with `reply`, when the streams are as
    /// `s` says: it is of the kind that was asked for, and a stream that was found missing is
    /// still missing when it is added.
    pub open spec fn awaits(self, s: StreamsView, reply: Reply<P>) -> bool {
        match self {
            SendPending::ResetOpen { id, .. } => {
                &&& reply is Opened
                &&& reply->Opened_0 matches Ok(Some(_)) ==> !s.store.is_linked(id)
            },
            SendPending::ResponseConverted { .. } => reply is Frame,
            SendPending::Sent { .. } => reply is Allowed,
            SendPending::DropState { .. } => reply is Flag,
            _ => reply is Done,
        }
    }

    /// How the operation goes on with `reply`, where the streams stay as they are.
    pub open spec fn next(self, reply: Reply<P>) -> Step<P> {
        match (self, reply) {
            (SendPending::ResetOpen { .. }, _) => Step::Done(Outcome::Unit),
            (SendPending::ResetStart { key, reason }, _) => Step::Call {
                call: Call::Send(SendCall::Reset { key, reason }),
                pending: Pending::Send(SendPending::Told { key }),
            },
            (SendPending::DataStart { key, frame }, _) => Step::Call {
                call: Call::Send(SendCall::Data { key, frame }),
                pending: Pending::Send(SendPending::Sent { key }),
            },
            (SendPending::TrailersStart { key, frame }, _) => Step::Call {
                call: Call::Send(SendCall::Trailers { key, frame }),
                pending: Pending::Send(SendPending::Sent { key }),
            },
            (SendPending::ResponseStart { key, stream_id, response, end_of_stream }, _) =>
                Step::Call {
                    call: Call::Convert(
                        ConvertCall::Response { stream_id, response, end_of_stream },
                    ),
                    pending: Pending::Send(SendPending::ResponseConverted { key }),
                },
            (SendPending::ResponseConverted { key }, Reply::Frame(frame)) => Step::Call {
                call: Call::Send(SendCall::Headers { key, frame }),
                pending: Pending::Send(SendPending::Sent { key }),
            },
            (SendPending::Sent { key }, Reply::Allowed(result)) => Step::end(
                key,
                Pending::Send(SendPending::End { result }),
            ),
            (SendPending::End { result }, _) => Step::Done(Outcome::Sent(result)),
            (SendPending::DropStart { key }, _) => Step::Call {
                call: Call::State(StateCall::IsCanceledInterest { key }),
                pending: Pending::Send(SendPending::DropState { key }),
            },
            (SendPending::DropState { key }, Reply::Flag(canceled)) => if canceled {
                Step::Call {
                    call: Call::Send(SendCall::ScheduleCancel { key }),
                    pending: Pending::Send(SendPending::Told { key }),
                }
            } else {
                Step::end(key, Pending::Send(SendPending::Ended))
            },
            (SendPending::Told { key }, _) => Step::end(key, Pending::Send(SendPending::Ended)),
            (SendPending::Ended, _) => Step::Done(Outcome::Unit),
            _ => arbitrary(),
        }
    }

    /// Whether the operation goes on with `reply` as `step` says, when the streams are as `s` says
    /// before and as `t` says afterwards. A stream that is only opened to be reset is added with
    /// no windows; nothing else changes the streams.
    pub open spec fn resumes(
        self,
        s: StreamsView,
        reply: Reply<P>,
        t: StreamsView,
        step: Step<P>,
    ) -> bool {
        match (self, reply) {
            (SendPending::ResetOpen { id, reason }, Reply::Opened(Ok(Some(stream_id)))) =>
                exists|key: Key|
                    {
                        &&& #[trigger] s.adds(id, key, Stream::fresh(stream_id, 0, 0), t)
                        &&& step == Step::<P>::start(
                            key,
                            Pending::Send(SendPending::ResetStart { key, reason }),
                        )
                    },
            _ => t == s && step == self.next(reply),
        }
    }
}

impl StreamsView {
    /// See [`Streams::send_reset`].
    pub open spec fn send_reset<P>(self, id: StreamId, reason: Reason) -> Step<P> {
        match self.store.key_of(id) {
            Some(key) => self.reset(key, reason),
            None => Step::Call {
                call: Call::Recv(RecvCall::Open { id }),
                pending: Pending::Send(SendPending::ResetOpen { id, reason }),
            },
        }
    }
}

impl StreamsView {
    /// See [`StreamRef::send_data`](crate::streams::handle::StreamRef::send_data).
    pub open spec fn send_data<P>(self, key: Key, data: P, end_stream: bool) -> Step<P> {
        let frame = Data { stream_id: self.store.streams[key].id, end_stream, payload: data };
        Step::start(key, Pending::Send(SendPending::DataStart { key, frame }))
    }

    /// See [`StreamRef::send_trailers`](crate::streams::handle::StreamRef::send_trailers).
    pub open spec fn send_trailers<P>(self, key: Key, trailers: P) -> Step<P> {
        let frame = Trailers { stream_id: self.store.streams[key].id, payload: trailers };
        Step::start(key, Pending::Send(SendPending::TrailersStart { key, frame }))
    }

    /// See [`StreamRef::send_response`](crate::streams::handle::StreamRef::send_response).
    pub open spec fn send_response<P>(self, key: Key, response: P, end_of_stream: bool) -> Step<P> {
        let stream_id = self.store.streams[key].id;
        Step::start(
            key,
            Pending::Send(SendPending::ResponseStart { key, stream_id, response, end_of_stream }),
        )
    }

    /// See [`StreamRef::send_reset`](crate::streams::handle::StreamRef::send_reset).
    pub open spec fn reset<P>(self, key: Key, reason: Reason) -> Step<P> {
        Step::start(key, Pending::Send(SendPending::ResetStart { key, reason }))
    }

    /// See [`OpaqueStreamRef::drop`](crate::streams::handle::OpaqueStreamRef::drop).
    pub open spec fn dropped<P>(self, key: Key) -> Step<P> {
        Step::start(key, Pending::Send(SendPending::DropStart { key }))
    }
}

impl Streams {
    /// Resets a stream. Where there is no such stream, the remote opens it first, without windows;
    /// if it may not, there is nothing to reset.
    pub fn send_reset<P>(&self, id: StreamId, reason: Reason) -> (step: Step<P>)
        requires
            self.wf(),
        ensures
            step == self@.send_reset::<P>(id, reason),
    {
        match self.store.find(id) {
            Some(key) => Step::Call {
                call: Call::Counts(CountsCall::TransitionStart { key }),
                pending: Pending::Send(SendPending::ResetStart { key, reason }),
            },
            None => Step::Call {
                call: Call::Recv(RecvCall::Open { id }),
                pending: Pending::Send(SendPending::ResetOpen { id, reason }),
            },
        }
    }

    /// Goes on with an operation on a stream.
    pub(super) fn resume_send<P>(&mut self, pending: SendPending<P>, reply: Reply<P>) -> (step: Step<
        P,
    >)
        requires
            old(self).wf(),
            pending.awaits(old(self)@, reply),
        ensures
            final(self).wf(),
            pending.resumes(old(self)@, reply, final(self)@, step),
    {
        match (pending, reply) {
            (SendPending::ResetOpen { id, reason }, Reply::Opened(Ok(Some(stream_id)))) => {
                let key = self.add(id, Stream::new(stream_id, 0, 0));
                Step::Call {
                    call: Call::Counts(CountsCall::TransitionStart { key }),
                    pending: Pending::Send(SendPending::ResetStart { key, reason }),
                }
            },
            (SendPending::ResetOpen { .. }, _) => Step::Done(Outcome::Unit),
            (SendPending::ResetStart { key, reason }, _) => Step::Call {
                call: Call::Send(SendCall::Reset { key, reason }),
                pending: Pending::Send(SendPending::Told { key }),
            },
            (SendPending::DataStart { key, frame }, _) => Step::Call {
                call: Call::Send(SendCall::Data { key, frame }),
                pending: Pending::Send(SendPending::Sent { key }),
            },
            (SendPending::TrailersStart { key, frame }, _) => Step::Call {
                call: Call::Send(SendCall::Trailers { key, frame }),
                pending: Pending::Send(SendPending::Sent { key }),
            },
            (SendPending::ResponseStart { key, stream_id, response, end_of_stream }, _) =>
                Step::Call {
                    call: Call::Convert(
                        ConvertCall::Response { stream_id, response, end_of_stream },
                    ),
                    pending: Pending::Send(SendPending::ResponseConverted { key }),
                },
            (SendPending::ResponseConverted { key }, Reply::Frame(frame)) => Step::Call {
                call: Call::Send(SendCall::Headers { key, frame }),
                pending: Pending::Send(SendPending::Sent { key }),
            },
            (SendPending::Sent { key }, Reply::Allowed(result)) => Step::Call {
                call: Call::Counts(CountsCall::TransitionEnd { key }),
                pending: Pending::Send(SendPending::End { result }),
            },
            (SendPending::End { result }, _) => Step::Done(Outcome::Sent(result)),
            (SendPending::DropStart { key }, _) => Step::Call {
                call: Call::State(StateCall::IsCanceledInterest { key }),
                pending: Pending::Send(SendPending::DropState { key }),
            },
            (SendPending::DropState { key }, Reply::Flag(canceled)) => if canceled {
                Step::Call {
                    call: Call::Send(SendCall::ScheduleCancel { key }),
                    pending: Pending::Send(SendPending::Told { key }),
                }
            } else {
                Step::Call {
                    call: Call::Counts(CountsCall::TransitionEnd { key }),
                    pending: Pending::Send(SendPending::Ended),
                }
            },
            (SendPending::Told { key }, _) => Step::Call {
                call: Call::Counts(CountsCall::TransitionEnd { key }),
                pending: Pending::Send(SendPending::Ended),
            },
            (SendPending::Ended, _) => Step::Done(Outcome::Unit),
            _ => vstd::pervasive::unreached(),
        }
    }
}

} // verus!
