//! Frames that arrive on a stream.
use crate::call::{Call, CountsCall, RecvCall, Reply, SendCall, StateCall};
use crate::error::RecvError;
use crate::frame::{
    Data, Headers, PushPromise, Reason, Reset, Settings, StreamId, WindowSize, WindowUpdate,
};
use crate::peer::Dyn;
use crate::step::{Outcome, Pending, Step};
use crate::store::{Key, Stream};
use crate::streams::{Actions, Streams, StreamsView};
use vstd::prelude::*;

verus! {

/// What an operation that receives waits for.
#[allow(inconsistent_fields)]
#[derive(Debug)]
pub enum RecvPending<P> {
    /// Whether the remote may open the stream that the headers came on.
    Open { frame: Headers<P> },
    /// The send window of the new stream.
    SendWindow { frame: Headers<P>, stream_id: StreamId },
    /// The receive window of the new stream.
    RecvWindow { frame: Headers<P>, stream_id: StreamId, send_window: WindowSize },
    /// The start of the transition that headers cause.
    HeadersStart { key: Key, frame: Headers<P> },
    /// Whether the headers start the stream.
    HeadersState { key: Key, frame: Headers<P> },
    /// The start of the transition that data cause.
    DataStart { key: Key, frame: Data<P> },
    /// The processing of headers, trailers or data.
    Processed { key: Key },
    /// The reset that answers an error of the stream.
    Answered { key: Key },
    /// The start of the transition that a reset causes.
    ResetStart { key: Key, frame: Reset },
    /// The processing of a reset.
    ResetProcessed { key: Key },
    /// Whether the stream is closed after a reset.
    ResetClosed { key: Key },
    /// The end of the transition, and with it of the operation.
    End { result: Result<(), RecvError> },
    /// A check, on which the result rests.
    Checked,
    /// A call of which nothing depends.
    Ignored,
    /// A call that gives the result.
    Decided,
    /// The counting of the settings of the remote.
    SettingsCounted { frame: Settings },
}

/// An error of the connection for breaking the protocol.
pub open spec fn protocol_violation() -> Result<(), RecvError> {
    Err(RecvError::Connection(Reason::spec_protocol_error()))
}

/// The result that a check leads to: a failed one is an error of the connection.
pub open spec fn checked(result: Result<(), Reason>) -> Result<(), RecvError> {
    match result {
        Ok(()) => Ok(()),
        Err(reason) => Err(RecvError::Connection(reason)),
    }
}

/// See [`Actions::reset_on_recv_stream_err`].
pub open spec fn answered<P>(key: Key, result: Result<(), RecvError>) -> Step<P> {
    match result {
        Err(RecvError::Stream { reason, .. }) => Step::Call {
            call: Call::Send(SendCall::Reset { key, reason }),
            pending: Pending::Recv(RecvPending::Answered { key }),
        },
        _ => Step::end(key, Pending::Recv(RecvPending::End { result })),
    }
}

/// See [`Actions::ensure_not_idle`].
pub open spec fn not_idle<P>(peer: Dyn, id: StreamId) -> Call<P> {
    if peer.opens(id) {
        Call::Send(SendCall::EnsureNotIdle { id })
    } else {
        Call::Recv(RecvCall::EnsureNotIdle { id })
    }
}

impl<P> RecvPending<P> {
    /// Whether an operation that waits with `self` can go on with `reply`, when the streams are as
    /// `s` says: it is of the kind that was asked for, a stream that was found missing is still
    /// missing when it is added, and a stream is closed once it was reset.
    pub open spec fn awaits(self, s: StreamsView, reply: Reply<P>) -> bool {
        match self {
            RecvPending::Open { .. } => reply is Opened,
            RecvPending::SendWindow { .. } => reply is Window,
            RecvPending::RecvWindow { frame, .. } => reply is Window && !s.store.is_linked(
                frame.stream_id,
            ),
            RecvPending::HeadersStart { .. } => reply is Done,
            RecvPending::HeadersState { .. } => reply is Flag,
            RecvPending::DataStart { .. } => reply is Done,
            RecvPending::Processed { .. } => reply is Received,
            RecvPending::Answered { .. } => reply is Done,
            RecvPending::ResetStart { .. } => reply is Done,
            RecvPending::ResetProcessed { .. } => reply is Received,
            RecvPending::ResetClosed { .. } => reply == Reply::<P>::Flag(true),
            RecvPending::End { .. } => reply is Done,
            RecvPending::Checked => reply is Checked,
            RecvPending::Ignored => reply is Checked,
            RecvPending::Decided => reply is Received,
            RecvPending::SettingsCounted { .. } => reply is Done,
        }
    }

    /// How the operation goes on with `reply`, where that does not depend on the streams.
    pub open spec fn next(self, reply: Reply<P>) -> Step<P> {
        match (self, reply) {
            (RecvPending::Open { .. }, Reply::Opened(Err(err))) => Step::Done(
                Outcome::Received(Err(err)),
            ),
            (RecvPending::Open { .. }, Reply::Opened(Ok(None))) => Step::Done(
                Outcome::Received(Ok(())),
            ),
            (RecvPending::Open { frame }, Reply::Opened(Ok(Some(stream_id)))) => Step::Call {
                call: Call::Send(SendCall::InitWindowSize),
                pending: Pending::Recv(RecvPending::SendWindow { frame, stream_id }),
            },
            (RecvPending::SendWindow { frame, stream_id }, Reply::Window(send_window)) => Step::Call {
                call: Call::Recv(RecvCall::InitWindowSize),
                pending: Pending::Recv(RecvPending::RecvWindow { frame, stream_id, send_window }),
            },
            (RecvPending::HeadersStart { key, frame }, Reply::Done) => Step::Call {
                call: Call::State(StateCall::IsRecvHeaders { key }),
                pending: Pending::Recv(RecvPending::HeadersState { key, frame }),
            },
            (RecvPending::HeadersState { key, frame }, Reply::Flag(starts)) => if starts {
                Step::Call {
                    call: Call::Recv(RecvCall::Headers { key, frame }),
                    pending: Pending::Recv(RecvPending::Processed { key }),
                }
            } else if frame.end_stream {
                Step::Call {
                    call: Call::Recv(RecvCall::Trailers { key, frame }),
                    pending: Pending::Recv(RecvPending::Processed { key }),
                }
            } else {
                Step::end(key, Pending::Recv(RecvPending::End { result: protocol_violation() }))
            },
            (RecvPending::DataStart { key, frame }, Reply::Done) => Step::Call {
                call: Call::Recv(RecvCall::Data { key, frame }),
                pending: Pending::Recv(RecvPending::Processed { key }),
            },
            (RecvPending::Processed { key }, Reply::Received(result)) => answered(key, result),
            (RecvPending::Answered { key }, Reply::Done) => Step::end(
                key,
                Pending::Recv(RecvPending::End { result: Ok(()) }),
            ),
            (RecvPending::ResetStart { key, frame }, Reply::Done) => Step::Call {
                call: Call::Recv(RecvCall::Reset { key, frame }),
                pending: Pending::Recv(RecvPending::ResetProcessed { key }),
            },
            (RecvPending::ResetProcessed { key }, Reply::Received(result)) => match result {
                Ok(()) => Step::Call {
                    call: Call::State(StateCall::IsClosed { key }),
                    pending: Pending::Recv(RecvPending::ResetClosed { key }),
                },
                Err(_) => Step::end(key, Pending::Recv(RecvPending::End { result })),
            },
            (RecvPending::ResetClosed { key }, Reply::Flag(_)) => Step::end(
                key,
                Pending::Recv(RecvPending::End { result: Ok(()) }),
            ),
            (RecvPending::End { result }, Reply::Done) => Step::Done(Outcome::Received(result)),
            (RecvPending::Checked, Reply::Checked(result)) => Step::Done(
                Outcome::Received(checked(result)),
            ),
            (RecvPending::Ignored, Reply::Checked(_)) => Step::Done(Outcome::Received(Ok(()))),
            (RecvPending::Decided, Reply::Received(result)) => Step::Done(Outcome::Received(result)),
            (RecvPending::SettingsCounted { frame }, Reply::Done) => Step::Call {
                call: Call::Send(SendCall::ApplyRemoteSettings { frame }),
                pending: Pending::Recv(RecvPending::Decided),
            },
            _ => arbitrary(),
        }
    }

    /// Whether the operation goes on with `reply` as `step` says, when the streams are as `s` says
    /// before and as `t` says afterwards. A stream that the remote opens is added with the windows
    /// that were asked for; nothing else changes the streams.
    pub open spec fn resumes(
        self,
        s: StreamsView,
        reply: Reply<P>,
        t: StreamsView,
        step: Step<P>,
    ) -> bool {
        match (self, reply) {
            (
                RecvPending::RecvWindow { frame, stream_id, send_window },
                Reply::Window(recv_window),
            ) => {
                let stream = Stream::fresh(stream_id, send_window, recv_window);
                exists|key: Key|
                    {
                        &&& #[trigger] s.adds(frame.stream_id, key, stream, t)
                        &&& step == Step::start(
                            key,
                            Pending::Recv(RecvPending::HeadersStart { key, frame }),
                        )
                    }
            },
            _ => t == s && step == self.next(reply),
        }
    }
}

impl StreamsView {
    /// See [`Streams::recv_headers`].
    pub open spec fn recv_headers<P>(self, frame: Headers<P>) -> Step<P> {
        match self.store.key_of(frame.stream_id) {
            Some(key) => Step::start(
                key,
                Pending::Recv(RecvPending::HeadersStart { key, frame }),
            ),
            None => Step::Call {
                call: Call::Recv(RecvCall::Open { id: frame.stream_id }),
                pending: Pending::Recv(RecvPending::Open { frame }),
            },
        }
    }

    /// See [`Streams::recv_data`].
    pub open spec fn recv_data<P>(self, frame: Data<P>) -> Step<P> {
        match self.store.key_of(frame.stream_id) {
            Some(key) => Step::start(key, Pending::Recv(RecvPending::DataStart { key, frame })),
            None => Step::Done(Outcome::Received(protocol_violation())),
        }
    }

    /// See [`Streams::recv_reset`].
    pub open spec fn recv_reset<P>(self, frame: Reset) -> Step<P> {
        if frame.stream_id.spec_is_zero() {
            Step::Done(Outcome::Received(protocol_violation()))
        } else {
            match self.store.key_of(frame.stream_id) {
                Some(key) => Step::start(
                    key,
                    Pending::Recv(RecvPending::ResetStart { key, frame }),
                ),
                None => Step::Call {
                    call: not_idle(self.peer, frame.stream_id),
                    pending: Pending::Recv(RecvPending::Checked),
                },
            }
        }
    }

    /// See [`Streams::recv_window_update`].
    pub open spec fn recv_window_update<P>(self, frame: WindowUpdate) -> Step<P> {
        if frame.stream_id.spec_is_zero() {
            Step::Call {
                call: Call::Send(SendCall::RecvConnectionWindowUpdate { frame }),
                pending: Pending::Recv(RecvPending::Checked),
            }
        } else {
            match self.store.key_of(frame.stream_id) {
                Some(key) => Step::Call {
                    call: Call::Send(
                        SendCall::RecvStreamWindowUpdate {
                            key,
                            size_increment: frame.size_increment,
                        },
                    ),
                    pending: Pending::Recv(RecvPending::Ignored),
                },
                None => Step::Call {
                    call: not_idle(self.peer, frame.stream_id),
                    pending: Pending::Recv(RecvPending::Checked),
                },
            }
        }
    }

    /// See [`Streams::recv_push_promise`].
    pub open spec fn recv_push_promise<P>(self, frame: PushPromise<P>) -> Step<P> {
        match self.store.key_of(frame.stream_id) {
            Some(key) if self.peer != Dyn::Server => Step::Call {
                call: Call::Recv(RecvCall::PushPromise { key, frame }),
                pending: Pending::Recv(RecvPending::Decided),
            },
            _ => Step::Done(Outcome::Received(protocol_violation())),
        }
    }

    /// See [`Streams::apply_remote_settings`].
    pub open spec fn apply_remote_settings<P>(self, frame: Settings) -> Step<P> {
        Step::<P>::Call {
            call: Call::Counts(CountsCall::ApplyRemoteSettings { frame: frame }),
            pending: Pending::Recv(RecvPending::SettingsCounted { frame: frame }),
        }
    }
}

impl Actions {
    /// An error of the stream under `key` is answered by resetting it, and is no error of the
    /// operation. Every other result is the result of the operation.
    fn reset_on_recv_stream_err<P>(key: Key, result: Result<(), RecvError>) -> (step: Step<P>)
        ensures
            step == answered::<P>(key, result),
    {
        match result {
            Err(RecvError::Stream { reason, .. }) => Step::Call {
                call: Call::Send(SendCall::Reset { key, reason }),
                pending: Pending::Recv(RecvPending::Answered { key }),
            },
            result => Step::Call {
                call: Call::Counts(CountsCall::TransitionEnd { key }),
                pending: Pending::Recv(RecvPending::End { result }),
            },
        }
    }
}

impl Actions {
    /// Asks the half that opens streams like `id` whether the stream has been open.
    fn ensure_not_idle<P>(peer: Dyn, id: StreamId) -> (call: Call<P>)
        requires
            !id.spec_is_zero(),
        ensures
            call == not_idle::<P>(peer, id),
    {
        if peer.is_local_init(id) {
            Call::Send(SendCall::EnsureNotIdle { id })
        } else {
            Call::Recv(RecvCall::EnsureNotIdle { id })
        }
    }
}

impl Streams {
    /// Headers arrived. Where there is no such stream, the receiving half decides whether the
    /// remote opens it, and the operation ends there if it does not. Within a transition of the
    /// stream, the headers are processed as the ones that start it, if such are expected; if not,
    /// they have to end the stream, or the connection is in error.
    pub fn recv_headers<P>(&self, frame: Headers<P>) -> (step: Step<P>)
        requires
            self.wf(),
        ensures
            step == self@.recv_headers(frame),
    {
        match self.store.find(frame.stream_id) {
            Some(key) => Step::Call {
                call: Call::Counts(CountsCall::TransitionStart { key }),
                pending: Pending::Recv(RecvPending::HeadersStart { key, frame }),
            },
            None => Step::Call {
                call: Call::Recv(RecvCall::Open { id: frame.stream_id }),
                pending: Pending::Recv(RecvPending::Open { frame }),
            },
        }
    }

    /// Data arrived. It is an error of the connection if there is no such stream.
    pub fn recv_data<P>(&self, frame: Data<P>) -> (step: Step<P>)
        requires
            self.wf(),
        ensures
            step == self@.recv_data(frame),
    {
        match self.store.find(frame.stream_id) {
            Some(key) => Step::Call {
                call: Call::Counts(CountsCall::TransitionStart { key }),
                pending: Pending::Recv(RecvPending::DataStart { key, frame }),
            },
            None => Step::Done(
                Outcome::Received(Err(RecvError::Connection(Reason::protocol_error()))),
            ),
        }
    }

    /// A reset arrived. It is an error of the connection if it is for stream zero, or for a stream
    /// that has never been open.
    pub fn recv_reset<P>(&self, frame: Reset) -> (step: Step<P>)
        requires
            self.wf(),
        ensures
            step == self@.recv_reset::<P>(frame),
    {
        let id = frame.stream_id;
        if id.is_zero() {
            return Step::Done(
                Outcome::Received(Err(RecvError::Connection(Reason::protocol_error()))),
            );
        }
        match self.store.find(id) {
            Some(key) => Step::Call {
                call: Call::Counts(CountsCall::TransitionStart { key }),
                pending: Pending::Recv(RecvPending::ResetStart { key, frame }),
            },
            None => Step::Call {
                call: Actions::ensure_not_idle(self.peer, id),
                pending: Pending::Recv(RecvPending::Checked),
            },
        }
    }

    /// A window update arrived. The remote may send one for a stream that this end has closed and
    /// forgotten, whichever end had opened it, and an error of the stream is dealt with where it is
    /// found: only an error of the connection window, or a stream that has never been open, is an
    /// error of the connection.
    pub fn recv_window_update<P>(&self, frame: WindowUpdate) -> (step: Step<P>)
        requires
            self.wf(),
        ensures
            step == self@.recv_window_update::<P>(frame),
    {
        let id = frame.stream_id;
        if id.is_zero() {
            return Step::Call {
                call: Call::Send(SendCall::RecvConnectionWindowUpdate { frame }),
                pending: Pending::Recv(RecvPending::Checked),
            };
        }
        match self.store.find(id) {
            Some(key) => Step::Call {
                call: Call::Send(
                    SendCall::RecvStreamWindowUpdate { key, size_increment: frame.size_increment },
                ),
                pending: Pending::Recv(RecvPending::Ignored),
            },
            None => Step::Call {
                call: Actions::ensure_not_idle(self.peer, id),
                pending: Pending::Recv(RecvPending::Checked),
            },
        }
    }

    /// A promise arrived. It is an error of the connection if there is no such stream, or if the
    /// remote is a client, which cannot reserve streams.
    pub fn recv_push_promise<P>(&self, frame: PushPromise<P>) -> (step: Step<P>)
        requires
            self.wf(),
        ensures
            step == self@.recv_push_promise(frame),
    {
        match self.store.find(frame.stream_id) {
            Some(key) => if self.peer.is_server() {
                Step::Done(Outcome::Received(Err(RecvError::Connection(Reason::protocol_error()))))
            } else {
                Step::Call {
                    call: Call::Recv(RecvCall::PushPromise { key, frame }),
                    pending: Pending::Recv(RecvPending::Decided),
                }
            },
            None => Step::Done(
                Outcome::Received(Err(RecvError::Connection(Reason::protocol_error()))),
            ),
        }
    }

    /// The settings of the remote arrived. The counters follow them first, then the sending half,
    /// which gives the result.
    pub fn apply_remote_settings<P>(&self, frame: &Settings) -> (step: Step<P>)
        ensures
            step == self@.apply_remote_settings::<P>(*frame),
    {
        Step::Call {
            call: Call::Counts(CountsCall::ApplyRemoteSettings { frame: *frame }),
            pending: Pending::Recv(RecvPending::SettingsCounted { frame: *frame }),
        }
    }

    /// Goes on with an operation that receives.
    pub(super) fn resume_recv<P>(&mut self, pending: RecvPending<P>, reply: Reply<P>) -> (step: Step<
        P,
    >)
        requires
            old(self).wf(),
            pending.awaits(old(self)@, reply),
        ensures
            final(self).wf(),
            pending.resumes(old(self)@, reply, final(self)@, step),
    {
        match (pending, reply) {
            (RecvPending::Open { .. }, Reply::Opened(Err(err))) => Step::Done(
                Outcome::Received(Err(err)),
            ),
            (RecvPending::Open { .. }, Reply::Opened(Ok(None))) => Step::Done(
                Outcome::Received(Ok(())),
            ),
            (RecvPending::Open { frame }, Reply::Opened(Ok(Some(stream_id)))) => Step::Call {
                call: Call::Send(SendCall::InitWindowSize),
                pending: Pending::Recv(RecvPending::SendWindow { frame, stream_id }),
            },
            (RecvPending::SendWindow { frame, stream_id }, Reply::Window(send_window)) => Step::Call {
                call: Call::Recv(RecvCall::InitWindowSize),
                pending: Pending::Recv(RecvPending::RecvWindow { frame, stream_id, send_window }),
            },
            (
                RecvPending::RecvWindow { frame, stream_id, send_window },
                Reply::Window(recv_window),
            ) => {
                let stream = Stream::new(stream_id, send_window, recv_window);
                let key = self.add(frame.stream_id, stream);
                Step::Call {
                    call: Call::Counts(CountsCall::TransitionStart { key }),
                    pending: Pending::Recv(RecvPending::HeadersStart { key, frame }),
                }
            },
            (RecvPending::HeadersStart { key, frame }, Reply::Done) => Step::Call {
                call: Call::State(StateCall::IsRecvHeaders { key }),
                pending: Pending::Recv(RecvPending::HeadersState { key, frame }),
            },
            (RecvPending::HeadersState { key, frame }, Reply::Flag(starts)) => if starts {
                Step::Call {
                    call: Call::Recv(RecvCall::Headers { key, frame }),
                    pending: Pending::Recv(RecvPending::Processed { key }),
                }
            } else if frame.end_stream {
                Step::Call {
                    call: Call::Recv(RecvCall::Trailers { key, frame }),
                    pending: Pending::Recv(RecvPending::Processed { key }),
                }
            } else {
                let result = Err(RecvError::Connection(Reason::protocol_error()));
                Step::Call {
                    call: Call::Counts(CountsCall::TransitionEnd { key }),
                    pending: Pending::Recv(RecvPending::End { result }),
                }
            },
            (RecvPending::DataStart { key, frame }, Reply::Done) => Step::Call {
                call: Call::Recv(RecvCall::Data { key, frame }),
                pending: Pending::Recv(RecvPending::Processed { key }),
            },
            (RecvPending::Processed { key }, Reply::Received(result)) =>
                Actions::reset_on_recv_stream_err(key, result),
            (RecvPending::Answered { key }, Reply::Done) => Step::Call {
                call: Call::Counts(CountsCall::TransitionEnd { key }),
                pending: Pending::Recv(RecvPending::End { result: Ok(()) }),
            },
            (RecvPending::ResetStart { key, frame }, Reply::Done) => Step::Call {
                call: Call::Recv(RecvCall::Reset { key, frame }),
                pending: Pending::Recv(RecvPending::ResetProcessed { key }),
            },
            (RecvPending::ResetProcessed { key }, Reply::Received(Ok(()))) => Step::Call {
                call: Call::State(StateCall::IsClosed { key }),
                pending: Pending::Recv(RecvPending::ResetClosed { key }),
            },
            (RecvPending::ResetProcessed { key }, Reply::Received(Err(err))) => Step::Call {
                call: Call::Counts(CountsCall::TransitionEnd { key }),
                pending: Pending::Recv(RecvPending::End { result: Err(err) }),
            },
            (RecvPending::ResetClosed { key }, Reply::Flag(_)) => Step::Call {
                call: Call::Counts(CountsCall::TransitionEnd { key }),
                pending: Pending::Recv(RecvPending::End { result: Ok(()) }),
            },
            (RecvPending::End { result }, Reply::Done) => Step::Done(Outcome::Received(result)),
            (RecvPending::Checked, Reply::Checked(Ok(()))) => Step::Done(Outcome::Received(Ok(()))),
            (RecvPending::Checked, Reply::Checked(Err(reason))) => Step::Done(
                Outcome::Received(Err(RecvError::Connection(reason))),
            ),
            (RecvPending::Ignored, Reply::Checked(_)) => Step::Done(Outcome::Received(Ok(()))),
            (RecvPending::Decided, Reply::Received(result)) => Step::Done(Outcome::Received(result)),
            (RecvPending::SettingsCounted { frame }, Reply::Done) => Step::Call {
                call: Call::Send(SendCall::ApplyRemoteSettings { frame }),
                pending: Pending::Recv(RecvPending::Decided),
            },
            _ => vstd::pervasive::unreached(),
        }
    }
}

} // verus!
