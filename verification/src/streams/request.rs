//! Requests that this end makes.
use crate::call::{Call, ConvertCall, RecvCall, Reply, SendCall, StateCall};
use crate::error::{SendError, UserError};
use crate::frame::{Request, StreamId, WindowSize};
use crate::method::is_head;
use crate::peer::Dyn;
use crate::step::{Outcome, Pending, Readiness, Step};
use crate::store::{ContentLength, Key, Stream};
use crate::streams::handle::StreamRef;
use crate::streams::{Streams, StreamsView};
use vstd::prelude::*;

verus! {

/// What a request, or the wait for one to be possible, waits for.
#[allow(inconsistent_fields)]
#[derive(Debug)]
pub enum RequestPending<P> {
    /// Whether an identifier is left.
    NextStreamId { request: Request<P>, end_of_stream: bool, pending: Option<Key> },
    /// The identifier of the new stream.
    Open { request: Request<P>, end_of_stream: bool },
    /// The send window of the new stream.
    SendWindow { request: Request<P>, end_of_stream: bool, stream_id: StreamId },
    /// The receive window of the new stream.
    RecvWindow {
        request: Request<P>,
        end_of_stream: bool,
        stream_id: StreamId,
        send_window: WindowSize,
    },
    /// The headers for the request, whose stream is going to be added.
    Convert {
        stream_id: StreamId,
        send_window: WindowSize,
        recv_window: WindowSize,
        content_length: ContentLength,
    },
    /// The sending of the headers.
    Headers { key: Key },
    /// Whether the stream is closed, which it is not when it has just been started.
    Started { key: Key },
    /// Whether an identifier is left, to wait for the stream under `key` to open.
    ReadyNextStreamId { key: Option<Key> },
    /// The task that waits for the stream under `key` to open.
    ReadyTask { key: Key },
}

/// What the stream of a request expects: no body in answer to a HEAD request.
pub open spec fn expected_length<P>(request: Request<P>) -> ContentLength {
    if request.method@ == "HEAD"@ {
        ContentLength::Head
    } else {
        ContentLength::Omitted
    }
}

/// A request that was not made.
pub open spec fn refused<P>(err: SendError) -> Step<P> {
    Step::Done(Outcome::Requested(Err(err)))
}

impl StreamsView {
    /// Whether a stream is given, and waits for the remote to allow one more.
    pub open spec fn is_pending_open(self, key: Option<Key>) -> bool {
        key matches Some(key) && self.store.streams[key].is_pending_open
    }

    /// See [`Streams::send_request`].
    pub open spec fn send_request<P>(
        self,
        request: Request<P>,
        end_of_stream: bool,
        pending: Option<Key>,
    ) -> Step<P> {
        match self.conn_error {
            Some(err) => refused(SendError::Connection(err)),
            None => Step::Call {
                call: Call::Send(SendCall::EnsureNextStreamId),
                pending: Pending::Request(
                    RequestPending::NextStreamId { request, end_of_stream, pending },
                ),
            },
        }
    }

    /// See [`Streams::poll_pending_open`].
    pub open spec fn poll_pending_open<P>(self, key: Option<Key>) -> Step<P> {
        match self.conn_error {
            Some(err) => Step::Done(Outcome::Opened(Err(SendError::Connection(err)))),
            None => Step::Call {
                call: Call::Send(SendCall::EnsureNextStreamId),
                pending: Pending::Request(RequestPending::ReadyNextStreamId { key }),
            },
        }
    }
}

impl<P> RequestPending<P> {
    /// Whether an operation that waits with `self` can go on with `reply`, when the streams are as
    /// `s` says: it is of the kind that was asked for, the stream that is waited for is there, the
    /// new stream has an identifier of its own, is not closed once its headers are sent, and is there
    /// to be given a handle to.
    pub open spec fn awaits(self, s: StreamsView, reply: Reply<P>) -> bool {
        match self {
            RequestPending::NextStreamId { pending, .. } => {
                &&& reply is Allowed
                &&& reply->Allowed_0 is Ok && pending is Some ==> s.store.holds(pending->0)
            },
            RequestPending::Open { .. } => reply is Assigned,
            RequestPending::SendWindow { .. } => reply is Window,
            RequestPending::RecvWindow { .. } => reply is Window,
            RequestPending::Convert { stream_id, .. } => {
                &&& reply is Converted
                &&& reply->Converted_0 is Ok ==> !s.store.is_linked(stream_id)
            },
            RequestPending::Headers { .. } => reply is Allowed,
            RequestPending::Started { key } => {
                &&& reply == Reply::<P>::Flag(false)
                &&& s.can_ref_inc(key)
            },
            RequestPending::ReadyNextStreamId { key } => {
                &&& reply is Allowed
                &&& reply->Allowed_0 is Ok && key is Some ==> s.store.holds(key->0)
            },
            RequestPending::ReadyTask { key } => reply is Task && s.store.holds(key),
        }
    }

    /// How the operation goes on with `reply`, where the streams stay as `s` says.
    pub open spec fn next(self, s: StreamsView, reply: Reply<P>) -> Step<P> {
        match (self, reply) {
            (RequestPending::NextStreamId { request, end_of_stream, pending }, Reply::Allowed(ok)) =>
                if let Err(err) = ok {
                    refused(SendError::User(err))
                } else if s.is_pending_open(pending) {
                    refused(SendError::User(UserError::Rejected))
                } else if s.peer == Dyn::Server {
                    refused(SendError::User(UserError::UnexpectedFrameType))
                } else {
                    Step::Call {
                        call: Call::Send(SendCall::Open),
                        pending: Pending::Request(RequestPending::Open { request, end_of_stream }),
                    }
                },
            (RequestPending::Open { request, end_of_stream }, Reply::Assigned(assigned)) =>
                match assigned {
                    Err(err) => refused(SendError::User(err)),
                    Ok(stream_id) => Step::Call {
                        call: Call::Send(SendCall::InitWindowSize),
                        pending: Pending::Request(
                            RequestPending::SendWindow { request, end_of_stream, stream_id },
                        ),
                    },
                },
            (
                RequestPending::SendWindow { request, end_of_stream, stream_id },
                Reply::Window(send_window),
            ) => Step::Call {
                call: Call::Recv(RecvCall::InitWindowSize),
                pending: Pending::Request(
                    RequestPending::RecvWindow { request, end_of_stream, stream_id, send_window },
                ),
            },
            (
                RequestPending::RecvWindow { request, end_of_stream, stream_id, send_window },
                Reply::Window(recv_window),
            ) => Step::Call {
                call: Call::Convert(ConvertCall::Request { stream_id, request, end_of_stream }),
                pending: Pending::Request(
                    RequestPending::Convert {
                        stream_id,
                        send_window,
                        recv_window,
                        content_length: expected_length(request),
                    },
                ),
            },
            (RequestPending::Convert { .. }, Reply::Converted(Err(err))) => refused(err),
            (RequestPending::Headers { .. }, Reply::Allowed(Err(err))) => refused(
                SendError::User(err),
            ),
            (RequestPending::Headers { key }, Reply::Allowed(Ok(()))) => Step::Call {
                call: Call::State(StateCall::IsClosed { key }),
                pending: Pending::Request(RequestPending::Started { key }),
            },
            (RequestPending::ReadyNextStreamId { key }, Reply::Allowed(ok)) => if let Err(err) = ok {
                Step::Done(Outcome::Opened(Err(SendError::User(err))))
            } else if s.is_pending_open(key) {
                Step::Call {
                    call: Call::CurrentTask,
                    pending: Pending::Request(RequestPending::ReadyTask { key: key->0 }),
                }
            } else {
                Step::Done(Outcome::Opened(Ok(Readiness::Ready)))
            },
            _ => arbitrary(),
        }
    }

    /// Whether the operation goes on with `reply` as `step` says, when the streams are as `s` says
    /// before and as `t` says afterwards. The stream is added once there are headers for it, and
    /// counts a handle once they are sent and it is known not to be closed. A task that has to wait
    /// is kept with its stream.
    pub open spec fn resumes(
        self,
        s: StreamsView,
        reply: Reply<P>,
        t: StreamsView,
        step: Step<P>,
    ) -> bool {
        match (self, reply) {
            (
                RequestPending::Convert { stream_id, send_window, recv_window, content_length },
                Reply::Converted(Ok(frame)),
            ) => {
                let stream = Stream {
                    content_length,
                    ..Stream::fresh(stream_id, send_window, recv_window)
                };
                exists|key: Key|
                    {
                        &&& #[trigger] s.adds(stream_id, key, stream, t)
                        &&& step == (Step::Call {
                            call: Call::Send(SendCall::Headers { key, frame }),
                            pending: Pending::Request(RequestPending::Headers { key }),
                        })
                    }
            },
            (RequestPending::Started { key }, _) => {
                &&& t == s.ref_inc(key)
                &&& step matches Step::Done(Outcome::Requested(Ok(handle)))
                &&& handle@ == key
            },
            (RequestPending::ReadyTask { key }, Reply::Task(task)) => {
                let stream = Stream { send_task: Some(task), ..s.store.streams[key] };
                &&& t == StreamsView { store: s.store.with(key, stream), ..s }
                &&& step == Step::<P>::Done(Outcome::Opened(Ok(Readiness::NotReady)))
            },
            _ => t == s && step == self.next(s, reply),
        }
    }
}

impl Streams {
    /// Makes a request. `pending` is the stream of the request before it: while that stream waits
    /// to be opened, no other request is queued. Servers make no requests. Once its headers are sent,
    /// the stream of the request has been started, so it must not be closed.
    pub fn send_request<P>(
        &self,
        request: Request<P>,
        end_of_stream: bool,
        pending: Option<Key>,
    ) -> (step: Step<P>)
        ensures
            step == self@.send_request(request, end_of_stream, pending),
    {
        if let Err(err) = self.actions.ensure_no_conn_error() {
            return Step::Done(Outcome::Requested(Err(SendError::Connection(err))));
        }
        Step::Call {
            call: Call::Send(SendCall::EnsureNextStreamId),
            pending: Pending::Request(
                RequestPending::NextStreamId { request, end_of_stream, pending },
            ),
        }
    }

    /// Whether a request can be made after the one of the stream under `key`. If that stream waits
    /// to be opened, the current task is woken when that has happened.
    pub fn poll_pending_open<P>(&self, key: Option<Key>) -> (step: Step<P>)
        ensures
            step == self@.poll_pending_open::<P>(key),
    {
        if let Err(err) = self.actions.ensure_no_conn_error() {
            return Step::Done(Outcome::Opened(Err(SendError::Connection(err))));
        }
        Step::Call {
            call: Call::Send(SendCall::EnsureNextStreamId),
            pending: Pending::Request(RequestPending::ReadyNextStreamId { key }),
        }
    }

    /// Whether a stream is given, and waits for the remote to allow one more.
    fn is_pending_open(&self, key: Option<Key>) -> (r: bool)
        requires
            key is Some ==> self@.store.holds(key->0),
        ensures
            r == self@.is_pending_open(key),
    {
        match key {
            Some(key) => self.store.resolve(key).is_pending_open,
            None => false,
        }
    }

    /// Goes on with a request.
    pub(super) fn resume_request<P>(&mut self, pending: RequestPending<P>, reply: Reply<P>) -> (step:
        Step<P>)
        requires
            old(self).wf(),
            pending.awaits(old(self)@, reply),
        ensures
            final(self).wf(),
            pending.resumes(old(self)@, reply, final(self)@, step),
    {
        match (pending, reply) {
            (RequestPending::NextStreamId { .. }, Reply::Allowed(Err(err))) => Step::Done(
                Outcome::Requested(Err(SendError::User(err))),
            ),
            (
                RequestPending::NextStreamId { request, end_of_stream, pending },
                Reply::Allowed(Ok(())),
            ) => if self.is_pending_open(pending) {
                Step::Done(Outcome::Requested(Err(SendError::User(UserError::Rejected))))
            } else if self.peer.is_server() {
                Step::Done(Outcome::Requested(Err(SendError::User(UserError::UnexpectedFrameType))))
            } else {
                Step::Call {
                    call: Call::Send(SendCall::Open),
                    pending: Pending::Request(RequestPending::Open { request, end_of_stream }),
                }
            },
            (RequestPending::Open { .. }, Reply::Assigned(Err(err))) => Step::Done(
                Outcome::Requested(Err(SendError::User(err))),
            ),
            (RequestPending::Open { request, end_of_stream }, Reply::Assigned(Ok(stream_id))) =>
                Step::Call {
                    call: Call::Send(SendCall::InitWindowSize),
                    pending: Pending::Request(
                        RequestPending::SendWindow { request, end_of_stream, stream_id },
                    ),
                },
            (
                RequestPending::SendWindow { request, end_of_stream, stream_id },
                Reply::Window(send_window),
            ) => Step::Call {
                call: Call::Recv(RecvCall::InitWindowSize),
                pending: Pending::Request(
                    RequestPending::RecvWindow { request, end_of_stream, stream_id, send_window },
                ),
            },
            (
                RequestPending::RecvWindow { request, end_of_stream, stream_id, send_window },
                Reply::Window(recv_window),
            ) => {
                let content_length = if is_head(request.method.as_str()) {
                    ContentLength::Head
                } else {
                    ContentLength::Omitted
                };
                Step::Call {
                    call: Call::Convert(ConvertCall::Request { stream_id, request, end_of_stream }),
                    pending: Pending::Request(
                        RequestPending::Convert {
                            stream_id,
                            send_window,
                            recv_window,
                            content_length,
                        },
                    ),
                }
            },
            (RequestPending::Convert { .. }, Reply::Converted(Err(err))) => Step::Done(
                Outcome::Requested(Err(err)),
            ),
            (
                RequestPending::Convert { stream_id, send_window, recv_window, content_length },
                Reply::Converted(Ok(frame)),
            ) => {
                let mut stream = Stream::new(stream_id, send_window, recv_window);
                stream.content_length = content_length;
                let key = self.add(stream_id, stream);
                Step::Call {
                    call: Call::Send(SendCall::Headers { key, frame }),
                    pending: Pending::Request(RequestPending::Headers { key }),
                }
            },
            (RequestPending::Headers { .. }, Reply::Allowed(Err(err))) => Step::Done(
                Outcome::Requested(Err(SendError::User(err))),
            ),
            (RequestPending::Headers { key }, Reply::Allowed(Ok(()))) => Step::Call {
                call: Call::State(StateCall::IsClosed { key }),
                pending: Pending::Request(RequestPending::Started { key }),
            },
            (RequestPending::Started { key }, _) => {
                let handle = StreamRef::new(self, key);
                Step::Done(Outcome::Requested(Ok(handle)))
            },
            (RequestPending::ReadyNextStreamId { .. }, Reply::Allowed(Err(err))) => Step::Done(
                Outcome::Opened(Err(SendError::User(err))),
            ),
            (RequestPending::ReadyNextStreamId { key }, Reply::Allowed(Ok(()))) => match key {
                Some(key) if self.store.resolve(key).is_pending_open => Step::Call {
                    call: Call::CurrentTask,
                    pending: Pending::Request(RequestPending::ReadyTask { key }),
                },
                _ => Step::Done(Outcome::Opened(Ok(Readiness::Ready))),
            },
            (RequestPending::ReadyTask { key }, Reply::Task(task)) => {
                self.store.resolve_mut(key).send_task = Some(task);
                Step::Done(Outcome::Opened(Ok(Readiness::NotReady)))
            },
            _ => vstd::pervasive::unreached(),
        }
    }
}

} // verus!
