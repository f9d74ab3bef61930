//! The calls that an operation makes into the rest of the connection, and their replies.
use crate::error::{Failure, RecvError, SendError, UserError};
use crate::frame::{
    Data, Headers, PushPromise, Reason, Request, Reset, Settings, StreamId, Trailers, WindowSize,
    WindowUpdate,
};
use crate::store::Key;
use futures::task::Task;
use vstd::prelude::*;

verus! {

/// A call into the half that receives.
#[allow(inconsistent_fields)]
#[derive(Debug)]
pub enum RecvCall<P> {
    /// Aim for a connection window of this size. No reply is read.
    SetTargetConnectionWindow { size: WindowSize },
    /// May the remote open this stream? Replied by [`Reply::Opened`].
    Open { id: StreamId },
    /// The window that a stream receives with at first. Replied by [`Reply::Window`].
    InitWindowSize,
    /// The last stream of the remote that was processed. Replied by [`Reply::Id`].
    LastProcessedId,
    /// Process the headers that a stream starts with. Replied by [`Reply::Received`].
    Headers { key: Key, frame: Headers<P> },
    /// Process the headers that a stream ends with. Replied by [`Reply::Received`].
    Trailers { key: Key, frame: Headers<P> },
    /// Process data. Replied by [`Reply::Received`].
    Data { key: Key, frame: Data<P> },
    /// Process a reset, after which the stream is closed. Replied by [`Reply::Received`].
    Reset { key: Key, frame: Reset },
    /// The connection failed with this error. Replied by [`Reply::Done`].
    RecvErr { key: Key, err: Failure },
    /// The connection ended. Replied by [`Reply::Done`].
    Eof { key: Key },
    /// Has this stream, which the remote opens, been open? Replied by [`Reply::Checked`].
    EnsureNotIdle { id: StreamId },
    /// Process a promise that came on a stream. Replied by [`Reply::Received`].
    PushPromise { key: Key, frame: PushPromise<P> },
    /// The next stream to accept. Replied by [`Reply::Incoming`].
    NextIncoming,
    /// Write the refusal of a stream, if one is due. The reply is the result.
    SendPendingRefusal,
    /// Write the window updates that are due. Replied by [`Reply::Polled`].
    PollComplete,
    /// Hand out the request that a stream started with. The reply is the result.
    TakeRequest { key: Key },
    /// Hand out the response, once it is there. The reply is the result.
    PollResponse { key: Key },
    /// Will no data come? The reply is the result.
    BodyIsEmpty { key: Key },
    /// Has everything been received and handed out? The reply is the result.
    IsEndStream { key: Key },
    /// Hand out data, once it is there. The reply is the result.
    PollData { key: Key },
    /// Hand out the trailers, once they are there. The reply is the result.
    PollTrailers { key: Key },
    /// Give capacity back to the remote. The reply is the result.
    ReleaseCapacity { key: Key, capacity: WindowSize },
}

/// A call into the half that sends.
#[allow(inconsistent_fields)]
#[derive(Debug)]
pub enum SendCall<P> {
    /// The window that a stream sends with at first. Replied by [`Reply::Window`].
    InitWindowSize,
    /// Reset a stream. Replied by [`Reply::Done`].
    Reset { key: Key, reason: Reason },
    /// The connection failed, drop what a stream still has to send. Replied by [`Reply::Done`].
    RecvErr { key: Key },
    /// Widen the window of the connection. Replied by [`Reply::Checked`].
    RecvConnectionWindowUpdate { frame: WindowUpdate },
    /// Widen the window of a stream. Replied by [`Reply::Checked`].
    RecvStreamWindowUpdate { key: Key, size_increment: WindowSize },
    /// Has this stream, which this end opens, been open? Replied by [`Reply::Checked`].
    EnsureNotIdle { id: StreamId },
    /// Is there an identifier left for a new stream? Replied by [`Reply::Allowed`].
    EnsureNextStreamId,
    /// Take the next identifier. Replied by [`Reply::Assigned`].
    Open,
    /// Send the headers that a stream starts with. Replied by [`Reply::Allowed`].
    Headers { key: Key, frame: P },
    /// Send data. Replied by [`Reply::Allowed`].
    Data { key: Key, frame: Data<P> },
    /// Send the headers that a stream ends with. Replied by [`Reply::Allowed`].
    Trailers { key: Key, frame: Trailers<P> },
    /// Write the frames that are due. Replied by [`Reply::Polled`].
    PollComplete,
    /// Follow the settings of the remote. Replied by [`Reply::Received`].
    ApplyRemoteSettings { frame: Settings },
    /// Nobody waits for this stream any more, reset it in time. Replied by [`Reply::Done`].
    ScheduleCancel { key: Key },
    /// Ask for capacity to send. No reply is read.
    ReserveCapacity { key: Key, capacity: WindowSize },
    /// The capacity to send at once. The reply is the result.
    Capacity { key: Key },
    /// The capacity, once it grows. The reply is the result.
    PollCapacity { key: Key },
}

/// A call into the counters of the connection.
#[derive(Clone, Copy, Debug, PartialEq, Eq)]
pub enum CountsCall {
    /// What follows, up to [`CountsCall::TransitionEnd`], may change the state of this stream.
    /// Replied by [`Reply::Done`].
    TransitionStart { key: Key },
    /// The state of this stream may have changed, count it anew. Replied by [`Reply::Done`].
    TransitionEnd { key: Key },
    /// Follow the settings of the remote. Replied by [`Reply::Done`].
    ApplyRemoteSettings { frame: Settings },
}

/// A question on the state of a stream, replied by [`Reply::Flag`].
#[derive(Clone, Copy, Debug, PartialEq, Eq)]
pub enum StateCall {
    /// Are headers that start a stream expected?
    IsRecvHeaders { key: Key },
    /// Is the stream closed?
    IsClosed { key: Key },
    /// Has every handle gone while the stream still goes on?
    IsCanceledInterest { key: Key },
}

/// A conversion of a message to the headers that are sent for it.
#[derive(Debug)]
pub enum ConvertCall<P> {
    /// As a client does. Replied by [`Reply::Converted`].
    Request { stream_id: StreamId, request: Request<P>, end_of_stream: bool },
    /// As a server does. Replied by [`Reply::Frame`].
    Response { stream_id: StreamId, response: P, end_of_stream: bool },
}

/// A call into the rest of the connection.
#[derive(Debug)]
pub enum Call<P> {
    Recv(RecvCall<P>),
    Send(SendCall<P>),
    Counts(CountsCall),
    State(StateCall),
    Convert(ConvertCall<P>),
    /// The task that runs now, as `futures::task::current` gives it. That panics outside of a task,
    /// so it is left to the one who runs the operation. Replied by [`Reply::Task`].
    CurrentTask,
}

/// How far a writing call came.
#[derive(Debug)]
pub enum Polled {
    /// Everything is written.
    Ready,
    /// The rest is written later.
    NotReady,
    /// Writing failed.
    Failed(std::io::Error),
}

/// The reply to a call.
#[derive(Debug)]
pub enum Reply<P> {
    Done,
    Flag(bool),
    Id(StreamId),
    Window(WindowSize),
    /// The stream may be opened under the identifier, or is ignored.
    Opened(Result<Option<StreamId>, RecvError>),
    Received(Result<(), RecvError>),
    Checked(Result<(), Reason>),
    Allowed(Result<(), UserError>),
    Assigned(Result<StreamId, UserError>),
    Converted(Result<P, SendError>),
    Frame(P),
    Incoming(Option<Key>),
    Polled(Polled),
    Task(Task),
}

} // verus!
