//! What the coordinator reads of a frame, next to a payload that it hands on untouched.
use vstd::prelude::*;

verus! {

/// An amount of flow control window, in octets.
pub type WindowSize = u32;

/// Identifies a stream on the wire.
#[derive(Clone, Copy, Debug, PartialEq, Eq, Structural)]
pub struct StreamId {
    pub value: u32,
}

impl StreamId {
    /// Whether this is stream zero, which stands for the connection as a whole.
    pub fn is_zero(&self) -> (r: bool)
        ensures
            r == self.spec_is_zero(),
            r == (self.value == 0),
    {
        self.value == 0
    }

    /// See [`StreamId::is_zero`].
    pub open spec fn spec_is_zero(self) -> bool {
        self.value == 0
    }
}

/// The reason that a stream or a connection was closed for, as the code it has on the wire.
#[derive(Clone, Copy, Debug, PartialEq, Eq, Structural)]
pub struct Reason {
    pub code: u32,
}

/// The code of [`Reason::protocol_error`].
pub const PROTOCOL_ERROR: u32 = 1;

impl Reason {
    /// The peer broke the protocol, and no more specific reason applies.
    pub fn protocol_error() -> (r: Reason)
        ensures
            r == Self::spec_protocol_error(),
            r == (Reason { code: 1 }),
    {
        Reason { code: PROTOCOL_ERROR }
    }

    /// See [`Reason::protocol_error`].
    pub open spec fn spec_protocol_error() -> Reason {
        Reason { code: PROTOCOL_ERROR }
    }
}

/// A HEADERS frame.
#[derive(Debug, PartialEq, Eq)]
pub struct Headers<P> {
    pub stream_id: StreamId,
    pub end_stream: bool,
    pub payload: P,
}

/// A HEADERS frame that ends a stream after its data.
#[derive(Debug, PartialEq, Eq)]
pub struct Trailers<P> {
    pub stream_id: StreamId,
    pub payload: P,
}

/// A DATA frame.
#[derive(Debug, PartialEq, Eq)]
pub struct Data<P> {
    pub stream_id: StreamId,
    pub end_stream: bool,
    pub payload: P,
}

impl<P> Data<P> {
    /// A frame with `payload` that does not end the stream.
    pub fn new(stream_id: StreamId, payload: P) -> (r: Self)
        ensures
            r == (Data { stream_id, end_stream: false, payload }),
    {
        Data { stream_id, end_stream: false, payload }
    }

    /// Marks whether the stream ends with this frame.
    pub fn set_end_stream(&mut self, end_stream: bool)
        ensures
            *final(self) == (Data { end_stream, ..*old(self) }),
    {
        self.end_stream = end_stream;
    }
}

/// A PUSH_PROMISE frame. `stream_id` is the stream that carries it, not the promised one.
#[derive(Debug, PartialEq, Eq)]
pub struct PushPromise<P> {
    pub stream_id: StreamId,
    pub payload: P,
}

/// A RST_STREAM frame.
#[derive(Clone, Copy, Debug, PartialEq, Eq)]
pub struct Reset {
    pub stream_id: StreamId,
    pub reason: Reason,
}

/// A GOAWAY frame.
#[derive(Clone, Copy, Debug, PartialEq, Eq)]
pub struct GoAway {
    pub last_stream_id: StreamId,
    pub reason: Reason,
}

/// A WINDOW_UPDATE frame. On stream zero it speaks of the window of the connection.
#[derive(Clone, Copy, Debug, PartialEq, Eq)]
pub struct WindowUpdate {
    pub stream_id: StreamId,
    pub size_increment: WindowSize,
}

/// The parameters of a SETTINGS frame.
#[derive(Clone, Copy, Debug, PartialEq, Eq)]
pub struct Settings {
    pub header_table_size: Option<u32>,
    pub enable_push: Option<u32>,
    pub max_concurrent_streams: Option<u32>,
    pub initial_window_size: Option<u32>,
    pub max_frame_size: Option<u32>,
    pub max_header_list_size: Option<u32>,
}

/// A request to send: its method, and a payload that the headers are made from.
#[derive(Debug, PartialEq, Eq)]
pub struct Request<P> {
    pub method: String,
    pub payload: P,
}

} // verus!
