//! Handles to a stream.
use crate::call::{Call, CountsCall, RecvCall, SendCall};
use crate::frame::{Data, Reason, StreamId, Trailers, WindowSize};
use crate::step::{Pending, Step};
use crate::store::Key;
use crate::streams::send::SendPending;
use crate::streams::Streams;
use vstd::prelude::*;

verus! {

/// A handle to a stream, for its user.
#[derive(Debug)]
pub struct StreamRef {
    opaque: OpaqueStreamRef,
}

/// A handle to a stream that can only receive.
#[derive(Debug)]
pub struct OpaqueStreamRef {
    key: Key,
}

impl View for StreamRef {
    type V = Key;

    /// The stream that the handle refers to.
    closed spec fn view(&self) -> Key {
        self.opaque@
    }
}

impl View for OpaqueStreamRef {
    type V = Key;

    /// The stream that the handle refers to.
    closed spec fn view(&self) -> Key {
        self.key
    }
}

impl StreamRef {
    /// A new handle, which the stream under `key` counts.
    pub(super) fn new(streams: &mut Streams, key: Key) -> (r: StreamRef)
        requires
            old(streams).wf(),
            old(streams)@.can_ref_inc(key),
        ensures
            final(streams).wf(),
            final(streams)@ == old(streams)@.ref_inc(key),
            r@ == key,
    {
        StreamRef { opaque: OpaqueStreamRef::new(streams, key) }
    }

    /// Sends data in a transition of the stream.
    pub fn send_data<P>(&self, streams: &Streams, data: P, end_stream: bool) -> (step: Step<P>)
        requires
            streams@.store.holds(self@),
        ensures
            step == streams@.send_data(self@, data, end_stream),
    {
        let key = self.opaque.key;
        let mut frame = Data::new(streams.store.resolve(key).id, data);
        frame.set_end_stream(end_stream);
        Step::Call {
            call: Call::Counts(CountsCall::TransitionStart { key }),
            pending: Pending::Send(SendPending::DataStart { key, frame }),
        }
    }

    /// Sends trailers in a transition of the stream.
    pub fn send_trailers<P>(&self, streams: &Streams, trailers: P) -> (step: Step<P>)
        requires
            streams@.store.holds(self@),
        ensures
            step == streams@.send_trailers(self@, trailers),
    {
        let key = self.opaque.key;
        let frame = Trailers { stream_id: streams.store.resolve(key).id, payload: trailers };
        Step::Call {
            call: Call::Counts(CountsCall::TransitionStart { key }),
            pending: Pending::Send(SendPending::TrailersStart { key, frame }),
        }
    }

    /// Resets the stream, in a transition of it.
    pub fn send_reset<P>(&self, streams: &Streams, reason: Reason) -> (step: Step<P>)
        requires
            streams@.store.holds(self@),
        ensures
            step == streams@.reset::<P>(self@, reason),
    {
        let key = self.opaque.key;
        Step::Call {
            call: Call::Counts(CountsCall::TransitionStart { key }),
            pending: Pending::Send(SendPending::ResetStart { key, reason }),
        }
    }

    /// Sends a response: in a transition of the stream, it is converted to headers, and these are
    /// sent.
    pub fn send_response<P>(&self, streams: &Streams, response: P, end_of_stream: bool) -> (step:
        Step<P>)
        requires
            streams@.store.holds(self@),
        ensures
            step == streams@.send_response(self@, response, end_of_stream),
    {
        let key = self.opaque.key;
        let stream_id = streams.store.resolve(key).id;
        Step::Call {
            call: Call::Counts(CountsCall::TransitionStart { key }),
            pending: Pending::Send(
                SendPending::ResponseStart { key, stream_id, response, end_of_stream },
            ),
        }
    }

    /// Hands out the request that a stream which was accepted started with. The reply is the
    /// result.
    pub fn take_request<P>(&self, streams: &Streams) -> (call: Call<P>)
        requires
            streams@.store.holds(self@),
        ensures
            call == Call::<P>::Recv(RecvCall::TakeRequest { key: self@ }),
    {
        Call::Recv(RecvCall::TakeRequest { key: self.opaque.key })
    }

    /// Whether the stream waits for the remote to allow one more.
    pub fn is_pending_open(&self, streams: &Streams) -> (r: bool)
        requires
            streams@.store.holds(self@),
        ensures
            r == streams@.store.streams[self@].is_pending_open,
    {
        streams.store.resolve(self.opaque.key).is_pending_open
    }

    /// Asks for capacity to send.
    pub fn reserve_capacity<P>(&self, streams: &Streams, capacity: WindowSize) -> (call: Call<P>)
        requires
            streams@.store.holds(self@),
        ensures
            call == Call::<P>::Send(SendCall::ReserveCapacity { key: self@, capacity }),
    {
        Call::Send(SendCall::ReserveCapacity { key: self.opaque.key, capacity })
    }

    /// The capacity to send at once. The reply is the result.
    pub fn capacity<P>(&self, streams: &Streams) -> (call: Call<P>)
        requires
            streams@.store.holds(self@),
        ensures
            call == Call::<P>::Send(SendCall::Capacity { key: self@ }),
    {
        Call::Send(SendCall::Capacity { key: self.opaque.key })
    }

    /// The capacity to send, once it grows. The reply is the result.
    pub fn poll_capacity<P>(&self, streams: &Streams) -> (call: Call<P>)
        requires
            streams@.store.holds(self@),
        ensures
            call == Call::<P>::Send(SendCall::PollCapacity { key: self@ }),
    {
        Call::Send(SendCall::PollCapacity { key: self.opaque.key })
    }

    /// The stream that the handle refers to.
    pub fn key(&self) -> (r: Key)
        ensures
            r == self@,
    {
        self.opaque.key
    }

    /// Another handle to the stream, that can only receive.
    pub fn clone_to_opaque(&self, streams: &mut Streams) -> (r: OpaqueStreamRef)
        requires
            old(streams).wf(),
            old(streams)@.can_ref_inc(self@),
        ensures
            final(streams).wf(),
            final(streams)@ == old(streams)@.ref_inc(self@),
            r@ == self@,
    {
        self.opaque.clone(streams)
    }

    /// Another handle to the stream.
    pub fn clone(&self, streams: &mut Streams) -> (r: StreamRef)
        requires
            old(streams).wf(),
            old(streams)@.can_ref_inc(self@),
        ensures
            final(streams).wf(),
            final(streams)@ == old(streams)@.ref_inc(self@),
            r@ == self@,
    {
        StreamRef { opaque: self.opaque.clone(streams) }
    }

    /// Lets go of the stream, like [`OpaqueStreamRef::drop`].
    pub fn drop<P>(self, streams: &mut Streams) -> (step: Step<P>)
        requires
            old(streams).wf(),
            old(streams)@.can_ref_dec(self@),
        ensures
            final(streams).wf(),
            final(streams)@ == old(streams)@.ref_dec(self@),
            step == old(streams)@.dropped::<P>(self@),
    {
        self.opaque.drop(streams)
    }
}

/// Counts one handle less to the stream under `key`. Then, in a transition of the stream, it is
/// reset in time if nobody waits for it any more.
fn drop_stream_ref<P>(streams: &mut Streams, key: Key) -> (step: Step<P>)
    requires
        old(streams).wf(),
        old(streams)@.can_ref_dec(key),
    ensures
        final(streams).wf(),
        final(streams)@ == old(streams)@.ref_dec(key),
        step == old(streams)@.dropped::<P>(key),
{
    streams.store.resolve_mut(key).ref_dec();
    Step::Call {
        call: Call::Counts(CountsCall::TransitionStart { key }),
        pending: Pending::Send(SendPending::DropStart { key }),
    }
}

impl OpaqueStreamRef {
    /// A new handle, which the stream under `key` counts.
    fn new(streams: &mut Streams, key: Key) -> (r: OpaqueStreamRef)
        requires
            old(streams).wf(),
            old(streams)@.can_ref_inc(key),
        ensures
            final(streams).wf(),
            final(streams)@ == old(streams)@.ref_inc(key),
            r@ == key,
    {
        streams.store.resolve_mut(key).ref_inc();
        OpaqueStreamRef { key }
    }

    /// The stream that the handle refers to.
    pub fn key(&self) -> (r: Key)
        ensures
            r == self@,
    {
        self.key
    }

    /// Hands out the response, once it has arrived. The reply is the result.
    pub fn poll_response<P>(&self, streams: &Streams) -> (call: Call<P>)
        requires
            streams@.store.holds(self@),
        ensures
            call == Call::<P>::Recv(RecvCall::PollResponse { key: self@ }),
    {
        Call::Recv(RecvCall::PollResponse { key: self.key })
    }

    /// Whether no data will come. The reply is the result.
    pub fn body_is_empty<P>(&self, streams: &Streams) -> (call: Call<P>)
        requires
            streams@.store.holds(self@),
        ensures
            call == Call::<P>::Recv(RecvCall::BodyIsEmpty { key: self@ }),
    {
        Call::Recv(RecvCall::BodyIsEmpty { key: self.key })
    }

    /// Whether everything has been received and handed out. The reply is the result.
    pub fn is_end_stream<P>(&self, streams: &Streams) -> (call: Call<P>)
        requires
            streams@.store.holds(self@),
        ensures
            call == Call::<P>::Recv(RecvCall::IsEndStream { key: self@ }),
    {
        Call::Recv(RecvCall::IsEndStream { key: self.key })
    }

    /// Hands out data, once they have arrived. The reply is the result.
    pub fn poll_data<P>(&self, streams: &Streams) -> (call: Call<P>)
        requires
            streams@.store.holds(self@),
        ensures
            call == Call::<P>::Recv(RecvCall::PollData { key: self@ }),
    {
        Call::Recv(RecvCall::PollData { key: self.key })
    }

    /// Hands out the trailers, once they have arrived. The reply is the result.
    pub fn poll_trailers<P>(&self, streams: &Streams) -> (call: Call<P>)
        requires
            streams@.store.holds(self@),
        ensures
            call == Call::<P>::Recv(RecvCall::PollTrailers { key: self@ }),
    {
        Call::Recv(RecvCall::PollTrailers { key: self.key })
    }

    /// Gives capacity back to the remote, which may be sent window updates for the stream and for
    /// the connection. The reply is the result.
    pub fn release_capacity<P>(&self, streams: &Streams, capacity: WindowSize) -> (call: Call<P>)
        requires
            streams@.store.holds(self@),
        ensures
            call == Call::<P>::Recv(RecvCall::ReleaseCapacity { key: self@, capacity }),
    {
        Call::Recv(RecvCall::ReleaseCapacity { key: self.key, capacity })
    }

    /// What is shown of a handle: the identifier of its stream, and how many handles there are.
    pub fn describe(&self, streams: &Streams) -> (r: (StreamId, usize))
        requires
            streams@.store.holds(self@),
        ensures
            r.0 == streams@.store.streams[self@].id,
            r.1 == streams@.store.streams[self@].ref_count,
    {
        let stream = streams.store.resolve(self.key);
        (stream.id, stream.ref_count)
    }

    /// Another handle to the stream.
    pub fn clone(&self, streams: &mut Streams) -> (r: OpaqueStreamRef)
        requires
            old(streams).wf(),
            old(streams)@.can_ref_inc(self@),
        ensures
            final(streams).wf(),
            final(streams)@ == old(streams)@.ref_inc(self@),
            r@ == self@,
    {
        OpaqueStreamRef::new(streams, self.key)
    }

    /// Lets go of the stream. If nobody waits for it any more, it is reset in time.
    pub fn drop<P>(self, streams: &mut Streams) -> (step: Step<P>)
        requires
            old(streams).wf(),
            old(streams)@.can_ref_dec(self@),
        ensures
            final(streams).wf(),
            final(streams)@ == old(streams)@.ref_dec(self@),
            step == old(streams)@.dropped::<P>(self@),
    {
        drop_stream_ref(streams, self.key)
    }
}

} // verus!
