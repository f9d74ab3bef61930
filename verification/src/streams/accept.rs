//! Whether an operation can go on.
use crate::call::Reply;
use crate::frame::StreamId;
use crate::step::Pending;
use crate::store::Key;
use crate::streams::poll::PollPending;
use crate::streams::recv::RecvPending;
use crate::streams::request::RequestPending;
use crate::streams::send::SendPending;
use crate::streams::sweep::SweepPending;
use crate::streams::Streams;
use vstd::prelude::*;

verus! {

impl Streams {
    /// Whether `reply` is one that the operation can go on with, so that
    /// [`resume`](Streams::resume) may be called. One who makes the calls as they are described,
    /// with streams that are theirs alone meanwhile, has no need to ask.
    pub fn accepts<P>(&self, pending: &Pending<P>, reply: &Reply<P>) -> (r: bool)
        requires
            self.wf(),
        ensures
            r == pending.awaits(self@, *reply),
    {
        match pending {
            Pending::Recv(pending) => self.accepts_recv(pending, reply),
            Pending::Sweep(pending) => match pending {
                SweepPending::LastProcessedId { .. } => matches!(reply, Reply::Id(_)),
                _ => matches!(reply, Reply::Done),
            },
            Pending::Request(pending) => self.accepts_request(pending, reply),
            Pending::Send(pending) => self.accepts_send(pending, reply),
            Pending::Poll(pending) => match (pending, reply) {
                (PollPending::NextIncoming, Reply::Incoming(Some(key))) => self.can_ref_inc(*key),
                (PollPending::NextIncoming, Reply::Incoming(None)) => true,
                (PollPending::Recv, Reply::Polled(_)) => true,
                (PollPending::Send, Reply::Polled(_)) => true,
                (PollPending::Task, Reply::Task(_)) => true,
                _ => false,
            },
        }
    }

    /// Whether `id` leads to no stream.
    fn is_free(&self, id: StreamId) -> (r: bool)
        requires
            self.wf(),
        ensures
            r == !self@.store.is_linked(id),
    {
        self.store.find(id).is_none()
    }

    /// Whether the stream under `key` is there and can count one more handle.
    fn can_ref_inc(&self, key: Key) -> (r: bool)
        ensures
            r == self@.can_ref_inc(key),
    {
        self.store.contains(key) && self.store.resolve(key).ref_count < usize::MAX
    }

    /// Whether the stream under `key` is there, if one is given.
    fn contains(&self, key: &Option<Key>) -> (r: bool)
        ensures
            r == (key is Some ==> self@.store.holds(key->0)),
    {
        match key {
            Some(key) => self.store.contains(*key),
            None => true,
        }
    }

    /// See [`Streams::accepts`].
    fn accepts_recv<P>(&self, pending: &RecvPending<P>, reply: &Reply<P>) -> (r: bool)
        requires
            self.wf(),
        ensures
            r == pending.awaits(self@, *reply),
    {
        match (pending, reply) {
            (RecvPending::Open { .. }, Reply::Opened(_)) => true,
            (RecvPending::SendWindow { .. }, Reply::Window(_)) => true,
            (RecvPending::RecvWindow { frame, .. }, Reply::Window(_)) => self.is_free(
                frame.stream_id,
            ),
            (RecvPending::HeadersStart { .. }, Reply::Done) => true,
            (RecvPending::HeadersState { .. }, Reply::Flag(_)) => true,
            (RecvPending::DataStart { .. }, Reply::Done) => true,
            (RecvPending::Processed { .. }, Reply::Received(_)) => true,
            (RecvPending::Answered { .. }, Reply::Done) => true,
            (RecvPending::ResetStart { .. }, Reply::Done) => true,
            (RecvPending::ResetProcessed { .. }, Reply::Received(_)) => true,
            (RecvPending::ResetClosed { .. }, Reply::Flag(closed)) => *closed,
            (RecvPending::End { .. }, Reply::Done) => true,
            (RecvPending::Checked, Reply::Checked(_)) => true,
            (RecvPending::Ignored, Reply::Checked(_)) => true,
            (RecvPending::Decided, Reply::Received(_)) => true,
            (RecvPending::SettingsCounted { .. }, Reply::Done) => true,
            _ => false,
        }
    }

    /// See [`Streams::accepts`].
    fn accepts_request<P>(&self, pending: &RequestPending<P>, reply: &Reply<P>) -> (r: bool)
        requires
            self.wf(),
        ensures
            r == pending.awaits(self@, *reply),
    {
        match (pending, reply) {
            (RequestPending::NextStreamId { pending, .. }, Reply::Allowed(Ok(()))) => self.contains(
                pending,
            ),
            (RequestPending::NextStreamId { .. }, Reply::Allowed(Err(_))) => true,
            (RequestPending::Open { .. }, Reply::Assigned(_)) => true,
            (RequestPending::SendWindow { .. }, Reply::Window(_)) => true,
            (RequestPending::RecvWindow { .. }, Reply::Window(_)) => true,
            (RequestPending::Convert { stream_id, .. }, Reply::Converted(Ok(_))) => self.is_free(
                *stream_id,
            ),
            (RequestPending::Convert { .. }, Reply::Converted(Err(_))) => true,
            (RequestPending::Headers { .. }, Reply::Allowed(_)) => true,
            (RequestPending::Started { key }, Reply::Flag(closed)) => !*closed && self.can_ref_inc(
                *key,
            ),
            (RequestPending::ReadyNextStreamId { key }, Reply::Allowed(Ok(()))) => self.contains(
                key,
            ),
            (RequestPending::ReadyNextStreamId { .. }, Reply::Allowed(Err(_))) => true,
            (RequestPending::ReadyTask { key }, Reply::Task(_)) => self.store.contains(*key),
            _ => false,
        }
    }

    /// See [`Streams::accepts`].
    fn accepts_send<P>(&self, pending: &SendPending<P>, reply: &Reply<P>) -> (r: bool)
        requires
            self.wf(),
        ensures
            r == pending.awaits(self@, *reply),
    {
        match (pending, reply) {
            (SendPending::ResetOpen { id, .. }, Reply::Opened(Ok(Some(_)))) => self.is_free(*id),
            (SendPending::ResetOpen { .. }, Reply::Opened(_)) => true,
            (SendPending::ResetOpen { .. }, _) => false,
            (SendPending::ResponseConverted { .. }, _) => matches!(reply, Reply::Frame(_)),
            (SendPending::Sent { .. }, _) => matches!(reply, Reply::Allowed(_)),
            (SendPending::DropState { .. }, _) => matches!(reply, Reply::Flag(_)),
            _ => matches!(reply, Reply::Done),
        }
    }
}

} // verus!
