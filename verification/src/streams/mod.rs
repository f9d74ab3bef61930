//! The coordinator.
use crate::error::Error;
use crate::call::Reply;
use crate::frame::StreamId;
use crate::peer::Dyn;
use crate::step::{Pending, Step};
use crate::store::{Key, Link, Store, StoreView, Stream};
use futures::task::Task;
use vstd::prelude::*;

pub mod accept;
pub mod handle;
pub mod poll;
pub mod recv;
pub mod request;
pub mod send;
pub mod sweep;

verus! {

/// What concerns the connection as a whole.
#[derive(Debug)]
pub(crate) struct Actions {
    /// The task that writes the frames of the connection.
    pub(crate) task: Option<Task>,
    /// If the connection fails, a copy of the error is kept for every handle.
    pub(crate) conn_error: Option<Error>,
}

/// The streams of one connection.
#[derive(Debug)]
pub struct Streams {
    peer: Dyn,
    actions: Actions,
    store: Store,
}

/// What there is to know of [`Streams`].
#[verifier::ext_equal]
pub struct StreamsView {
    pub peer: Dyn,
    pub task: Option<Task>,
    pub conn_error: Option<Error>,
    pub store: StoreView,
}

impl StreamsView {
    /// Whether `t` is the same with one more stream, linked last, under a key that was free.
    pub open spec fn adds(self, id: StreamId, key: Key, stream: Stream, t: StreamsView) -> bool {
        &&& !self.store.holds(key)
        &&& t == StreamsView { store: self.store.with_linked(id, key, stream), ..self }
    }

    /// Whether the stream under `key` is there and can count one more handle.
    pub open spec fn can_ref_inc(self, key: Key) -> bool {
        self.store.holds(key) && self.store.streams[key].ref_count < usize::MAX
    }

    /// The same with one handle more to the stream under `key`.
    pub open spec fn ref_inc(self, key: Key) -> StreamsView {
        let stream = self.store.streams[key];
        let counted = Stream { ref_count: (stream.ref_count + 1) as usize, ..stream };
        StreamsView { store: self.store.with(key, counted), ..self }
    }

    /// Whether the stream under `key` is there and counts a handle.
    pub open spec fn can_ref_dec(self, key: Key) -> bool {
        self.store.holds(key) && self.store.streams[key].ref_count > 0
    }

    /// The same with one handle less to the stream under `key`.
    pub open spec fn ref_dec(self, key: Key) -> StreamsView {
        let stream = self.store.streams[key];
        let counted = Stream { ref_count: (stream.ref_count - 1) as usize, ..stream };
        StreamsView { store: self.store.with(key, counted), ..self }
    }
}

impl Actions {
    /// The error that the connection has failed with, if it has.
    fn ensure_no_conn_error(&self) -> (r: Result<(), Error>)
        ensures
            r == match self.conn_error {
                Some(err) => Err(err),
                None => Ok(()),
            },
    {
        match &self.conn_error {
            Some(err) => Err(err.shallow_clone()),
            None => Ok(()),
        }
    }
}

impl View for Streams {
    type V = StreamsView;

    closed spec fn view(&self) -> StreamsView {
        StreamsView {
            peer: self.peer,
            task: self.actions.task,
            conn_error: self.actions.conn_error,
            store: self.store@,
        }
    }
}

impl Streams {
    /// What holds of the streams between any two operations.
    pub closed spec fn wf(&self) -> bool {
        self.store.wf()
    }

    /// What well-formed streams show of themselves: their store is as the laws on it ask.
    pub broadcast proof fn lemma_wf(&self)
        requires
            #[trigger] self.wf(),
        ensures
            self@.store.wf(),
    {
        self.store.lemma_wf();
    }

    /// A connection without streams, of the given end.
    pub fn new(peer: Dyn) -> (r: Streams)
        ensures
            r.wf(),
            r@.peer == peer,
            r@.task is None,
            r@.conn_error is None,
            r@.store.streams == Map::<Key, Stream>::empty(),
            r@.store.links == Seq::<Link>::empty(),
    {
        Streams { peer, actions: Actions { task: None, conn_error: None }, store: Store::new() }
    }

    /// Adds a stream.
    fn add(&mut self, id: StreamId, stream: Stream) -> (key: Key)
        requires
            old(self).wf(),
            !old(self)@.store.is_linked(id),
        ensures
            final(self).wf(),
            old(self)@.adds(id, key, stream, final(self)@),
    {
        self.store.insert(id, stream)
    }

    /// Which end of the connection this is.
    pub fn peer(&self) -> (r: Dyn)
        ensures
            r == self@.peer,
    {
        self.peer
    }

    /// The error that the connection has failed with, if it has.
    pub fn conn_error(&self) -> (r: Option<Error>)
        ensures
            r == self@.conn_error,
    {
        self.actions.conn_error
    }

    /// The streams, for the one who makes a call.
    pub fn store(&self) -> (r: &Store)
        requires
            self.wf(),
        ensures
            r@ == self@.store,
            r.wf(),
    {
        &self.store
    }

    /// The streams, for the one who makes a call and changes them.
    pub fn store_mut(&mut self) -> (r: &mut Store)
        requires
            old(self).wf(),
        ensures
            r@ == old(self)@.store,
            r.wf(),
            final(self)@ == (StreamsView { store: final(r)@, ..old(self)@ }),
            final(r).wf() ==> final(self).wf(),
    {
        &mut self.store
    }

    /// The task that writes, for the one who makes a call and wakes it.
    pub fn task_mut(&mut self) -> (r: &mut Option<Task>)
        ensures
            *r == old(self)@.task,
            final(self)@ == (StreamsView { task: *final(r), ..old(self)@ }),
            old(self).wf() ==> final(self).wf(),
    {
        &mut self.actions.task
    }

    /// Goes on with an operation, once the call that it waits for has been replied to.
    pub fn resume<P>(&mut self, pending: Pending<P>, reply: Reply<P>) -> (step: Step<P>)
        requires
            old(self).wf(),
            pending.awaits(old(self)@, reply),
        ensures
            final(self).wf(),
            pending.resumes(old(self)@, reply, final(self)@, step),
    {
        match pending {
            Pending::Recv(pending) => self.resume_recv(pending, reply),
            Pending::Sweep(pending) => self.resume_sweep(pending, reply),
            Pending::Request(pending) => self.resume_request(pending, reply),
            Pending::Send(pending) => self.resume_send(pending, reply),
            Pending::Poll(pending) => self.resume_poll(pending, reply),
        }
    }
}

} // verus!
