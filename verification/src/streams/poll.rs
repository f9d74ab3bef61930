//! The connection as a whole.
use crate::call::{Call, Polled, RecvCall, Reply, SendCall};
use crate::frame::WindowSize;
use crate::step::{Outcome, Pending, Step};
use crate::streams::handle::StreamRef;
use crate::streams::{Streams, StreamsView};
use vstd::prelude::*;

verus! {

/// What an operation on the connection waits for.
#[derive(Clone, Copy, Debug, PartialEq, Eq)]
pub enum PollPending {
    /// The next stream to accept.
    NextIncoming,
    /// The writing of the window updates.
    Recv,
    /// The writing of the other frames.
    Send,
    /// The task that writes.
    Task,
}

impl PollPending {
    /// Whether an operation that waits with `self` can go on with `reply`, when the streams are as
    /// `s` says: it is of the kind that was asked for, and a stream to accept is there to be given
    /// a handle to.
    pub open spec fn awaits<P>(self, s: StreamsView, reply: Reply<P>) -> bool {
        match self {
            PollPending::NextIncoming => {
                &&& reply is Incoming
                &&& reply->Incoming_0 matches Some(key) ==> s.can_ref_inc(key)
            },
            PollPending::Recv => reply is Polled,
            PollPending::Send => reply is Polled,
            PollPending::Task => reply is Task,
        }
    }

    /// Whether the operation goes on with `reply` as `step` says, when the streams are as `s` says
    /// before and as `t` says afterwards. A stream that is accepted counts a handle. Window
    /// updates are written before other frames, and only when all is written is the task kept.
    pub open spec fn resumes<P>(
        self,
        s: StreamsView,
        reply: Reply<P>,
        t: StreamsView,
        step: Step<P>,
    ) -> bool {
        match (self, reply) {
            (PollPending::NextIncoming, Reply::Incoming(Some(key))) => {
                &&& t == s.ref_inc(key)
                &&& step matches Step::Done(Outcome::Incoming(Some(handle)))
                &&& handle@ == key
            },
            (PollPending::NextIncoming, _) => {
                &&& t == s
                &&& step == Step::<P>::Done(Outcome::Incoming(None))
            },
            (PollPending::Task, Reply::Task(task)) => {
                &&& t == StreamsView { task: Some(task), ..s }
                &&& step == Step::<P>::Done(Outcome::Polled(Polled::Ready))
            },
            (PollPending::Recv, Reply::Polled(Polled::Ready)) => {
                &&& t == s
                &&& step == (Step::<P>::Call {
                    call: Call::Send(SendCall::PollComplete),
                    pending: Pending::Poll(PollPending::Send),
                })
            },
            (PollPending::Send, Reply::Polled(Polled::Ready)) => {
                &&& t == s
                &&& step == (Step::<P>::Call {
                    call: Call::CurrentTask,
                    pending: Pending::Poll(PollPending::Task),
                })
            },
            (_, Reply::Polled(polled)) => t == s && step == Step::<P>::Done(Outcome::Polled(polled)),
            _ => arbitrary(),
        }
    }
}

impl StreamsView {
    /// See [`Streams::next_incoming`].
    pub open spec fn next_incoming<P>(self) -> Step<P> {
        Step::Call {
            call: Call::Recv(RecvCall::NextIncoming),
            pending: Pending::Poll(PollPending::NextIncoming),
        }
    }

    /// See [`Streams::poll_complete`].
    pub open spec fn poll_complete<P>(self) -> Step<P> {
        Step::Call {
            call: Call::Recv(RecvCall::PollComplete),
            pending: Pending::Poll(PollPending::Recv),
        }
    }
}

impl Streams {
    /// Aims for a connection window of `size`.
    pub fn set_target_connection_window_size<P>(&self, size: WindowSize) -> (call: Call<P>)
        ensures
            call == Call::<P>::Recv(RecvCall::SetTargetConnectionWindow { size }),
    {
        Call::Recv(RecvCall::SetTargetConnectionWindow { size })
    }

    /// The last stream of the remote that was processed. The reply is the result.
    pub fn last_processed_id<P>(&self) -> (call: Call<P>)
        ensures
            call == Call::<P>::Recv(RecvCall::LastProcessedId),
    {
        Call::Recv(RecvCall::LastProcessedId)
    }

    /// A handle to the next stream to accept, if there is one.
    pub fn next_incoming<P>(&self) -> (step: Step<P>)
        ensures
            step == self@.next_incoming::<P>(),
    {
        Step::Call {
            call: Call::Recv(RecvCall::NextIncoming),
            pending: Pending::Poll(PollPending::NextIncoming),
        }
    }

    /// Writes the refusal of a stream, if one is due. The reply is the result.
    pub fn send_pending_refusal<P>(&self) -> (call: Call<P>)
        ensures
            call == Call::<P>::Recv(RecvCall::SendPendingRefusal),
    {
        Call::Recv(RecvCall::SendPendingRefusal)
    }

    /// Writes what is due: window updates first, then other frames. When all is written, the
    /// current task is kept, to be woken when there is more to write.
    pub fn poll_complete<P>(&self) -> (step: Step<P>)
        ensures
            step == self@.poll_complete::<P>(),
    {
        Step::Call {
            call: Call::Recv(RecvCall::PollComplete),
            pending: Pending::Poll(PollPending::Recv),
        }
    }

    /// How many streams are linked.
    pub fn num_active_streams(&self) -> (r: usize)
        ensures
            r == self@.store.links.len(),
    {
        self.store.num_active_streams()
    }

    /// How many streams are held, linked or not.
    pub fn num_wired_streams(&self) -> (r: usize)
        requires
            self.wf(),
        ensures
            r == self@.store.streams.dom().len(),
    {
        self.store.num_wired_streams()
    }

    /// Goes on with an operation on the connection.
    pub(super) fn resume_poll<P>(&mut self, pending: PollPending, reply: Reply<P>) -> (step: Step<P>)
        requires
            old(self).wf(),
            pending.awaits(old(self)@, reply),
        ensures
            final(self).wf(),
            pending.resumes(old(self)@, reply, final(self)@, step),
    {
        match (pending, reply) {
            (PollPending::NextIncoming, Reply::Incoming(Some(key))) => {
                let handle = StreamRef::new(self, key);
                Step::Done(Outcome::Incoming(Some(handle)))
            },
            (PollPending::NextIncoming, _) => Step::Done(Outcome::Incoming(None)),
            (PollPending::Task, Reply::Task(task)) => {
                self.actions.task = Some(task);
                Step::Done(Outcome::Polled(Polled::Ready))
            },
            (PollPending::Recv, Reply::Polled(Polled::Ready)) => Step::Call {
                call: Call::Send(SendCall::PollComplete),
                pending: Pending::Poll(PollPending::Send),
            },
            (PollPending::Send, Reply::Polled(Polled::Ready)) => Step::Call {
                call: Call::CurrentTask,
                pending: Pending::Poll(PollPending::Task),
            },
            (_, Reply::Polled(polled)) => Step::Done(Outcome::Polled(polled)),
            _ => vstd::pervasive::unreached(),
        }
    }
}

} // verus!
