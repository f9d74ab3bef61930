//! The streams that are kept, and how they are found.
use crate::call::{Call, CountsCall, RecvCall, Reply, SendCall};
use crate::error::RecvError;
use crate::frame::{Data, Headers, PushPromise, Reason, Reset, StreamId, WindowUpdate};
use crate::peer::Dyn;
use crate::step::{Outcome, Pending, Step};
use crate::store::{Key, Link, StoreView, Stream};
use crate::streams::StreamsView;
use vstd::prelude::*;

verus! {

/// The link of an identifier is the only one, so it says which stream the identifier leads to.
pub proof fn law_link_leads(s: StoreView, i: int)
    requires
        s.wf(),
        0 <= i < s.links.len(),
    ensures
        s.key_of(s.links[i].id) == Some(s.links[i].key),
{
    assert(s.links_at(i, s.links[i].id));
}

/// An identifier that no link is for leads nowhere.
pub proof fn law_no_link_leads_nowhere(s: StoreView, id: StreamId)
    requires
        forall|i: int| 0 <= i < s.links.len() ==> #[trigger] s.links[i].id != id,
    ensures
        !s.is_linked(id),
        s.key_of(id) is None,
{
}

/// A frame reaches the stream that its identifier is linked to, whatever else there is to the frame,
/// the stream or the connection: the first call of the operation is for that stream. Only a frame
/// for stream zero, and a promise to a server, do not get that far.
pub proof fn law_frame_reaches_its_stream<P>(
    s: StreamsView,
    i: int,
    headers: Headers<P>,
    data: Data<P>,
    reset: Reset,
    update: WindowUpdate,
    promise: PushPromise<P>,
    reason: Reason,
)
    requires
        s.store.wf(),
        0 <= i < s.store.links.len(),
        headers.stream_id == s.store.links[i].id,
        data.stream_id == s.store.links[i].id,
        reset.stream_id == s.store.links[i].id,
        update.stream_id == s.store.links[i].id,
        promise.stream_id == s.store.links[i].id,
    ensures
        ({
            let id = s.store.links[i].id;
            let key = s.store.links[i].key;
            let start = Call::<P>::Counts(CountsCall::TransitionStart { key });
            let widen = SendCall::RecvStreamWindowUpdate {
                key,
                size_increment: update.size_increment,
            };
            &&& s.recv_headers(headers) matches Step::Call { call, .. } && call == start
            &&& s.recv_data(data) matches Step::Call { call, .. } && call == start
            &&& s.send_reset::<P>(id, reason) matches Step::Call { call, .. } && call == start
            &&& id.value != 0 ==> {
                &&& s.recv_reset::<P>(reset) matches Step::Call { call, .. } && call == start
                &&& s.recv_window_update::<P>(update) matches Step::Call { call, .. } && call
                    == Call::<P>::Send(widen)
            }
            &&& s.peer == Dyn::Client ==> {
                &&& s.recv_push_promise(promise) matches Step::Call { call, .. }
                &&& call == Call::Recv(RecvCall::PushPromise { key, frame: promise })
            }
        }),
{
    law_link_leads(s.store, i);
}

/// A frame whose identifier is linked to no stream reaches none: headers and a reset to be sent ask
/// whether the stream may be opened, data and promises break the protocol, and a reset or a window
/// update asks the half of the end that opens such streams.
pub proof fn law_frame_without_a_stream<P>(
    s: StreamsView,
    id: StreamId,
    headers: Headers<P>,
    data: Data<P>,
    reset: Reset,
    update: WindowUpdate,
    promise: PushPromise<P>,
    reason: Reason,
)
    requires
        forall|i: int| 0 <= i < s.store.links.len() ==> #[trigger] s.store.links[i].id != id,
        headers.stream_id == id,
        data.stream_id == id,
        reset.stream_id == id,
        update.stream_id == id,
        promise.stream_id == id,
    ensures
        ({
            let open = Call::<P>::Recv(RecvCall::Open { id });
            let violation = Step::<P>::Done(
                Outcome::Received(Err(RecvError::Connection(Reason { code: 1 }))),
            );
            let is_local = match s.peer {
                Dyn::Server => id.value % 2 == 0,
                Dyn::Client => id.value % 2 == 1,
            };
            let question = if is_local {
                Call::<P>::Send(SendCall::EnsureNotIdle { id })
            } else {
                Call::<P>::Recv(RecvCall::EnsureNotIdle { id })
            };
            &&& s.recv_headers(headers) matches Step::Call { call, .. } && call == open
            &&& s.send_reset::<P>(id, reason) matches Step::Call { call, .. } && call == open
            &&& s.recv_data(data) == violation
            &&& s.recv_push_promise(promise) == violation
            &&& id.value != 0 ==> {
                &&& s.recv_reset::<P>(reset) matches Step::Call { call, .. } && call == question
                &&& s.recv_window_update::<P>(update) matches Step::Call { call, .. } && call
                    == question
            }
        }),
{
    law_no_link_leads_nowhere(s.store, id);
}

/// What is for stream zero is for the connection as a whole, whatever streams there are: a window
/// update widens its window, and a reset breaks the protocol. Nothing else is taken so.
pub proof fn law_stream_zero<P>(s: StreamsView, reset: Reset, update: WindowUpdate)
    ensures
        update.stream_id.value == 0 <==> s.recv_window_update::<P>(update) matches Step::Call {
            call: Call::Send(SendCall::RecvConnectionWindowUpdate { .. }),
            ..
        },
        update.stream_id.value == 0 ==> {
            &&& s.recv_window_update::<P>(update) matches Step::Call { call, .. }
            &&& call == Call::<P>::Send(SendCall::RecvConnectionWindowUpdate { frame: update })
        },
        reset.stream_id.value == 0 <==> s.recv_reset::<P>(reset) == Step::<P>::Done(
            Outcome::Received(Err(RecvError::Connection(Reason { code: 1 }))),
        ),
{
}

/// A stream that was added is found by its identifier, and every other identifier leads where it
/// led before.
pub proof fn law_added_is_found(
    s: StreamsView,
    id: StreamId,
    key: Key,
    stream: Stream,
    t: StreamsView,
    other: StreamId,
)
    requires
        s.store.wf(),
        !s.store.is_linked(id),
        s.adds(id, key, stream, t),
    ensures
        t.store.wf(),
        t.store.key_of(id) == Some(key),
        t.store.streams[key] == stream,
        other != id ==> t.store.key_of(other) == s.store.key_of(other),
{
    let n = s.store.links.len() as int;
    assert forall|i: int| 0 <= i < n implies #[trigger] t.store.links[i].id != id by {
        assert(!s.store.links_at(i, id));
        assert(t.store.links[i] == s.store.links[i]);
    }
    assert forall|i: int| 0 <= i < t.store.links.len() implies t.store.holds(
        #[trigger] t.store.links[i].key,
    ) by {
        if i < n {
            assert(s.store.holds(s.store.links[i].key));
        }
    }
    assert(t.store.links[n] == Link { id, key });
    law_link_leads(t.store, n);
    if other != id {
        if s.store.is_linked(other) {
            let i = choose|i: int| s.store.links_at(i, other);
            law_link_leads(s.store, i);
            law_link_leads(t.store, i);
        } else if t.store.is_linked(other) {
            let i = choose|i: int| t.store.links_at(i, other);
            assert(s.store.links_at(i, other));
        }
    }
}

/// A stream that is still there, and is the same stream: only who waits for it and how many handles
/// it counts may differ.
pub open spec fn survives(s: StreamsView, t: StreamsView, key: Key) -> bool {
    let stream = s.store.streams[key];
    let after = t.store.streams[key];
    &&& t.store.holds(key)
    &&& after == Stream { send_task: after.send_task, ref_count: after.ref_count, ..stream }
}

/// An operation that goes on takes no stream away and leaves every stream what it is. It adds at
/// most one stream, behind all others.
pub proof fn law_streams_survive<P>(
    pending: Pending<P>,
    s: StreamsView,
    reply: Reply<P>,
    t: StreamsView,
    step: Step<P>,
    key: Key,
)
    requires
        s.store.wf(),
        pending.awaits(s, reply),
        pending.resumes(s, reply, t, step),
    ensures
        t.store.wf(),
        s.store.holds(key) ==> survives(s, t, key),
        t.store.links == s.store.links || exists|link: Link|
            !s.store.holds(link.key) && !s.store.is_linked(link.id) && t.store.links
                == #[trigger] s.store.links.push(link),
{
    if t.store.links != s.store.links {
        let (id, added, stream) = choose|id: StreamId, added: Key, stream: Stream|
            !s.store.is_linked(id) && #[trigger] s.adds(id, added, stream, t);
        assert(exists|id: StreamId, added: Key, stream: Stream|
            !s.store.is_linked(id) && #[trigger] s.adds(id, added, stream, t));
        law_added_is_found(s, id, added, stream, t, id);
        assert(t.store.links == s.store.links.push(Link { id, key: added }));
    }
}

} // verus!
