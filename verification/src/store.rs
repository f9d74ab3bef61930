//! Where the streams of a connection are kept.
//!
//! A stream is reached by its [`Key`] for as long as it is held. While it is linked, it is reached
//! by a stream identifier too.
use crate::frame::{StreamId, WindowSize};
use futures::task::Task;
use vstd::prelude::*;

verus! {

/// What is known of the length of the body that a stream receives.
#[derive(Clone, Copy, Debug, PartialEq, Eq, Structural)]
pub enum ContentLength {
    /// Nothing was said of it.
    Omitted,
    /// The stream answers a HEAD request, so there is no body, whatever length is announced.
    Head,
    /// So many octets are still to come.
    Remaining(u64),
}

/// What the coordinator and the two halves of the connection share of a stream.
#[derive(Debug)]
pub struct Stream {
    pub id: StreamId,
    /// The send window that the stream started with.
    pub init_send_window: WindowSize,
    /// The receive window that the stream started with.
    pub init_recv_window: WindowSize,
    pub content_length: ContentLength,
    /// Whether the stream waits for the remote to allow one more.
    pub is_pending_open: bool,
    /// The task to wake when the stream makes progress in sending.
    pub send_task: Option<Task>,
    /// How many handles refer to the stream.
    pub ref_count: usize,
}

impl Stream {
    /// See [`Stream::new`].
    pub open spec fn fresh(id: StreamId, send_window: WindowSize, recv_window: WindowSize) -> Stream {
        Stream {
            id,
            init_send_window: send_window,
            init_recv_window: recv_window,
            content_length: ContentLength::Omitted,
            is_pending_open: false,
            send_task: None,
            ref_count: 0,
        }
    }

    /// A stream that no handle refers to yet.
    pub fn new(id: StreamId, send_window: WindowSize, recv_window: WindowSize) -> (r: Stream)
        ensures
            r == Self::fresh(id, send_window, recv_window),
            r.id == id,
            r.init_send_window == send_window,
            r.init_recv_window == recv_window,
            r.content_length == ContentLength::Omitted,
            !r.is_pending_open,
            r.send_task is None,
            r.ref_count == 0,
    {
        Stream {
            id,
            init_send_window: send_window,
            init_recv_window: recv_window,
            content_length: ContentLength::Omitted,
            is_pending_open: false,
            send_task: None,
            ref_count: 0,
        }
    }

    /// Counts one more handle.
    pub fn ref_inc(&mut self)
        requires
            old(self).ref_count < usize::MAX,
        ensures
            *final(self) == (Stream { ref_count: (old(self).ref_count + 1) as usize, ..*old(self) }),
    {
        self.ref_count = self.ref_count + 1;
    }

    /// Counts one handle less.
    pub fn ref_dec(&mut self)
        requires
            old(self).ref_count > 0,
        ensures
            *final(self) == (Stream { ref_count: (old(self).ref_count - 1) as usize, ..*old(self) }),
    {
        self.ref_count = self.ref_count - 1;
    }
}

/// The place of a stream in a [`Store`].
#[derive(Clone, Copy, Debug, PartialEq, Eq, Structural)]
pub struct Key {
    index: usize,
}

/// An identifier, and the stream that it leads to.
#[derive(Clone, Copy, Debug, PartialEq, Eq, Structural)]
pub struct Link {
    pub id: StreamId,
    pub key: Key,
}

/// The streams by key, and the links in the order in which they are walked.
#[verifier::ext_equal]
pub struct StoreView {
    pub streams: Map<Key, Stream>,
    pub links: Seq<Link>,
}

impl StoreView {
    /// Whether `key` leads to a stream.
    pub open spec fn holds(self, key: Key) -> bool {
        self.streams.contains_key(key)
    }

    /// Whether the `i`th link is the one of `id`.
    pub open spec fn links_at(self, i: int, id: StreamId) -> bool {
        0 <= i < self.links.len() && self.links[i].id == id
    }

    /// Whether `id` leads to a stream.
    pub open spec fn is_linked(self, id: StreamId) -> bool {
        exists|i: int| self.links_at(i, id)
    }

    /// The key that `id` leads to.
    pub open spec fn key_of(self, id: StreamId) -> Option<Key> {
        if self.is_linked(id) {
            Some(self.links[choose|i: int| self.links_at(i, id)].key)
        } else {
            None
        }
    }

    /// Every link leads to a stream that is held, and no identifier and no stream has two.
    pub open spec fn wf(self) -> bool {
        &&& self.streams.dom().finite()
        &&& forall|i: int| 0 <= i < self.links.len() ==> self.holds(#[trigger] self.links[i].key)
        &&& forall|i: int, j: int|
            #![trigger self.links[i], self.links[j]]
            0 <= i < j < self.links.len() ==> {
                &&& self.links[i].id != self.links[j].id
                &&& self.links[i].key != self.links[j].key
            }
    }

    /// The same store with another stream under `key`.
    pub open spec fn with(self, key: Key, stream: Stream) -> StoreView {
        StoreView { streams: self.streams.insert(key, stream), ..self }
    }

    /// The same store with one more stream, linked last.
    pub open spec fn with_linked(self, id: StreamId, key: Key, stream: Stream) -> StoreView {
        StoreView {
            streams: self.streams.insert(key, stream),
            links: self.links.push(Link { id, key }),
        }
    }

    /// The keys of the linked streams, in order.
    pub open spec fn linked_keys(self) -> Seq<Key> {
        self.links.map_values(|l: Link| l.key)
    }
}

/// The keys of the taken places among the first `n`.
spec fn keys_below(slots: Seq<Option<Stream>>, n: nat) -> Set<Key> {
    Set::new(|key: Key| key.index < n && slots[key.index as int] is Some)
}

/// No more places are taken than there are.
proof fn lemma_keys_below(slots: Seq<Option<Stream>>, n: nat)
    requires
        n <= slots.len() <= usize::MAX,
    ensures
        keys_below(slots, n).finite(),
        keys_below(slots, n).len() <= n,
    decreases n,
{
    if n == 0 {
        assert(keys_below(slots, n) =~= Set::empty());
    } else {
        let m = (n - 1) as nat;
        let last = Key { index: m as usize };
        lemma_keys_below(slots, m);
        if slots[m as int] is Some {
            assert(keys_below(slots, n) =~= keys_below(slots, m).insert(last));
        } else {
            assert(keys_below(slots, n) =~= keys_below(slots, m));
        }
    }
}

/// The streams of a connection.
#[derive(Debug)]
pub struct Store {
    slots: Vec<Option<Stream>>,
    /// Places in `slots` that are free.
    vacant: Vec<usize>,
    /// How many places in `slots` are taken.
    wired: usize,
    links: Vec<Link>,
}

impl View for Store {
    type V = StoreView;

    closed spec fn view(&self) -> StoreView {
        StoreView {
            streams: Map::new(
                |key: Key| key.index < self.slots@.len() && self.slots@[key.index as int] is Some,
                |key: Key| self.slots@[key.index as int]->0,
            ),
            links: self.links@,
        }
    }
}

impl Store {
    /// What holds of a store between any two operations.
    pub closed spec fn wf(&self) -> bool {
        &&& self@.wf()
        &&& self.wired == self@.streams.dom().len()
        &&& self.vacant@.no_duplicates()
        &&& forall|i: int|
            0 <= i < self.vacant@.len() ==> {
                &&& #[trigger] self.vacant@[i] < self.slots@.len()
                &&& self.slots@[self.vacant@[i] as int] is None
            }
    }

    /// What a well-formed store shows of itself.
    pub broadcast proof fn lemma_wf(&self)
        requires
            #[trigger] self.wf(),
        ensures
            self@.wf(),
    {
    }

    /// A store with no streams.
    pub fn new() -> (r: Store)
        ensures
            r.wf(),
            r@.streams == Map::<Key, Stream>::empty(),
            r@.links == Seq::<Link>::empty(),
    {
        let r = Store { slots: Vec::new(), vacant: Vec::new(), wired: 0, links: Vec::new() };
        assert(r@.streams =~= Map::<Key, Stream>::empty());
        r
    }

    /// Whether `key` leads to a stream.
    pub fn contains(&self, key: Key) -> (r: bool)
        ensures
            r == self@.holds(key),
            r == self@.streams.contains_key(key),
    {
        key.index < self.slots.len() && self.slots[key.index].is_some()
    }

    /// The stream under `key`.
    pub fn resolve(&self, key: Key) -> (r: &Stream)
        requires
            self@.holds(key),
        ensures
            *r == self@.streams[key],
    {
        self.slots[key.index].as_ref().unwrap()
    }

    /// The stream under `key`, to change it.
    pub fn resolve_mut(&mut self, key: Key) -> (r: &mut Stream)
        requires
            old(self).wf(),
            old(self)@.holds(key),
        ensures
            *r == old(self)@.streams[key],
            final(self)@ == old(self)@.with(key, *final(r)),
            final(self)@.streams == old(self)@.streams.insert(key, *final(r)),
            final(self)@.links == old(self)@.links,
            final(self).wf(),
    {
        let slot = &mut self.slots[key.index];
        slot.as_mut().unwrap()
    }

    /// The stream that `id` leads to.
    pub fn find(&self, id: StreamId) -> (r: Option<Key>)
        requires
            self.wf(),
        ensures
            r == self@.key_of(id),
            r matches Some(key) ==> self@.holds(key),
            r matches Some(key) ==> exists|i: int|
                0 <= i < self@.links.len() && #[trigger] self@.links[i] == (Link { id, key }),
            r is None ==> forall|i: int|
                0 <= i < self@.links.len() ==> #[trigger] self@.links[i].id != id,
    {
        let mut i: usize = 0;
        while i < self.links.len()
            invariant
                self.wf(),
                i <= self.links.len(),
                forall|j: int| 0 <= j < i ==> #[trigger] self.links@[j].id != id,
            decreases self.links.len() - i,
        {
            if self.links[i].id == id {
                assert(self@.links_at(i as int, id));
                return Some(self.links[i].key);
            }
            i += 1;
        }
        None
    }

    /// Whether the stream under `key` is linked.
    pub fn is_linked(&self, key: Key) -> (r: bool)
        requires
            self.wf(),
        ensures
            r == self@.linked_keys().contains(key),
            r == exists|i: int|
                0 <= i < self@.links.len() && #[trigger] self@.links[i].key == key,
            r ==> self@.holds(key),
    {
        let mut i: usize = 0;
        while i < self.links.len()
            invariant
                self.wf(),
                i <= self.links.len(),
                forall|j: int| 0 <= j < i ==> #[trigger] self.links@[j].key != key,
            decreases self.links.len() - i,
        {
            if self.links[i].key == key {
                assert(self@.linked_keys()[i as int] == key);
                return true;
            }
            i += 1;
        }
        false
    }

    /// Keeps `stream`, and links it under `id`.
    pub fn insert(&mut self, id: StreamId, stream: Stream) -> (key: Key)
        requires
            old(self).wf(),
            !old(self)@.is_linked(id),
        ensures
            final(self).wf(),
            !old(self)@.holds(key),
            final(self)@ == old(self)@.with_linked(id, key, stream),
            !old(self)@.streams.contains_key(key),
            final(self)@.streams == old(self)@.streams.insert(key, stream),
            final(self)@.links == old(self)@.links.push(Link { id, key }),
    {
        let index: usize = match self.vacant.pop() {
            Some(index) => {
                self.slots.set(index, Some(stream));
                index
            },
            None => {
                self.slots.push(Some(stream));
                self.slots.len() - 1
            },
        };
        let key = Key { index };
        self.links.push(Link { id, key });
        proof {
            assert(self.slots.len() <= usize::MAX);
            lemma_keys_below(self.slots@, self.slots@.len());
            assert(self@.streams.dom() =~= keys_below(self.slots@, self.slots@.len()));
            assert(self@.streams.dom() =~= old(self)@.streams.dom().insert(key));
        }
        self.wired = self.wired + 1;
        assert(self@ =~= old(self)@.with_linked(id, key, stream));
        assert forall|i: int| 0 <= i < old(self)@.links.len() implies #[trigger] self@.links[i].id
            != id by {
            assert(!old(self)@.links_at(i, id));
        }
        key
    }

    /// Takes the link of the stream under `key` away, if it has one.
    pub fn unlink(&mut self, key: Key)
        requires
            old(self).wf(),
        ensures
            final(self).wf(),
            final(self)@.streams == old(self)@.streams,
            forall|i: int|
                0 <= i < old(self)@.links.len() && #[trigger] old(self)@.links[i].key == key
                    ==> final(self)@.links == old(self)@.links.remove(i),
            !old(self)@.linked_keys().contains(key) ==> final(self)@.links == old(self)@.links,
    {
        let mut i: usize = 0;
        while i < self.links.len()
            invariant
                *self == *old(self),
                self.wf(),
                i <= self.links.len(),
                forall|j: int| 0 <= j < i ==> #[trigger] self.links@[j].key != key,
            decreases self.links.len() - i,
        {
            if self.links[i].key == key {
                self.links.remove(i);
                assert(self@.streams =~= old(self)@.streams);
                assert(old(self)@.linked_keys()[i as int] == key);
                return;
            }
            i += 1;
        }
    }

    /// Gives up the stream under `key`, which is not linked any more.
    pub fn remove(&mut self, key: Key) -> (stream: Stream)
        requires
            old(self).wf(),
            old(self)@.holds(key),
            !old(self)@.linked_keys().contains(key),
        ensures
            final(self).wf(),
            stream == old(self)@.streams[key],
            final(self)@.streams == old(self)@.streams.remove(key),
            final(self)@.links == old(self)@.links,
    {
        assert(forall|i: int|
            0 <= i < self@.links.len() ==> self@.linked_keys()[i] == #[trigger] self@.links[i].key);
        assert(!self.vacant@.contains(key.index));
        let slot = &mut self.slots[key.index];
        let stream = slot.take().unwrap();
        self.vacant.push(key.index);
        self.wired = self.wired - 1;
        assert(self@.streams =~= old(self)@.streams.remove(key));
        stream
    }

    /// The keys of the linked streams, in order.
    pub fn keys(&self) -> (r: Vec<Key>)
        ensures
            r@ == self@.linked_keys(),
            r@.len() == self@.links.len(),
            forall|i: int| 0 <= i < r@.len() ==> #[trigger] r@[i] == self@.links[i].key,
    {
        let mut r: Vec<Key> = Vec::new();
        let mut i: usize = 0;
        while i < self.links.len()
            invariant
                i <= self.links.len(),
                r@ == self@.linked_keys().take(i as int),
            decreases self.links.len() - i,
        {
            r.push(self.links[i].key);
            i += 1;
        }
        r
    }

    /// How many streams are linked.
    pub fn num_active_streams(&self) -> (r: usize)
        ensures
            r == self@.links.len(),
    {
        self.links.len()
    }

    /// How many streams are held, linked or not.
    pub fn num_wired_streams(&self) -> (r: usize)
        requires
            self.wf(),
        ensures
            r == self@.streams.dom().len(),
    {
        self.wired
    }
}

} // verus!
