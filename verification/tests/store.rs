//! Streams, how they are kept, and handles to them.
use h2_streams::frame::{Reason, StreamId};
use h2_streams::call::Reply;
use h2_streams::peer::Dyn;
use h2_streams::step::{Outcome, Step};
use h2_streams::store::{Key, Store, Stream};
use h2_streams::streams::handle::StreamRef;
use h2_streams::streams::Streams;

fn store_id(value: u32) -> StreamId {
    StreamId { value }
}

#[test]
fn new_connection_has_no_streams() {
    let mut streams = Streams::new(Dyn::Server);
    assert_eq!(streams.peer(), Dyn::Server);
    assert_eq!(streams.conn_error(), None);
    assert!(streams.task_mut().is_none());
    assert_eq!(streams.num_active_streams(), 0);
    assert_eq!(streams.num_wired_streams(), 0);
}

#[test]
fn stream_that_was_added_is_found() {
    let mut store = Store::new();
    assert_eq!(store.find(store_id(1)), None);
    let one = store.insert(store_id(1), Stream::new(store_id(1), 10, 20));
    let three = store.insert(store_id(3), Stream::new(store_id(3), 30, 40));
    assert!(one != three);
    assert_eq!(store.find(store_id(1)), Some(one));
    assert_eq!(store.find(store_id(3)), Some(three));
    assert_eq!(store.find(store_id(5)), None);
    assert_eq!(store.resolve(three).init_send_window, 30);
    assert_eq!(store.resolve(three).init_recv_window, 40);
    assert_eq!(store.keys(), vec![one, three]);
    assert!(store.contains(one) && store.is_linked(one));
}

#[test]
fn stream_that_is_unlinked_is_still_held() {
    let mut store = Store::new();
    let one = store.insert(store_id(1), Stream::new(store_id(1), 10, 20));
    let three = store.insert(store_id(3), Stream::new(store_id(3), 30, 40));
    store.unlink(one);
    assert_eq!(store.find(store_id(1)), None);
    assert!(store.contains(one));
    assert!(!store.is_linked(one));
    assert_eq!(store.num_active_streams(), 1);
    assert_eq!(store.num_wired_streams(), 2);
    store.unlink(one);
    assert_eq!(store.keys(), vec![three]);
}

#[test]
fn place_of_a_removed_stream_is_used_again() {
    let mut store = Store::new();
    let one = store.insert(store_id(1), Stream::new(store_id(1), 10, 20));
    store.unlink(one);
    let stream = store.remove(one);
    assert_eq!(stream.id, store_id(1));
    assert!(!store.contains(one));
    assert_eq!(store.num_wired_streams(), 0);
    let three = store.insert(store_id(3), Stream::new(store_id(3), 30, 40));
    assert_eq!(one, three);
    assert_eq!(store.find(store_id(3)), Some(three));
    assert_eq!(store.num_wired_streams(), 1);
}

#[test]
fn stream_is_changed_in_place() {
    let mut store = Store::new();
    let one = store.insert(store_id(1), Stream::new(store_id(1), 10, 20));
    store.resolve_mut(one).is_pending_open = true;
    store.resolve_mut(one).ref_inc();
    assert!(store.resolve(one).is_pending_open);
    assert_eq!(store.resolve(one).ref_count, 1);
    store.resolve_mut(one).ref_dec();
    assert_eq!(store.resolve(one).ref_count, 0);
    assert_eq!(store.find(store_id(1)), Some(one));
}

/// A server with stream 1, and a handle to it.
fn held() -> (Streams, StreamRef) {
    let mut streams = Streams::new(Dyn::Server);
    let key = streams.store_mut().insert(store_id(1), Stream::new(store_id(1), 10, 20));
    let step: Step<u32> = match streams.next_incoming() {
        Step::Call { pending, .. } => streams.resume(pending, Reply::Incoming(Some(key))),
        step => step,
    };
    match step {
        Step::Done(Outcome::Incoming(Some(handle))) => (streams, handle),
        step => panic!("{:?}", step),
    }
}

fn count(streams: &Streams, key: Key) -> usize {
    streams.store().resolve(key).ref_count
}

#[test]
fn every_handle_is_counted() {
    let (mut streams, handle) = held();
    let key = handle.key();
    assert_eq!(count(&streams, key), 1);
    let second = handle.clone(&mut streams);
    assert_eq!(second.key(), key);
    assert_eq!(count(&streams, key), 2);
    let third = second.clone_to_opaque(&mut streams);
    let fourth = third.clone(&mut streams);
    assert_eq!(fourth.key(), key);
    assert_eq!(count(&streams, key), 4);
    assert_eq!(fourth.describe(&streams), (store_id(1), 4));
    let _: Step<u32> = fourth.drop(&mut streams);
    let _: Step<u32> = third.drop(&mut streams);
    assert_eq!(count(&streams, key), 2);
    let _: Step<u32> = second.drop(&mut streams);
    let _: Step<u32> = handle.drop(&mut streams);
    assert_eq!(count(&streams, key), 0);
    assert_eq!(streams.num_wired_streams(), 1);
}

#[test]
fn dropping_a_handle_undoes_cloning_it() {
    let (mut streams, handle) = held();
    let before = format!("{:?}", streams);
    let other = handle.clone(&mut streams);
    assert!(format!("{:?}", streams) != before);
    let _: Step<u32> = other.drop(&mut streams);
    assert_eq!(format!("{:?}", streams), before);
}

#[test]
fn handle_shows_whether_its_stream_waits() {
    let (mut streams, handle) = held();
    assert!(!handle.is_pending_open(&streams));
    streams.store_mut().resolve_mut(handle.key()).is_pending_open = true;
    assert!(handle.is_pending_open(&streams));
}

#[test]
fn identifiers_and_who_opens_them() {
    assert!(store_id(0).is_zero());
    assert!(!store_id(1).is_zero());
    assert!(Dyn::Server.is_server());
    assert!(!Dyn::Client.is_server());
    assert!(Dyn::Client.is_local_init(store_id(1)));
    assert!(!Dyn::Client.is_local_init(store_id(2)));
    assert!(!Dyn::Server.is_local_init(store_id(1)));
    assert!(Dyn::Server.is_local_init(store_id(2)));
    assert_eq!(Reason::protocol_error(), Reason { code: 1 });
}
