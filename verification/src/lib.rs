//! Coordination of the streams of one HTTP/2 connection.
//!
//! [`streams::Streams`] decides what happens to a stream when a frame arrives, when the user acts
//! on a handle and when the connection fails. It performs no I/O and owns no flow control: each
//! operation is a [`step::Step`], either the next [`call::Call`] to make into the receiving half,
//! the sending half or the counters of the connection, or the outcome. The caller makes the call
//! and resumes the operation with the [`call::Reply`].
pub mod call;
pub mod error;
pub mod frame;
pub mod laws;
pub mod method;
pub mod peer;
pub mod step;
pub mod store;
pub mod streams;
pub mod task;
