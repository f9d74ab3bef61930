//! The errors of a stream and of its connection.
use crate::frame::{Reason, StreamId};
use std::sync::Arc;
use vstd::prelude::*;

verus! {

/// `std::io::Error`, carried from a call to the outcome of the operation that made it.
#[verifier::external_type_specification]
#[verifier::external_body]
pub struct ExIoError(std::io::Error);

/// `std::io::ErrorKind`, carried from an I/O error to the copies of it.
#[verifier::external_type_specification]
#[verifier::external_body]
pub struct ExIoErrorKind(std::io::ErrorKind);

/// The kind of an I/O error.
#[derive(Clone, Copy, Debug, PartialEq, Eq)]
pub enum ErrorKind {
    /// The connection ended before it was done.
    BrokenPipe,
    /// The kind of an error that was met in reading or writing.
    Reported(std::io::ErrorKind),
}

/// Calls `Arc::clone`. The contract claims that the new pointer leads to the same error.
#[verifier::external_body]
fn share(err: &Arc<std::io::Error>) -> (r: Arc<std::io::Error>)
    ensures
        r == *err,
{
    Arc::clone(err)
}

/// An error of the connection as it came, which each of its streams is told.
#[derive(Debug)]
pub enum Failure {
    Proto(Reason),
    /// An I/O error, and the kind that it says it is of.
    Io { kind: ErrorKind, source: Arc<std::io::Error> },
}

impl Failure {
    /// See [`Failure::shallow_clone`].
    pub open spec fn shallow(self) -> Error {
        match self {
            Failure::Proto(reason) => Error::Proto(reason),
            Failure::Io { kind, .. } => Error::Io(kind),
        }
    }

    /// What is kept of the error for the handles: the reason, or the kind.
    pub fn shallow_clone(&self) -> (r: Error)
        ensures
            r == self.shallow(),
            r == match *self {
                Failure::Proto(reason) => Error::Proto(reason),
                Failure::Io { kind, .. } => Error::Io(kind),
            },
    {
        match self {
            Failure::Proto(reason) => Error::Proto(*reason),
            Failure::Io { kind, .. } => Error::Io(*kind),
        }
    }

    /// The same error, for one more stream.
    pub fn share(&self) -> (r: Failure)
        ensures
            r == *self,
    {
        match self {
            Failure::Proto(reason) => Failure::Proto(*reason),
            Failure::Io { kind, source } => Failure::Io { kind: *kind, source: share(source) },
        }
    }
}

/// The copy of an error that a connection is left with. Of an I/O error only the kind is kept, so
/// that every handle can be given the error.
#[derive(Clone, Copy, Debug, PartialEq, Eq)]
pub enum Error {
    Proto(Reason),
    Io(ErrorKind),
}

impl Error {
    /// A copy of the error for a handle.
    pub fn shallow_clone(&self) -> (r: Error)
        ensures
            r == *self,
    {
        *self
    }
}

/// Why a received frame was not accepted.
#[derive(Debug)]
pub enum RecvError {
    /// The connection cannot go on.
    Connection(Reason),
    /// One stream cannot go on.
    Stream { id: StreamId, reason: Reason },
    /// Reading or writing failed.
    Io(std::io::Error),
}

/// A use of a handle that its stream does not allow.
#[derive(Clone, Copy, Debug, PartialEq, Eq, Structural)]
pub enum UserError {
    InactiveStreamId,
    UnexpectedFrameType,
    PayloadTooBig,
    HeaderTooBig,
    Rejected,
    ReleaseCapacityTooBig,
    OverflowedStreamId,
    MalformedHeaders,
    MissingUriSchemeAndAuthority,
}

/// Why a message was not sent.
#[derive(Clone, Copy, Debug, PartialEq, Eq)]
pub enum SendError {
    /// The handle was used in a way that is not allowed.
    User(UserError),
    /// The connection has failed before.
    Connection(Error),
}

} // verus!
