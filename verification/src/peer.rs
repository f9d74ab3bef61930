//! The two ends of a connection.
use crate::frame::StreamId;
use vstd::prelude::*;

verus! {

/// Which end of the connection this is.
#[derive(Clone, Copy, Debug, PartialEq, Eq, Structural)]
pub enum Dyn {
    Client,
    Server,
}

impl Dyn {
    /// Whether this end is the server.
    pub fn is_server(&self) -> (r: bool)
        ensures
            r == (*self == Dyn::Server),
    {
        matches!(*self, Dyn::Server)
    }

    /// Clients open streams with odd identifiers, servers those with even ones.
    pub open spec fn opens(self, id: StreamId) -> bool {
        if self == Dyn::Server {
            id.value % 2 == 0
        } else {
            id.value % 2 == 1
        }
    }

    /// Whether stream `id` is one that this end opens.
    pub fn is_local_init(&self, id: StreamId) -> (r: bool)
        requires
            id.value != 0,
        ensures
            r == self.opens(id),
            r == ((*self == Dyn::Server) == (id.value % 2 == 0)),
    {
        self.is_server() == (id.value % 2 == 0)
    }
}

} // verus!
