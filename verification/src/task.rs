//! Tasks that wait for the connection.
use vstd::prelude::*;

verus! {

/// `futures::task::Task`, the handle by which a waiting task is woken. It is stored and handed
/// out, and nothing is read of it.
#[verifier::external_type_specification]
#[verifier::external_body]
pub struct ExTask(futures::task::Task);

} // verus!
