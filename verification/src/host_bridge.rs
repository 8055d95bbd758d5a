//! Calls that scripts make to the host.
use vstd::prelude::*;

verus! {

/// An asynchronous operation that a script wants the host to perform. The
/// machine queues these; the host drains and resolves them after each call.
#[derive(Clone, Debug)]
pub struct PendingHostCall {
    /// Unique identifier that the result is matched by.
    pub id: u32,
    /// What to do, in terms that the host understands (such as `net.fetch`).
    pub kind: String,
    /// Serialized arguments.
    pub args: Vec<String>,
}

} // verus!
