//! What a node's operations fail with.
use vstd::prelude::*;

verus! {

/// A node's operation failed.
#[derive(Debug, PartialEq, Eq)]
#[non_exhaustive]
pub enum GossipError {
    /// A configuration field is missing, or has a value that cannot be used.
    InvalidField {
        /// The field.
        field: String,
        /// What is wrong with it.
        reason: String,
    },
    /// The node is running already.
    AlreadyRunning,
    /// The node was shut down; it does not start again.
    Shutdown,
    /// The node's id does not name the address it binds.
    NodeIdMismatch {
        /// The id.
        node_id: String,
        /// The address.
        bind_addr: String,
    },
    /// The operating system refused.
    Io(String),
}

/// Is it the error on this field, with that reason?
pub open spec fn is_invalid(e: GossipError, f: Seq<char>, why: Seq<char>) -> bool {
    e matches GossipError::InvalidField { field, reason } && field@ == f && reason@ == why
}

/// The error on a field.
pub fn invalid(field: &str, reason: &str) -> (r: GossipError)
    ensures
        is_invalid(r, field@, reason@),
{
    GossipError::InvalidField { field: field.to_owned(), reason: reason.to_owned() }
}

} // verus!
