//! Errors of the placement center.
use vstd::prelude::*;

verus! {

/// Failures that a request or a storage operation reports.
#[derive(Clone, Debug, PartialEq, Eq)]
pub enum RobustMQError {
    /// A failure described by its message alone.
    CommonError(String),
    /// The cluster has no node to serve the request.
    ClusterNoAvailableNode,
    /// A payload could not be encoded or decoded.
    SerdeJsonError(String),
    /// The named interface could not commit its entry to the log.
    RaftLogCommitTimeout(String),
    /// The pool of the named service gave no connection; the second field
    /// tells why.
    NoAvailableGrpcConnection(String, String),
    /// The named required field was empty.
    ParameterCannotBeNull(String),
    /// This node is not the leader; the address of the known leader, if any.
    NotLeader(Option<String>),
}

} // verus!
