//! The services a node exposes to its peers.
use crate::error::RobustMQError;
use crate::raft::{
    append_request_wf, check_append_request, merge_entries, AppendEntriesRequest,
    AppendEntriesResponse, RaftNode,
};
use vstd::prelude::*;

verus! {

/// The gRPC endpoint of a node.
pub struct GrpcServer {
    pub port: usize,
}

impl GrpcServer {
    pub fn new(port: usize) -> (r: GrpcServer)
        ensures
            r.port == port,
    {
        GrpcServer { port }
    }
}

/// The consensus service: peers' vote and append requests reach the
/// node's consensus state here.
pub struct GrpcOpenRaftServices {
    pub raft_node: RaftNode,
}

impl GrpcOpenRaftServices {
    pub fn new(raft_node: RaftNode) -> (r: GrpcOpenRaftServices)
        ensures
            r.raft_node == raft_node,
    {
        GrpcOpenRaftServices { raft_node }
    }

    /// Takes in an append request from a peer. One that is not shaped as a
    /// leader sends it is refused and changes nothing; otherwise the node's
    /// consensus state handles it.
    pub fn append(&mut self, req: AppendEntriesRequest) -> (r: Result<
        AppendEntriesResponse,
        RobustMQError,
    >)
        requires
            old(self).raft_node.wf(),
        ensures
            final(self).raft_node.wf(),
            !append_request_wf(req) ==> (r matches Err(RobustMQError::CommonError(_))
                && final(self).raft_node == old(self).raft_node),
            append_request_wf(req) ==> r is Ok,
            r matches Ok(resp) ==> resp.term == final(self).raft_node.current_term,
            r matches Ok(resp) ==> (resp.success ==> final(self).raft_node.log.entries@
                == merge_entries(old(self).raft_node.log.entries@, req.entries@)),
            r matches Ok(resp) ==> (!resp.success ==> final(self).raft_node.log
                == old(self).raft_node.log),
    {
        if !check_append_request(&req) {
            return Err(RobustMQError::CommonError(String::from_str("malformed append request")));
        }
        Ok(self.raft_node.handle_append_entries(req))
    }

}

} // verus!
