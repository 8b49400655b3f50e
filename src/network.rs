//! Naming of outbound connections and the errors the consensus core sees
//! of them.
use crate::config::Node;
use crate::error::RobustMQError;
use crate::retry::PlacementCenterService;
use vstd::prelude::*;

verus! {

/// The module name of a service in pool keys and connection errors.
pub open spec fn module_name(service: PlacementCenterService) -> Seq<char> {
    match service {
        PlacementCenterService::Kv => "KvServices"@,
        PlacementCenterService::OpenRaft => "OpenRaftServices"@,
    }
}

/// The key of the connection pool of a service at an address.
pub open spec fn pool_key_text(service: PlacementCenterService, addr: Seq<char>) -> Seq<char> {
    "PlacementCenter_"@ + module_name(service) + "_"@ + addr
}

/// The module name of `service`.
pub fn service_module(service: PlacementCenterService) -> (r: String)
    ensures
        r@ == module_name(service),
{
    match service {
        PlacementCenterService::Kv => String::from_str("KvServices"),
        PlacementCenterService::OpenRaft => String::from_str("OpenRaftServices"),
    }
}

/// The key under which the pool of connections to `service` at `addr` is
/// kept; each (service, address) pair has its own pool.
pub fn pool_key(service: PlacementCenterService, addr: &String) -> (r: String)
    ensures
        r@ == pool_key_text(service, addr@),
{
    let mut key = String::from_str("PlacementCenter_");
    let module = service_module(service);
    key.append(module.as_str());
    key.append("_");
    key.append(addr.as_str());
    key
}

/// Failure of an outbound consensus call as the consensus core sees it.
#[derive(Clone, Debug, PartialEq, Eq)]
pub enum RPCError {
    /// The peer could not be reached or did not answer in a readable form;
    /// the call may be retried, nothing else changes.
    Unreachable(RobustMQError),
}

/// Reports a transport, pool or decoding failure as an unreachable peer.
pub fn to_error(e: RobustMQError) -> (r: RPCError)
    ensures
        r == RPCError::Unreachable(e),
{
    RPCError::Unreachable(e)
}

/// The link to one consensus peer.
pub struct NetworkConnection {
    pub addr: String,
    pub target: u64,
}

impl NetworkConnection {
    pub fn new(addr: String, target: u64) -> (r: NetworkConnection)
        ensures
            r.addr == addr,
            r.target == target,
    {
        NetworkConnection { addr, target }
    }
}

/// Makes the links to consensus peers.
pub struct Network {}

impl Network {
    pub fn new() -> (r: Network) {
        Network {  }
    }

    /// The link to node `target`, at the address the node is reached at.
    pub fn new_client(&self, target: u64, node: &Node) -> (r: NetworkConnection)
        ensures
            r.addr == node.rpc_addr,
            r.target == target,
    {
        NetworkConnection::new(node.rpc_addr.clone(), target)
    }
}

} // verus!
