//! The client-facing key-value service: reads are served locally, writes
//! are checked and then either proposed here, on the leader, or forwarded
//! unchanged to the leader.
use crate::config::Node;
use crate::error::RobustMQError;
use crate::state_machine::AppRequestData;
use crate::codec::json_of_str;
use crate::storage::KvStorage;
use vstd::prelude::*;

verus! {

/// What this node knows of the leadership of its consensus group.
pub struct RaftGroupMetadata {
    pub local_id: u64,
    pub leader_id: Option<u64>,
    pub leader_addr: Option<String>,
    pub nodes: Vec<Node>,
}

impl RaftGroupMetadata {
    /// Metadata of a node that knows no leader yet.
    pub fn new(local_id: u64, nodes: Vec<Node>) -> (r: RaftGroupMetadata)
        ensures
            r.local_id == local_id,
            r.leader_id is None,
            r.leader_addr is None,
            r.nodes == nodes,
    {
        RaftGroupMetadata { local_id, leader_id: None, leader_addr: None, nodes }
    }

    /// Records the leader that was observed, with its address.
    pub fn set_leader(&mut self, leader_id: u64, leader_addr: String)
        ensures
            final(self).leader_id == Some(leader_id),
            final(self).leader_addr == Some(leader_addr),
            final(self).local_id == old(self).local_id,
            final(self).nodes == old(self).nodes,
    {
        self.leader_id = Some(leader_id);
        self.leader_addr = Some(leader_addr);
    }

    /// Whether this node is the leader.
    pub fn is_leader(&self) -> (r: bool)
        ensures
            r == (self.leader_id == Some(self.local_id)),
    {
        match self.leader_id {
            Some(l) => l == self.local_id,
            None => false,
        }
    }

    /// The address of the known leader, if any.
    pub fn leader_addr(&self) -> (r: Option<String>)
        ensures
            r == self.leader_addr,
    {
        match &self.leader_addr {
            Some(a) => Some(a.clone()),
            None => None,
        }
    }
}

/// Where a checked write goes.
#[derive(Clone, Debug, PartialEq, Eq)]
pub enum WriteRoute {
    /// This node leads: propose the write to the consensus core.
    Propose(AppRequestData),
    /// Send the write, unchanged, to the leader at `addr` and relay its reply.
    Forward { addr: String, request: AppRequestData },
}

/// The error of a write with an empty required field, if it has one.
pub open spec fn write_param_error(req: AppRequestData) -> Option<Seq<char>> {
    match req {
        AppRequestData::KvSet { key, value } => if key@.len() == 0 || value@.len() == 0 {
            Some("key or value"@)
        } else {
            None
        },
        AppRequestData::KvDelete { key } => if key@.len() == 0 {
            Some("key"@)
        } else {
            None
        },
    }
}

/// The key-value service of one node.
pub struct GrpcKvServices {
    pub placement_cluster: RaftGroupMetadata,
    pub kv_storage: KvStorage,
}

impl GrpcKvServices {
    pub fn new(placement_cluster: RaftGroupMetadata, kv_storage: KvStorage) -> (r: GrpcKvServices)
        ensures
            r.placement_cluster == placement_cluster,
            r.kv_storage == kv_storage,
    {
        GrpcKvServices { placement_cluster, kv_storage }
    }

    pub fn is_leader(&self) -> (r: bool)
        ensures
            r == (self.placement_cluster.leader_id == Some(self.placement_cluster.local_id)),
    {
        self.placement_cluster.is_leader()
    }

    pub fn leader_addr(&self) -> (r: Option<String>)
        ensures
            r == self.placement_cluster.leader_addr,
    {
        self.placement_cluster.leader_addr()
    }

    /// Decides where a write goes. A write with an empty required field is
    /// refused before it reaches the consensus core. Otherwise the leader
    /// proposes it, and any other node forwards the very same write to the
    /// leader it knows; with no leader known the write fails as not led.
    pub fn route_write(&self, request: AppRequestData) -> (r: Result<WriteRoute, RobustMQError>)
        ensures
            write_param_error(request) matches Some(f) ==> (r matches Err(
                RobustMQError::ParameterCannotBeNull(g),
            ) && g@ == f),
            write_param_error(request) is None && self.placement_cluster.leader_id == Some(
                self.placement_cluster.local_id,
            ) ==> r == Ok::<WriteRoute, RobustMQError>(WriteRoute::Propose(request)),
            write_param_error(request) is None && self.placement_cluster.leader_id != Some(
                self.placement_cluster.local_id,
            ) ==> (self.placement_cluster.leader_addr matches Some(a) ==> r == Ok::<
                WriteRoute,
                RobustMQError,
            >(WriteRoute::Forward { addr: a, request })),
            write_param_error(request) is None && self.placement_cluster.leader_id != Some(
                self.placement_cluster.local_id,
            ) ==> (self.placement_cluster.leader_addr is None ==> r == Err::<
                WriteRoute,
                RobustMQError,
            >(RobustMQError::NotLeader(None))),
    {
        let empty = match &request {
            AppRequestData::KvSet { key, value } => key.as_str().is_empty() || value.as_str().is_empty(),
            AppRequestData::KvDelete { key } => key.as_str().is_empty(),
        };
        if empty {
            let field = match &request {
                AppRequestData::KvSet { .. } => String::from_str("key or value"),
                AppRequestData::KvDelete { .. } => String::from_str("key"),
            };
            return Err(RobustMQError::ParameterCannotBeNull(field));
        }
        if !self.is_leader() {
            return match self.leader_addr() {
                Some(addr) => Ok(WriteRoute::Forward { addr, request }),
                None => Err(RobustMQError::NotLeader(None)),
            };
        }
        Ok(WriteRoute::Propose(request))
    }

    /// Routes `Set{key, value}`.
    pub fn set(&self, key: String, value: String) -> (r: Result<WriteRoute, RobustMQError>)
        ensures
            ({
                let req = AppRequestData::KvSet { key, value };
                &&& (key@.len() == 0 || value@.len() == 0) ==> (r matches Err(
                    RobustMQError::ParameterCannotBeNull(g),
                ) && g@ == "key or value"@)
                &&& (key@.len() > 0 && value@.len() > 0 && self.placement_cluster.leader_id
                    == Some(self.placement_cluster.local_id)) ==> r == Ok::<
                    WriteRoute,
                    RobustMQError,
                >(WriteRoute::Propose(req))
                &&& (key@.len() > 0 && value@.len() > 0 && self.placement_cluster.leader_id
                    != Some(self.placement_cluster.local_id)) ==> (
                self.placement_cluster.leader_addr matches Some(a) ==> r == Ok::<
                    WriteRoute,
                    RobustMQError,
                >(WriteRoute::Forward { addr: a, request: req }))
                &&& (key@.len() > 0 && value@.len() > 0 && self.placement_cluster.leader_id
                    != Some(self.placement_cluster.local_id)) ==> (
                self.placement_cluster.leader_addr is None ==> r == Err::<
                    WriteRoute,
                    RobustMQError,
                >(RobustMQError::NotLeader(None)))
            }),
    {
        self.route_write(AppRequestData::KvSet { key, value })
    }

    /// Routes `Delete{key}`.
    pub fn delete(&self, key: String) -> (r: Result<WriteRoute, RobustMQError>)
        ensures
            ({
                let req = AppRequestData::KvDelete { key };
                &&& key@.len() == 0 ==> (r matches Err(RobustMQError::ParameterCannotBeNull(g))
                    && g@ == "key"@)
                &&& (key@.len() > 0 && self.placement_cluster.leader_id == Some(
                    self.placement_cluster.local_id,
                )) ==> r == Ok::<WriteRoute, RobustMQError>(WriteRoute::Propose(req))
                &&& (key@.len() > 0 && self.placement_cluster.leader_id != Some(
                    self.placement_cluster.local_id,
                )) ==> (self.placement_cluster.leader_addr matches Some(a) ==> r == Ok::<
                    WriteRoute,
                    RobustMQError,
                >(WriteRoute::Forward { addr: a, request: req }))
                &&& (key@.len() > 0 && self.placement_cluster.leader_id != Some(
                    self.placement_cluster.local_id,
                )) ==> (self.placement_cluster.leader_addr is None ==> r == Err::<
                    WriteRoute,
                    RobustMQError,
                >(RobustMQError::NotLeader(None)))
            }),
    {
        self.route_write(AppRequestData::KvDelete { key })
    }
    /// Serves `Get{key}` from the local storage: the stored value, or the
    /// empty text for an absent key.
    pub fn get(&self, key: String) -> (r: Result<String, RobustMQError>)
        requires
            self.kv_storage.wf(),
        ensures
            key@.len() == 0 ==> (r matches Err(RobustMQError::ParameterCannotBeNull(g)) && g@
                == "key"@),
            key@.len() > 0 && !self.kv_storage.view_kv().contains_key(key@) ==> (r matches Ok(v)
                && v@.len() == 0),
            key@.len() > 0 && self.kv_storage.view_kv().contains_key(key@) ==> (forall|
                s: Seq<char>,
            | #[trigger] json_of_str(s) == self.kv_storage.view_kv()[key@] ==> (r matches Ok(v)
                && v@ == s)),
            key@.len() > 0 ==> (r matches Err(e) ==> e is SerdeJsonError),
    {
        if key.as_str().is_empty() {
            return Err(RobustMQError::ParameterCannotBeNull(String::from_str("key")));
        }
        match self.kv_storage.get(key) {
            Ok(Some(v)) => Ok(v),
            Ok(None) => Ok(String::new()),
            Err(e) => Err(e),
        }
    }

    /// Serves `Exists{key}` from the local storage.
    pub fn key_exists(&self, key: String) -> (r: Result<bool, RobustMQError>)
        requires
            self.kv_storage.wf(),
        ensures
            key@.len() == 0 ==> (r matches Err(RobustMQError::ParameterCannotBeNull(g)) && g@
                == "key"@),
            key@.len() > 0 ==> r == Ok::<bool, RobustMQError>(
                self.kv_storage.view_kv().contains_key(key@),
            ),
    {
        if key.as_str().is_empty() {
            return Err(RobustMQError::ParameterCannotBeNull(String::from_str("key")));
        }
        self.kv_storage.key_exists(key)
    }
}

} // verus!
