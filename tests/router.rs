use placement_center::config::Node;
use placement_center::error::RobustMQError;
use placement_center::raft::{AppendEntriesRequest, RaftNode, VoteResponse};
use placement_center::router::{GrpcKvServices, RaftGroupMetadata, WriteRoute};
use placement_center::state_machine::{AppRequestData, EntryPayload};
use placement_center::storage::{DataRoute, KvStorage, StorageEngine};

fn members() -> Vec<Node> {
    vec![
        Node { node_id: 1, rpc_addr: "127.0.0.1:1228".to_string() },
        Node { node_id: 2, rpc_addr: "127.0.0.1:2228".to_string() },
    ]
}

fn service(local: u64, leader: Option<(u64, &str)>) -> GrpcKvServices {
    let mut meta = RaftGroupMetadata::new(local, members());
    if let Some((id, addr)) = leader {
        meta.set_leader(id, addr.to_string());
    }
    GrpcKvServices::new(meta, KvStorage::new(StorageEngine::new()))
}

#[test]
fn empty_fields_are_refused_before_consensus() {
    let leader = service(1, Some((1, "127.0.0.1:1228")));
    assert_eq!(
        leader.set(String::new(), "v".to_string()),
        Err(RobustMQError::ParameterCannotBeNull("key or value".to_string()))
    );
    assert_eq!(
        leader.set("k".to_string(), String::new()),
        Err(RobustMQError::ParameterCannotBeNull("key or value".to_string()))
    );
    assert_eq!(leader.delete(String::new()), Err(RobustMQError::ParameterCannotBeNull("key".to_string())));
    assert_eq!(leader.get(String::new()), Err(RobustMQError::ParameterCannotBeNull("key".to_string())));
    assert_eq!(leader.key_exists(String::new()), Err(RobustMQError::ParameterCannotBeNull("key".to_string())));
    let follower = service(2, Some((1, "127.0.0.1:1228")));
    assert!(matches!(follower.set(String::new(), "v".to_string()), Err(RobustMQError::ParameterCannotBeNull(_))));
}

#[test]
fn leader_proposes_and_follower_forwards_unchanged() {
    let leader = service(1, Some((1, "127.0.0.1:1228")));
    let req = AppRequestData::KvSet { key: "mq".to_string(), value: "robustmq".to_string() };
    assert_eq!(leader.set("mq".to_string(), "robustmq".to_string()), Ok(WriteRoute::Propose(req.clone())));
    let follower = service(2, Some((1, "127.0.0.1:1228")));
    assert_eq!(
        follower.set("mq".to_string(), "robustmq".to_string()),
        Ok(WriteRoute::Forward { addr: "127.0.0.1:1228".to_string(), request: req })
    );
    assert_eq!(
        follower.delete("mq".to_string()),
        Ok(WriteRoute::Forward {
            addr: "127.0.0.1:1228".to_string(),
            request: AppRequestData::KvDelete { key: "mq".to_string() },
        })
    );
    let lost = service(2, None);
    assert_eq!(lost.delete("mq".to_string()), Err(RobustMQError::NotLeader(None)));
}

#[test]
fn absent_key_reads_as_empty() {
    let s = service(1, None);
    assert_eq!(s.get("nothing".to_string()), Ok(String::new()));
    assert_eq!(s.key_exists("nothing".to_string()), Ok(false));
}

struct Member {
    raft: RaftNode,
    service: GrpcKvServices,
    applied: u64,
}

fn member(id: u64) -> Member {
    Member { raft: RaftNode::new(id, vec![1, 2], members()), service: service(id, None), applied: 0 }
}

fn apply_committed(m: &mut Member) {
    let entries = m.raft.entries_to_apply(m.applied);
    let storage = std::mem::replace(&mut m.service.kv_storage, KvStorage::new(StorageEngine::new()));
    let mut route = DataRoute { kv_storage: storage };
    if let Some(last) = entries.last() {
        m.applied = last.log_id.index;
    }
    route.apply_entries(entries).unwrap();
    m.service.kv_storage = route.kv_storage;
}

fn replicate(leader: &mut Member, follower: &mut Member) {
    let last = leader.raft.log.entries.len() as u64;
    let r = follower.raft.handle_append_entries(AppendEntriesRequest {
        term: leader.raft.current_term,
        leader_id: leader.raft.id,
        prev_log_id: None,
        entries: leader.raft.log.get_log_entries(1, last + 1),
        leader_commit: leader.raft.commit_index,
    });
    assert!(r.success);
}

/// Delivers a write to the node at `addr`, as the transport would, and
/// commits it there when that node leads.
fn deliver(cluster: &mut Vec<Member>, at: usize, request: AppRequestData) {
    let route = match request {
        AppRequestData::KvSet { key, value } => cluster[at].service.set(key, value),
        AppRequestData::KvDelete { key } => cluster[at].service.delete(key),
    };
    match route.unwrap() {
        WriteRoute::Forward { addr, request } => {
            let target = members().iter().position(|n| n.rpc_addr == addr).unwrap();
            deliver(cluster, target, request);
        }
        WriteRoute::Propose(request) => {
            cluster[at].raft.propose(EntryPayload::Normal(request)).unwrap();
            let (l, f) = cluster.split_at_mut(1);
            replicate(&mut l[0], &mut f[0]);
            let last = l[0].raft.log.entries.len() as u64;
            l[0].raft.update_commit(&vec![last, last]);
            replicate(&mut l[0], &mut f[0]);
            apply_committed(&mut l[0]);
            apply_committed(&mut f[0]);
        }
    }
}

fn two_node_cluster() -> Vec<Member> {
    let mut cluster = vec![member(1), member(2)];
    cluster[0].raft.start_election();
    cluster[0].raft.handle_vote_response(2, VoteResponse { term: 1, vote_granted: true });
    assert!(cluster[0].raft.is_leader());
    for m in cluster.iter_mut() {
        m.service.placement_cluster.set_leader(1, "127.0.0.1:1228".to_string());
    }
    cluster
}

#[test]
fn write_on_follower_is_visible_on_every_node() {
    let mut cluster = two_node_cluster();
    deliver(
        &mut cluster,
        1,
        AppRequestData::KvSet { key: "mq".to_string(), value: "robustmq".to_string() },
    );
    for m in cluster.iter() {
        assert_eq!(m.service.get("mq".to_string()), Ok("robustmq".to_string()));
    }
    assert_eq!(cluster[0].raft.log.entries.len(), 1);
    assert_eq!(cluster[1].raft.log.entries.len(), 1);
}

#[test]
fn kv_test() {
    let mut cluster = two_node_cluster();
    let key = "mq".to_string();
    let value = "robustmq".to_string();
    deliver(&mut cluster, 0, AppRequestData::KvSet { key: key.clone(), value: value.clone() });
    assert!(cluster[0].service.key_exists(key.clone()).unwrap());
    assert_eq!(cluster[0].service.get(key.clone()).unwrap(), value);
    deliver(&mut cluster, 0, AppRequestData::KvDelete { key: key.clone() });
    assert!(!cluster[0].service.key_exists(key.clone()).unwrap());
    assert!(!cluster[1].service.key_exists(key).unwrap());
}
