use placement_center::config::Node;
use placement_center::error::RobustMQError;
use placement_center::raft::{
    check_append_request, majority_index, AppendEntriesRequest, RaftNode, ServerState, VoteRequest, VoteResponse,
};
use placement_center::server::GrpcOpenRaftServices;
use placement_center::state_machine::{AppRequestData, Entry, EntryPayload, LogId};

fn members() -> Vec<Node> {
    vec![
        Node { node_id: 1, rpc_addr: "127.0.0.1:1228".to_string() },
        Node { node_id: 2, rpc_addr: "127.0.0.1:2228".to_string() },
        Node { node_id: 3, rpc_addr: "127.0.0.1:3228".to_string() },
    ]
}

fn cluster_node(id: u64) -> RaftNode {
    RaftNode::new(id, vec![1, 2, 3], members())
}

fn entry(term: u64, index: u64, key: &str) -> Entry {
    Entry {
        log_id: LogId { term, index },
        payload: EntryPayload::Normal(AppRequestData::KvSet {
            key: key.to_string(),
            value: "v".to_string(),
        }),
    }
}

#[test]
fn vote_granted_once_per_term() {
    let mut n = cluster_node(3);
    let r1 = n.handle_vote(&VoteRequest { term: 1, candidate_id: 1, last_log_id: None });
    assert!(r1.vote_granted);
    assert_eq!(n.voted_for, Some(1));
    let r2 = n.handle_vote(&VoteRequest { term: 1, candidate_id: 2, last_log_id: None });
    assert!(!r2.vote_granted);
    let again = n.handle_vote(&VoteRequest { term: 1, candidate_id: 1, last_log_id: None });
    assert!(again.vote_granted);
    let later = n.handle_vote(&VoteRequest { term: 2, candidate_id: 2, last_log_id: None });
    assert!(later.vote_granted);
    assert_eq!(n.current_term, 2);
}

#[test]
fn vote_refused_for_stale_term_or_log() {
    let mut n = cluster_node(3);
    n.current_term = 5;
    n.log.append(entry(4, 1, "a"));
    n.log.append(entry(5, 2, "b"));
    let stale = n.handle_vote(&VoteRequest { term: 4, candidate_id: 1, last_log_id: None });
    assert!(!stale.vote_granted);
    assert_eq!(stale.term, 5);
    let behind = n.handle_vote(&VoteRequest {
        term: 6,
        candidate_id: 1,
        last_log_id: Some(LogId { term: 5, index: 1 }),
    });
    assert!(!behind.vote_granted);
    assert_eq!(n.current_term, 6);
    let older_term = n.handle_vote(&VoteRequest {
        term: 6,
        candidate_id: 2,
        last_log_id: Some(LogId { term: 4, index: 9 }),
    });
    assert!(!older_term.vote_granted);
    let ahead = n.handle_vote(&VoteRequest {
        term: 6,
        candidate_id: 2,
        last_log_id: Some(LogId { term: 5, index: 2 }),
    });
    assert!(ahead.vote_granted);
}

#[test]
fn election_needs_a_strict_majority() {
    let mut c = cluster_node(1);
    let req = c.start_election().unwrap();
    assert_eq!(req, VoteRequest { term: 1, candidate_id: 1, last_log_id: None });
    assert_eq!(c.state, ServerState::Candidate);
    c.handle_vote_response(2, VoteResponse { term: 1, vote_granted: false });
    assert_eq!(c.state, ServerState::Candidate);
    c.handle_vote_response(9, VoteResponse { term: 1, vote_granted: true });
    assert_eq!(c.state, ServerState::Candidate);
    c.handle_vote_response(3, VoteResponse { term: 1, vote_granted: true });
    assert_eq!(c.state, ServerState::Leader);
    assert_eq!(c.leader_id, Some(1));
}

#[test]
fn single_voter_elects_itself() {
    let mut n = RaftNode::new(1, vec![1], members());
    n.start_election();
    assert!(n.is_leader());
}

#[test]
fn one_leader_in_a_term_of_three_nodes() {
    let mut nodes: Vec<RaftNode> = (1..=3).map(cluster_node).collect();
    let r1 = nodes[0].start_election().unwrap();
    let r2 = nodes[1].start_election().unwrap();
    assert_eq!(r1.term, r2.term);
    let to_1 = nodes[2].handle_vote(&r1);
    let to_2 = nodes[2].handle_vote(&r2);
    let from_2 = nodes[1].handle_vote(&r1);
    let from_1 = nodes[0].handle_vote(&r2);
    nodes[0].handle_vote_response(3, to_1);
    nodes[0].handle_vote_response(2, from_2);
    nodes[1].handle_vote_response(3, to_2);
    nodes[1].handle_vote_response(1, from_1);
    let leaders = nodes.iter().filter(|n| n.is_leader()).count();
    assert_eq!(leaders, 1);
    assert!(nodes[0].is_leader());
}

#[test]
fn higher_term_answer_steps_down() {
    let mut c = cluster_node(1);
    c.start_election();
    c.handle_vote_response(2, VoteResponse { term: 4, vote_granted: false });
    assert_eq!(c.state, ServerState::Follower);
    assert_eq!(c.current_term, 4);
    assert_eq!(c.voted_for, None);
}

#[test]
fn append_needs_the_previous_entry() {
    let mut f = cluster_node(2);
    let r = f.handle_append_entries(AppendEntriesRequest {
        term: 1,
        leader_id: 1,
        prev_log_id: Some(LogId { term: 1, index: 3 }),
        entries: vec![entry(1, 4, "a")],
        leader_commit: 4,
    });
    assert!(!r.success && r.conflict);
    assert!(f.log.entries.is_empty());
    assert_eq!(f.leader_id, Some(1));
}

#[test]
fn append_truncates_a_conflicting_suffix() {
    let mut f = cluster_node(2);
    f.handle_append_entries(AppendEntriesRequest {
        term: 1,
        leader_id: 1,
        prev_log_id: None,
        entries: vec![entry(1, 1, "a"), entry(1, 2, "b"), entry(1, 3, "c")],
        leader_commit: 1,
    });
    assert_eq!(f.log.entries.len(), 3);
    assert_eq!(f.commit_index, 1);
    let r = f.handle_append_entries(AppendEntriesRequest {
        term: 2,
        leader_id: 3,
        prev_log_id: Some(LogId { term: 1, index: 1 }),
        entries: vec![entry(2, 2, "x")],
        leader_commit: 2,
    });
    assert!(r.success);
    let ids: Vec<LogId> = f.log.entries.iter().map(|e| e.log_id).collect();
    assert_eq!(ids, vec![LogId { term: 1, index: 1 }, LogId { term: 2, index: 2 }]);
    assert_eq!(f.commit_index, 2);
    assert_eq!(f.current_term, 2);
}

#[test]
fn append_from_old_term_is_refused() {
    let mut f = cluster_node(2);
    f.current_term = 3;
    let r = f.handle_append_entries(AppendEntriesRequest {
        term: 2,
        leader_id: 1,
        prev_log_id: None,
        entries: vec![entry(2, 1, "a")],
        leader_commit: 1,
    });
    assert!(!r.success && !r.conflict);
    assert_eq!(r.term, 3);
    assert!(f.log.entries.is_empty());
}

#[test]
fn propose_on_follower_names_the_leader() {
    let mut f = cluster_node(2);
    f.handle_append_entries(AppendEntriesRequest {
        term: 1,
        leader_id: 3,
        prev_log_id: None,
        entries: vec![],
        leader_commit: 0,
    });
    let r = f.propose(EntryPayload::Blank);
    assert_eq!(r, Err(RobustMQError::NotLeader(Some("127.0.0.1:3228".to_string()))));
    let mut fresh = cluster_node(2);
    assert_eq!(fresh.propose(EntryPayload::Blank), Err(RobustMQError::NotLeader(None)));
}

#[test]
fn leader_proposes_and_commits_on_majority() {
    let mut l = cluster_node(1);
    l.start_election();
    l.handle_vote_response(2, VoteResponse { term: 1, vote_granted: true });
    assert!(l.is_leader());
    let id = l.propose(EntryPayload::Blank).unwrap();
    assert_eq!(id, LogId { term: 1, index: 1 });
    l.update_commit(&vec![1, 0, 0]);
    assert_eq!(l.commit_index, 0);
    l.update_commit(&vec![1, 1, 0]);
    assert_eq!(l.commit_index, 1);
    let committed = l.entries_to_apply(0);
    assert_eq!(committed.len(), 1);
    assert!(l.entries_to_apply(1).is_empty());
}

#[test]
fn majority_index_examples() {
    assert_eq!(majority_index(&vec![5, 3, 1]), 3);
    assert_eq!(majority_index(&vec![5, 5, 1, 1]), 1);
    assert_eq!(majority_index(&vec![7]), 7);
    assert_eq!(majority_index(&vec![2, 9, 9]), 9);
}

#[test]
fn committed_membership_changes_the_voters() {
    let mut n = cluster_node(3);
    n.start_election();
    n.apply_membership(vec![
        Node { node_id: 1, rpc_addr: "a".to_string() },
        Node { node_id: 2, rpc_addr: "b".to_string() },
        Node { node_id: 1, rpc_addr: "a".to_string() },
    ]);
    assert_eq!(n.voters, vec![1, 2]);
    assert_eq!(n.state, ServerState::Follower);
    assert!(n.votes_received.is_empty());
    assert_eq!(n.nodes.len(), 3);
}

#[test]
fn malformed_append_requests_are_refused() {
    let good = AppendEntriesRequest {
        term: 2,
        leader_id: 1,
        prev_log_id: Some(LogId { term: 1, index: 1 }),
        entries: vec![entry(1, 2, "a"), entry(2, 3, "b")],
        leader_commit: 0,
    };
    assert!(check_append_request(&good));
    let mut gap = good.clone();
    gap.entries[1].log_id.index = 4;
    assert!(!check_append_request(&gap));
    let mut future = good.clone();
    future.entries[1].log_id.term = 3;
    assert!(!check_append_request(&future));
    let mut falling = good.clone();
    falling.entries[0].log_id.term = 2;
    falling.entries[1].log_id.term = 1;
    assert!(!check_append_request(&falling));
    let mut before_prev = good.clone();
    before_prev.prev_log_id = Some(LogId { term: 2, index: 1 });
    before_prev.entries[0].log_id.term = 1;
    assert!(!check_append_request(&before_prev));

    let mut service = GrpcOpenRaftServices::new(cluster_node(2));
    assert!(matches!(service.append(gap), Err(RobustMQError::CommonError(_))));
    assert!(service.raft_node.log.entries.is_empty());
    let first = AppendEntriesRequest {
        term: 1,
        leader_id: 1,
        prev_log_id: None,
        entries: vec![entry(1, 1, "a")],
        leader_commit: 1,
    };
    assert!(service.append(first).unwrap().success);
    assert!(service.append(good).unwrap().success);
    assert_eq!(service.raft_node.log.entries.len(), 3);
}

#[test]
fn learners_join_without_voting() {
    let mut n = RaftNode::new(1, vec![1], members());
    n.add_learner(Node { node_id: 4, rpc_addr: "127.0.0.1:4228".to_string() });
    assert_eq!(n.nodes.len(), 4);
    assert_eq!(n.voters, vec![1]);
}
