//! The consensus rules of one node: elections, votes, log replication from
//! the leader, proposals and the commit index.
use crate::config::Node;
use crate::error::RobustMQError;
use crate::log_store::{last_id, term_at_spec, LogStore};
use crate::state_machine::{Entry, EntryPayload, LogId};
use vstd::prelude::*;

verus! {

/// The role of a node in its current term.
#[derive(Clone, Copy, Debug, PartialEq, Eq, Structural)]
pub enum ServerState {
    /// Replicates the log but neither votes nor stands for election.
    Learner,
    Follower,
    Candidate,
    Leader,
}

/// A candidate asks for a vote.
#[derive(Clone, Copy, Debug, PartialEq, Eq, Structural)]
pub struct VoteRequest {
    pub term: u64,
    pub candidate_id: u64,
    pub last_log_id: Option<LogId>,
}

/// The answer to a vote request.
#[derive(Clone, Copy, Debug, PartialEq, Eq, Structural)]
pub struct VoteResponse {
    pub term: u64,
    pub vote_granted: bool,
}

/// The leader replicates entries that follow `prev_log_id`.
#[derive(Clone, Debug, PartialEq, Eq)]
pub struct AppendEntriesRequest {
    pub term: u64,
    pub leader_id: u64,
    pub prev_log_id: Option<LogId>,
    pub entries: Vec<Entry>,
    pub leader_commit: u64,
}

/// The answer to an append request: `conflict` asks the leader for an
/// earlier `prev_log_id`.
#[derive(Clone, Copy, Debug, PartialEq, Eq, Structural)]
pub struct AppendEntriesResponse {
    pub term: u64,
    pub success: bool,
    pub conflict: bool,
}

/// A log whose last entry is `cand` is at least as up to date as one whose
/// last entry is `mine`: the higher term wins, and on equal terms the
/// higher index.
pub open spec fn log_up_to_date(cand: Option<LogId>, mine: Option<LogId>) -> bool {
    match mine {
        None => true,
        Some(m) => match cand {
            None => false,
            Some(c) => c.term > m.term || (c.term == m.term && c.index >= m.index),
        },
    }
}

/// The log after taking in one entry from the leader: an entry already held
/// with the same term stays, one held with another term is dropped with all
/// that follows it, and the new entry goes at the tail.
pub open spec fn merge_entry(log: Seq<Entry>, e: Entry) -> Seq<Entry> {
    let pos = e.log_id.index - 1;
    if pos < log.len() {
        if log[pos].log_id.term == e.log_id.term {
            log
        } else {
            log.subrange(0, pos).push(e)
        }
    } else {
        log.push(e)
    }
}

/// The log after taking in the entries `es` in order.
pub open spec fn merge_entries(log: Seq<Entry>, es: Seq<Entry>) -> Seq<Entry>
    decreases es.len(),
{
    if es.len() == 0 {
        log
    } else {
        merge_entries(merge_entry(log, es[0]), es.drop_first())
    }
}

/// Index of the entry that a request's entries follow; 0 for the start.
pub open spec fn prev_index(prev: Option<LogId>) -> nat {
    match prev {
        Some(p) => p.index as nat,
        None => 0,
    }
}

/// What a leader sends: entries at consecutive indexes right after the
/// previous entry, with terms that never decrease, start at the previous
/// entry's term or later, and end at the request's term or earlier.
pub open spec fn append_request_wf(req: AppendEntriesRequest) -> bool {
    let es = req.entries@;
    let p = prev_index(req.prev_log_id);
    &&& req.prev_log_id matches Some(l) ==> l.index >= 1
    &&& p + es.len() <= u64::MAX
    &&& forall|k: int| 0 <= k < es.len() ==> #[trigger] es[k].log_id.index == p + 1 + k
    &&& forall|i: int, j: int|
        0 <= i <= j < es.len() ==> #[trigger] es[i].log_id.term <= #[trigger] es[j].log_id.term
    &&& forall|k: int| 0 <= k < es.len() ==> #[trigger] es[k].log_id.term <= req.term
    &&& req.prev_log_id matches Some(l) ==> forall|k: int|
        0 <= k < es.len() ==> l.term <= #[trigger] es[k].log_id.term
}

/// Whether a request received from a peer is one a leader sends; a request
/// that is not is refused before it reaches the log.
pub fn check_append_request(req: &AppendEntriesRequest) -> (r: bool)
    ensures
        r == append_request_wf(*req),
{
    let es = &req.entries;
    let p: u64 = match req.prev_log_id {
        Some(l) => {
            if l.index < 1 {
                return false;
            }
            l.index
        },
        None => 0,
    };
    if (es.len() as u128) > (u64::MAX - p) as u128 {
        return false;
    }
    let mut k: usize = 0;
    while k < es.len()
        invariant
            es@ == req.entries@,
            k <= es@.len(),
            p == prev_index(req.prev_log_id),
            p + es@.len() <= u64::MAX,
            forall|j: int| 0 <= j < k ==> #[trigger] es@[j].log_id.index == p + 1 + j,
            forall|i: int, j: int|
                0 <= i <= j < k ==> #[trigger] es@[i].log_id.term <= #[trigger] es@[j].log_id.term,
            forall|j: int| 0 <= j < k ==> #[trigger] es@[j].log_id.term <= req.term,
            req.prev_log_id matches Some(l) ==> forall|j: int|
                0 <= j < k ==> l.term <= #[trigger] es@[j].log_id.term,
        decreases es@.len() - k,
    {
        let e = es[k].log_id;
        assert(req.entries@[k as int] == es@[k as int]);
        if e.index != p + 1 + k as u64 {
            assert(!append_request_wf(*req)) by {
                if append_request_wf(*req) {
                    assert(req.entries@[k as int].log_id.index == p + 1 + k);
                }
            }
            return false;
        }
        if e.term > req.term {
            assert(!append_request_wf(*req)) by {
                if append_request_wf(*req) {
                    assert(req.entries@[k as int].log_id.term <= req.term);
                }
            }
            return false;
        }
        if k > 0 && es[k - 1].log_id.term > e.term {
            assert(!append_request_wf(*req)) by {
                if append_request_wf(*req) {
                    assert(req.entries@[k - 1].log_id.term <= req.entries@[k as int].log_id.term);
                }
            }
            return false;
        }
        match req.prev_log_id {
            Some(l) => {
                if l.term > e.term {
                    assert(!append_request_wf(*req)) by {
                        if append_request_wf(*req) {
                            assert(l.term <= req.entries@[k as int].log_id.term);
                        }
                    }
                    return false;
                }
            },
            None => {},
        }
        assert forall|i: int, j: int|
            0 <= i <= j < k + 1 implies #[trigger] es@[i].log_id.term
            <= #[trigger] es@[j].log_id.term by {
            if j == k && i < k {
                assert(es@[i].log_id.term <= es@[k - 1].log_id.term);
            }
        }
        k = k + 1;
    }
    true
}

/// The address of the node `id` in `nodes`: the first node with that id.
pub open spec fn node_addr(nodes: Seq<Node>, id: u64) -> Option<String>
    decreases nodes.len(),
{
    if nodes.len() == 0 {
        None
    } else if nodes[0].node_id == id {
        Some(nodes[0].rpc_addr)
    } else {
        node_addr(nodes.drop_first(), id)
    }
}

/// The number of entries of `s` that are `n` or more.
pub open spec fn count_at_least(s: Seq<u64>, n: u64) -> nat
    decreases s.len(),
{
    if s.len() == 0 {
        0
    } else {
        count_at_least(s.drop_last(), n) + if s.last() >= n {
            1nat
        } else {
            0nat
        }
    }
}

/// `n` is reached by a strict majority of the values of `s`.
pub open spec fn majority_reached(s: Seq<u64>, n: u64) -> bool {
    2 * count_at_least(s, n) > s.len()
}

/// Whether `id` is one of `ids`.
pub fn contains_id(ids: &Vec<u64>, id: u64) -> (r: bool)
    ensures
        r == ids@.contains(id),
{
    let mut i: usize = 0;
    while i < ids.len()
        invariant
            i <= ids@.len(),
            forall|k: int| 0 <= k < i ==> ids@[k] != id,
        decreases ids@.len() - i,
    {
        if ids[i] == id {
            return true;
        }
        i = i + 1;
    }
    false
}

/// The largest of the values of `matched` that a strict majority of them
/// reach: the highest index that a majority has persisted.
pub fn majority_index(matched: &Vec<u64>) -> (r: u64)
    requires
        matched@.len() > 0,
    ensures
        exists|i: int| 0 <= i < matched@.len() && matched@[i] == r,
        majority_reached(matched@, r),
        forall|i: int|
            0 <= i < matched@.len() && majority_reached(matched@, #[trigger] matched@[i])
                ==> matched@[i] <= r,
{
    let mut best: u64 = 0;
    let mut found = false;
    let mut i: usize = 0;
    while i < matched.len()
        invariant
            i <= matched@.len(),
            found ==> exists|k: int| 0 <= k < matched@.len() && matched@[k] == best,
            found ==> majority_reached(matched@, best),
            forall|k: int|
                0 <= k < i && majority_reached(matched@, #[trigger] matched@[k]) ==> found
                    && matched@[k] <= best,
        decreases matched@.len() - i,
    {
        let v = matched[i];
        let mut count: usize = 0;
        let mut j: usize = 0;
        while j < matched.len()
            invariant
                j <= matched@.len(),
                count == count_at_least(matched@.subrange(0, j as int), v),
                count <= j,
            decreases matched@.len() - j,
        {
            assert(matched@.subrange(0, j + 1).drop_last() =~= matched@.subrange(0, j as int));
            if matched[j] >= v {
                count = count + 1;
            }
            j = j + 1;
        }
        assert(matched@.subrange(0, matched@.len() as int) =~= matched@);
        if (count as u128) * 2 > matched.len() as u128 {
            if !found || v > best {
                best = v;
            }
            found = true;
        }
        i = i + 1;
    }
    proof {
        lemma_min_is_majority(matched@);
    }
    best
}

/// The smallest value of a non-empty sequence is reached by all of it.
proof fn lemma_min_is_majority(s: Seq<u64>)
    requires
        s.len() > 0,
    ensures
        exists|i: int| 0 <= i < s.len() && majority_reached(s, #[trigger] s[i]),
{
    let m = lemma_min_exists(s);
    lemma_count_all(s, s[m]);
    assert(majority_reached(s, s[m]));
}

proof fn lemma_min_exists(s: Seq<u64>) -> (m: int)
    requires
        s.len() > 0,
    ensures
        0 <= m < s.len(),
        forall|k: int| 0 <= k < s.len() ==> s[m] <= #[trigger] s[k],
    decreases s.len(),
{
    if s.len() == 1 {
        0
    } else {
        let d = s.drop_last();
        let m0 = lemma_min_exists(d);
        assert forall|k: int| 0 <= k < d.len() implies d[m0] <= #[trigger] s[k] by {
            assert(d[k] == s[k]);
        }
        if s.last() < s[m0] {
            s.len() - 1
        } else {
            m0
        }
    }
}

proof fn lemma_count_all(s: Seq<u64>, n: u64)
    requires
        forall|k: int| 0 <= k < s.len() ==> n <= #[trigger] s[k],
    ensures
        count_at_least(s, n) == s.len(),
    decreases s.len(),
{
    if s.len() > 0 {
        let d = s.drop_last();
        assert forall|k: int| 0 <= k < d.len() implies n <= #[trigger] d[k] by {
            assert(d[k] == s[k]);
        }
        lemma_count_all(d, n);
    }
}

/// Two strict majorities of the same voters share a voter.
pub proof fn lemma_quorums_intersect(voters: Set<u64>, a: Set<u64>, b: Set<u64>) -> (v: u64)
    requires
        voters.finite(),
        a.subset_of(voters),
        b.subset_of(voters),
        2 * a.len() > voters.len(),
        2 * b.len() > voters.len(),
    ensures
        a.contains(v),
        b.contains(v),
{
    vstd::set_lib::lemma_len_subset(a, voters);
    vstd::set_lib::lemma_len_subset(b, voters);
    vstd::set_lib::lemma_set_intersect_union_lens(a, b);
    vstd::set_lib::lemma_len_subset(a + b, voters);
    let both = a.intersect(b);
    assert(exists|v: u64| both.contains(v)) by {
        if forall|v: u64| !both.contains(v) {
            assert(both =~= Set::<u64>::empty());
        }
    }
    choose|v: u64| both.contains(v)
}

/// At most one leader per term. In one term each voter grants at most one
/// candidate (a vote once cast in a term is kept), so `ballot` maps each
/// voter to the candidate it granted; two candidates that each gathered the
/// votes of a strict majority of the same voters are then the same node.
pub proof fn lemma_one_leader_per_term(
    voters: Set<u64>,
    ballot: Map<u64, u64>,
    a: Set<u64>,
    b: Set<u64>,
    c1: u64,
    c2: u64,
)
    requires
        voters.finite(),
        a.subset_of(voters),
        b.subset_of(voters),
        2 * a.len() > voters.len(),
        2 * b.len() > voters.len(),
        forall|v: u64| a.contains(v) ==> ballot.contains_key(v) && ballot[v] == c1,
        forall|v: u64| b.contains(v) ==> ballot.contains_key(v) && ballot[v] == c2,
    ensures
        c1 == c2,
{
    let v = lemma_quorums_intersect(voters, a, b);
    assert(ballot[v] == c1 && ballot[v] == c2);
}

/// At most one leader per term, over the states of the nodes. Two nodes that
/// both lead in term `t` over the same voters each gathered the grants of a
/// strict majority (`votes_received`); `ballot` records the one candidate
/// each voter granted in `t` (a node keeps its vote within a term), so both
/// leaders are the same node.
pub proof fn lemma_leaders_of_a_term(a: RaftNode, b: RaftNode, ballot: Map<u64, u64>)
    requires
        a.wf(),
        b.wf(),
        a.state == ServerState::Leader,
        b.state == ServerState::Leader,
        a.current_term == b.current_term,
        a.voters@ == b.voters@,
        2 * a.votes_received@.len() > a.voters@.len(),
        2 * b.votes_received@.len() > b.voters@.len(),
        forall|i: int|
            0 <= i < a.votes_received@.len() ==> ballot.contains_key(#[trigger] a.votes_received@[i])
                && ballot[a.votes_received@[i]] == a.id,
        forall|i: int|
            0 <= i < b.votes_received@.len() ==> ballot.contains_key(#[trigger] b.votes_received@[i])
                && ballot[b.votes_received@[i]] == b.id,
    ensures
        a.id == b.id,
{
    let voters = a.voters@.to_set();
    let sa = a.votes_received@.to_set();
    let sb = b.votes_received@.to_set();
    a.voters@.unique_seq_to_set();
    a.votes_received@.unique_seq_to_set();
    b.votes_received@.unique_seq_to_set();
    assert(sa.subset_of(voters));
    assert(sb.subset_of(voters));
    assert forall|v: u64| sa.contains(v) implies ballot.contains_key(v) && ballot[v] == a.id by {
        let i = choose|i: int| 0 <= i < a.votes_received@.len() && a.votes_received@[i] == v;
    }
    assert forall|v: u64| sb.contains(v) implies ballot.contains_key(v) && ballot[v] == b.id by {
        let i = choose|i: int| 0 <= i < b.votes_received@.len() && b.votes_received@[i] == v;
    }
    lemma_one_leader_per_term(voters, ballot, sa, sb, a.id, b.id);
}

/// The consensus state of one node.
pub struct RaftNode {
    pub id: u64,
    pub current_term: u64,
    /// The candidate this node voted for in `current_term`.
    pub voted_for: Option<u64>,
    pub state: ServerState,
    pub leader_id: Option<u64>,
    pub log: LogStore,
    /// Highest index known to be persisted by a majority.
    pub commit_index: u64,
    /// The voting members; they decide elections and commits.
    pub voters: Vec<u64>,
    /// Members with their addresses, used to name the leader to callers.
    pub nodes: Vec<Node>,
    /// Voters that granted this node their vote in `current_term`.
    pub votes_received: Vec<u64>,
}

impl RaftNode {
    pub open spec fn wf(self) -> bool {
        &&& self.log.wf()
        &&& forall|i: int|
            0 <= i < self.log.entries@.len() ==> #[trigger] self.log.entries@[i].log_id.term
                <= self.current_term
        &&& self.voters@.no_duplicates()
        &&& self.votes_received@.no_duplicates()
        &&& forall|i: int|
            0 <= i < self.votes_received@.len() ==> self.voters@.contains(
                #[trigger] self.votes_received@[i],
            )
    }

    /// A node of the cluster with the given voters and members: a follower
    /// in term 0 with an empty log and no leader known.
    pub fn new(id: u64, voters: Vec<u64>, nodes: Vec<Node>) -> (r: RaftNode)
        requires
            voters@.no_duplicates(),
        ensures
            r.wf(),
            r.id == id,
            r.current_term == 0,
            r.voted_for is None,
            r.state == ServerState::Follower,
            r.leader_id is None,
            r.log.entries@.len() == 0,
            r.commit_index == 0,
            r.voters == voters,
            r.nodes == nodes,
    {
        RaftNode {
            id,
            current_term: 0,
            voted_for: None,
            state: ServerState::Follower,
            leader_id: None,
            log: LogStore::new(),
            commit_index: 0,
            voters,
            nodes,
            votes_received: Vec::new(),
        }
    }

    /// The address of the known leader, if any.
    pub open spec fn known_leader_addr(self) -> Option<String> {
        match self.leader_id {
            None => None,
            Some(l) => node_addr(self.nodes@, l),
        }
    }

    pub fn is_leader(&self) -> (r: bool)
        ensures
            r == (self.state == ServerState::Leader),
    {
        self.state == ServerState::Leader
    }

    /// The address of the known leader, if any.
    pub fn leader_addr(&self) -> (r: Option<String>)
        ensures
            r == self.known_leader_addr(),
    {
        match self.leader_id {
            None => None,
            Some(l) => {
                let mut i: usize = 0;
                assert(self.nodes@.subrange(0, self.nodes@.len() as int) =~= self.nodes@);
                while i < self.nodes.len()
                    invariant
                        i <= self.nodes@.len(),
                        self.leader_id == Some(l),
                        node_addr(self.nodes@, l) == node_addr(
                            self.nodes@.subrange(i as int, self.nodes@.len() as int),
                            l,
                        ),
                    decreases self.nodes@.len() - i,
                {
                    let ghost rest = self.nodes@.subrange(i as int, self.nodes@.len() as int);
                    assert(rest.drop_first() =~= self.nodes@.subrange(
                        i + 1,
                        self.nodes@.len() as int,
                    ));
                    assert(rest[0] == self.nodes@[i as int]);
                    if self.nodes[i].node_id == l {
                        return Some(self.nodes[i].rpc_addr.clone());
                    }
                    i = i + 1;
                }
                None
            },
        }
    }

    /// Moves to a later term as a follower (a learner stays one), with no
    /// vote cast and no leader known.
    fn step_down(&mut self, term: u64)
        requires
            old(self).wf(),
            term > old(self).current_term,
        ensures
            final(self).wf(),
            final(self).current_term == term,
            final(self).voted_for is None,
            final(self).leader_id is None,
            old(self).state == ServerState::Learner ==> final(self).state == ServerState::Learner,
            old(self).state != ServerState::Learner ==> final(self).state
                == ServerState::Follower,
            final(self).votes_received@.len() == 0,
            final(self).id == old(self).id,
            final(self).log == old(self).log,
            final(self).commit_index == old(self).commit_index,
            final(self).voters == old(self).voters,
            final(self).nodes == old(self).nodes,
    {
        self.current_term = term;
        self.voted_for = None;
        self.leader_id = None;
        if self.state != ServerState::Learner {
            self.state = ServerState::Follower;
        }
        self.votes_received = Vec::new();
    }

    /// Answers a vote request. The vote is granted iff the request's term
    /// is not behind, this node has not voted for another candidate in that
    /// term, and the candidate's log is at least as up to date. A request
    /// from a later term first moves this node to that term.
    pub fn handle_vote(&mut self, req: &VoteRequest) -> (r: VoteResponse)
        requires
            old(self).wf(),
        ensures
            final(self).wf(),
            r.vote_granted == (req.term >= old(self).current_term && (req.term > old(self).current_term || old(self).voted_for is None || old(self).voted_for == Some(
                req.candidate_id,
            )) && log_up_to_date(req.last_log_id, last_id(old(self).log.entries@))),
            final(self).current_term == if req.term > old(self).current_term {
                req.term
            } else {
                old(self).current_term
            },
            r.term == final(self).current_term,
            r.vote_granted ==> final(self).voted_for == Some(req.candidate_id),
            !r.vote_granted && req.term <= old(self).current_term ==> final(self).voted_for == old(self).voted_for,
            final(self).current_term == old(self).current_term && old(self).voted_for is Some
                ==> final(self).voted_for == old(self).voted_for,
            final(self).log == old(self).log,
            final(self).commit_index == old(self).commit_index,
    {
        if req.term < self.current_term {
            return VoteResponse { term: self.current_term, vote_granted: false };
        }
        if req.term > self.current_term {
            self.step_down(req.term);
        }
        let free = match self.voted_for {
            None => true,
            Some(v) => v == req.candidate_id,
        };
        let mine = self.log.last_log_id();
        let up_to_date = match mine {
            None => true,
            Some(m) => match req.last_log_id {
                None => false,
                Some(c) => c.term > m.term || (c.term == m.term && c.index >= m.index),
            },
        };
        if free && up_to_date {
            self.voted_for = Some(req.candidate_id);
            VoteResponse { term: self.current_term, vote_granted: true }
        } else {
            VoteResponse { term: self.current_term, vote_granted: false }
        }
    }

    /// Takes in the entries of the leader of the request's term. A request
    /// from an earlier term is refused; one whose previous entry this node
    /// does not hold is answered with a conflict. Otherwise the entries are
    /// merged into the log and the commit index follows the leader's, up to
    /// the last entry received.
    pub fn handle_append_entries(&mut self, req: AppendEntriesRequest) -> (r: AppendEntriesResponse)
        requires
            old(self).wf(),
            append_request_wf(req),
        ensures
            final(self).wf(),
            r.term == final(self).current_term,
            req.term < old(self).current_term ==> !r.success && !r.conflict && final(self).log
                == old(self).log && final(self).current_term == old(self).current_term,
            req.term >= old(self).current_term ==> final(self).current_term == req.term
                && final(self).leader_id == Some(req.leader_id),
            req.term >= old(self).current_term && old(self).state != ServerState::Learner
                ==> final(self).state == ServerState::Follower,
            req.term >= old(self).current_term ==> (r.conflict <==> (req.prev_log_id matches Some(
                p,
            ) && term_at_spec(old(self).log.entries@, p.index) != Some(p.term))),
            r.success <==> (req.term >= old(self).current_term && !r.conflict),
            r.conflict ==> final(self).log == old(self).log,
            r.success ==> final(self).log.entries@ == merge_entries(
                old(self).log.entries@,
                req.entries@,
            ),
            r.success ==> final(self).commit_index == if req.leader_commit > old(self).commit_index && prev_index(req.prev_log_id) + req.entries@.len() > old(self).commit_index {
                if req.leader_commit < prev_index(req.prev_log_id) + req.entries@.len() {
                    req.leader_commit as nat
                } else {
                    prev_index(req.prev_log_id) + req.entries@.len()
                }
            } else {
                old(self).commit_index as nat
            },
            !r.success ==> final(self).commit_index == old(self).commit_index,
            final(self).current_term == old(self).current_term ==> final(self).voted_for == old(self).voted_for,
    {
        if req.term < self.current_term {
            return AppendEntriesResponse { term: self.current_term, success: false, conflict: false };
        }
        if req.term > self.current_term {
            self.step_down(req.term);
        }
        if self.state != ServerState::Learner {
            self.state = ServerState::Follower;
        }
        self.leader_id = Some(req.leader_id);
        let prev: u64 = match req.prev_log_id {
            Some(p) => {
                match self.log.term_at(p.index) {
                    Some(t) => {
                        if t != p.term {
                            return AppendEntriesResponse {
                                term: self.current_term,
                                success: false,
                                conflict: true,
                            };
                        }
                    },
                    None => {
                        return AppendEntriesResponse {
                            term: self.current_term,
                            success: false,
                            conflict: true,
                        };
                    },
                }
                p.index
            },
            None => 0,
        };
        let ghost old_log = self.log.entries@;
        let ghost all = req.entries@;
        let ghost before = *self;
        let total = req.entries.len();
        let mut entries = req.entries;
        let mut q: u64 = prev;
        let mut k: usize = 0;
        while entries.len() > 0
            invariant
                self.wf(),
                self.current_term == req.term,
                self.leader_id == Some(req.leader_id),
                self.commit_index == before.commit_index,
                self.state == before.state,
                self.voted_for == before.voted_for,
                self.id == before.id,
                self.voters == before.voters,
                self.nodes == before.nodes,
                self.votes_received == before.votes_received,
                total == all.len(),
                k + entries@.len() == all.len(),
                entries@ == all.subrange(k as int, all.len() as int),
                q == prev_index(req.prev_log_id) + k,
                q <= self.log.entries@.len(),
                prev_index(req.prev_log_id) + all.len() <= u64::MAX,
                forall|j: int| 0 <= j < entries@.len() ==> #[trigger] entries@[j].log_id.index == q + 1 + j,
                forall|i: int, j: int|
                    0 <= i <= j < entries@.len() ==> #[trigger] entries@[i].log_id.term
                        <= #[trigger] entries@[j].log_id.term,
                forall|j: int| 0 <= j < entries@.len() ==> #[trigger] entries@[j].log_id.term <= req.term,
                q >= 1 ==> forall|j: int|
                    0 <= j < entries@.len() ==> self.log.entries@[q - 1].log_id.term
                        <= #[trigger] entries@[j].log_id.term,
                merge_entries(old_log, all) == merge_entries(self.log.entries@, entries@),
            decreases entries@.len(),
        {
            let ghost cur = self.log.entries@;
            let ghost rest = entries@;
            let e = entries.remove(0);
            assert(rest.drop_first() =~= entries@);
            assert(entries@ =~= all.subrange(k + 1, all.len() as int));
            let ghost merged = merge_entry(cur, e);
            assert(e.log_id.index == q + 1);
            match self.log.term_at(e.log_id.index) {
                Some(t) => {
                    if t != e.log_id.term {
                        self.log.truncate(e.log_id.index);
                        self.log.append(e);
                    }
                },
                None => {
                    self.log.append(e);
                },
            }
            assert(self.log.entries@ =~= merged);
            q = q + 1;
            k = k + 1;
        }
        assert(total == all.len());
        let last_new: u64 = prev + total as u64;
        if req.leader_commit > self.commit_index && last_new > self.commit_index {
            self.commit_index = if req.leader_commit < last_new {
                req.leader_commit
            } else {
                last_new
            };
        }
        AppendEntriesResponse { term: self.current_term, success: true, conflict: false }
    }

    /// Starts an election after the election timeout passed without word
    /// from a leader: a follower or candidate moves to the next term as a
    /// candidate and votes for itself; a learner or a leader does nothing.
    /// Answers the vote request to send to the other voters.
    pub fn start_election(&mut self) -> (r: Option<VoteRequest>)
        requires
            old(self).wf(),
            old(self).current_term < u64::MAX,
        ensures
            final(self).wf(),
            final(self).log == old(self).log,
            final(self).commit_index == old(self).commit_index,
            old(self).state == ServerState::Learner || old(self).state == ServerState::Leader
                ==> r is None && *final(self) == *old(self),
            old(self).state == ServerState::Follower || old(self).state == ServerState::Candidate
                ==> {
                &&& final(self).current_term == old(self).current_term + 1
                &&& final(self).voted_for == Some(old(self).id)
                &&& final(self).votes_received@ == if old(self).voters@.contains(old(self).id) {
                    seq![old(self).id]
                } else {
                    Seq::<u64>::empty()
                }
                &&& (final(self).state == ServerState::Leader <==> 2 * final(self).votes_received@.len() > final(self).voters@.len())
                &&& final(self).state != ServerState::Leader ==> final(self).state
                    == ServerState::Candidate && final(self).leader_id is None
                &&& final(self).state == ServerState::Leader ==> final(self).leader_id == Some(
                    old(self).id,
                )
                &&& r == Some(
                    VoteRequest {
                        term: final(self).current_term,
                        candidate_id: old(self).id,
                        last_log_id: last_id(old(self).log.entries@),
                    },
                )
            },
    {
        if self.state == ServerState::Learner || self.state == ServerState::Leader {
            return None;
        }
        self.current_term = self.current_term + 1;
        self.voted_for = Some(self.id);
        self.leader_id = None;
        self.state = ServerState::Candidate;
        let mut votes: Vec<u64> = Vec::new();
        if contains_id(&self.voters, self.id) {
            votes.push(self.id);
        }
        self.votes_received = votes;
        if (self.votes_received.len() as u128) * 2 > self.voters.len() as u128 {
            self.state = ServerState::Leader;
            self.leader_id = Some(self.id);
        }
        Some(
            VoteRequest {
                term: self.current_term,
                candidate_id: self.id,
                last_log_id: self.log.last_log_id(),
            },
        )
    }

    /// Takes in a voter's answer. A later term moves this node to that term
    /// as a follower. A candidate counts a vote granted in its own term by a
    /// voter it has not counted yet, and becomes the leader once a strict
    /// majority of the voters granted it.
    pub fn handle_vote_response(&mut self, from: u64, resp: VoteResponse)
        requires
            old(self).wf(),
        ensures
            final(self).wf(),
            final(self).log == old(self).log,
            final(self).commit_index == old(self).commit_index,
            resp.term > old(self).current_term ==> final(self).current_term == resp.term
                && final(self).voted_for is None && final(self).leader_id is None
                && final(self).state != ServerState::Leader
                && final(self).state != ServerState::Candidate,
            resp.term <= old(self).current_term ==> final(self).current_term == old(self).current_term && final(self).voted_for == old(self).voted_for,
            ({
                let counted = resp.term == old(self).current_term && old(self).state
                    == ServerState::Candidate && resp.vote_granted && old(self).voters@.contains(
                    from,
                ) && !old(self).votes_received@.contains(from);
                &&& counted ==> final(self).votes_received@ == old(self).votes_received@.push(from)
                &&& counted ==> (final(self).state == ServerState::Leader <==> 2 * final(self).votes_received@.len() > final(self).voters@.len())
                &&& counted && final(self).state == ServerState::Leader ==> final(self).leader_id
                    == Some(old(self).id)
                &&& !counted && resp.term <= old(self).current_term ==> *final(self) == *old(self)
            }),
            final(self).state == ServerState::Leader && old(self).state != ServerState::Leader
                ==> old(self).state == ServerState::Candidate && final(self).current_term == old(self).current_term && 2 * final(self).votes_received@.len() > final(self).voters@.len(),
    {
        if resp.term > self.current_term {
            self.step_down(resp.term);
            return ;
        }
        if resp.term == self.current_term && self.state == ServerState::Candidate
            && resp.vote_granted && contains_id(&self.voters, from) && !contains_id(
            &self.votes_received,
            from,
        ) {
            self.votes_received.push(from);
            if (self.votes_received.len() as u128) * 2 > self.voters.len() as u128 {
                self.state = ServerState::Leader;
                self.leader_id = Some(self.id);
            }
        }
    }

    /// Takes a committed membership into effect: its nodes become the voters
    /// and members for later elections and commits. Votes counted so far are
    /// dropped; a node that is no longer a voter stops leading or standing.
    pub fn apply_membership(&mut self, nodes: Vec<Node>)
        requires
            old(self).wf(),
        ensures
            final(self).wf(),
            final(self).nodes == nodes,
            forall|v: u64|
                final(self).voters@.contains(v) <==> exists|i: int|
                    0 <= i < nodes@.len() && #[trigger] nodes@[i].node_id == v,
            final(self).votes_received@.len() == 0,
            final(self).current_term == old(self).current_term,
            final(self).voted_for == old(self).voted_for,
            final(self).log == old(self).log,
            final(self).commit_index == old(self).commit_index,
            final(self).voters@.contains(old(self).id) || old(self).state == ServerState::Learner
                ==> final(self).state == old(self).state,
            !final(self).voters@.contains(old(self).id) && old(self).state != ServerState::Learner
                ==> final(self).state == ServerState::Follower,
    {
        let mut voters: Vec<u64> = Vec::new();
        let mut i: usize = 0;
        while i < nodes.len()
            invariant
                i <= nodes@.len(),
                voters@.no_duplicates(),
                forall|v: u64|
                    voters@.contains(v) <==> exists|j: int|
                        0 <= j < i && #[trigger] nodes@[j].node_id == v,
            decreases nodes@.len() - i,
        {
            let id = nodes[i].node_id;
            let ghost before = voters@;
            if !contains_id(&voters, id) {
                voters.push(id);
                assert forall|v: u64| voters@.contains(v) <==> (before.contains(v) || v == id) by {
                    if before.contains(v) {
                        let k = choose|k: int| 0 <= k < before.len() && before[k] == v;
                        assert(voters@[k] == v);
                    }
                    if v == id {
                        assert(voters@[before.len() as int] == v);
                    }
                    if voters@.contains(v) {
                        let k = choose|k: int| 0 <= k < voters@.len() && voters@[k] == v;
                        if k < before.len() {
                            assert(before[k] == v);
                        }
                    }
                }
            }
            assert(before.contains(id) || voters@ == before.push(id));
            assert(forall|v: u64| voters@.contains(v) <==> (before.contains(v) || v == id));
            assert forall|v: u64|
                voters@.contains(v) <==> exists|j: int|
                    0 <= j < i + 1 && #[trigger] nodes@[j].node_id == v by {
                if v == id {
                    assert(nodes@[i as int].node_id == v);
                }
                if before.contains(v) {
                    let j = choose|j: int| 0 <= j < i && #[trigger] nodes@[j].node_id == v;
                    assert(nodes@[j].node_id == v);
                }
                if exists|j: int| 0 <= j < i + 1 && #[trigger] nodes@[j].node_id == v {
                    let j = choose|j: int| 0 <= j < i + 1 && #[trigger] nodes@[j].node_id == v;
                    if j < i {
                        assert(before.contains(v));
                    }
                }
            }
            i = i + 1;
        }
        let is_voter = contains_id(&voters, self.id);
        self.voters = voters;
        self.nodes = nodes;
        self.votes_received = Vec::new();
        if !is_voter && self.state != ServerState::Learner {
            self.state = ServerState::Follower;
        }
    }

    /// Adds a member that replicates the log without voting.
    pub fn add_learner(&mut self, node: Node)
        requires
            old(self).wf(),
        ensures
            final(self).wf(),
            final(self).nodes@ == old(self).nodes@.push(node),
            final(self).voters == old(self).voters,
            final(self).votes_received == old(self).votes_received,
            final(self).current_term == old(self).current_term,
            final(self).voted_for == old(self).voted_for,
            final(self).state == old(self).state,
            final(self).leader_id == old(self).leader_id,
            final(self).log == old(self).log,
            final(self).commit_index == old(self).commit_index,
    {
        self.nodes.push(node);
    }

    /// Appends a client payload at the next index with the leader's term.
    /// A node that is not the leader refuses, naming the leader it knows.
    pub fn propose(&mut self, payload: EntryPayload) -> (r: Result<LogId, RobustMQError>)
        requires
            old(self).wf(),
            old(self).log.entries@.len() < u64::MAX,
        ensures
            final(self).wf(),
            old(self).state != ServerState::Leader ==> *final(self) == *old(self) && r == Err::<
                LogId,
                RobustMQError,
            >(RobustMQError::NotLeader(old(self).known_leader_addr())),
            old(self).state == ServerState::Leader ==> r == Ok::<LogId, RobustMQError>(
                LogId { term: old(self).current_term, index: (old(self).log.entries@.len() + 1) as u64 },
            ) && final(self).log.entries@ == old(self).log.entries@.push(
                Entry { log_id: r->Ok_0, payload },
            ) && final(self).current_term == old(self).current_term && final(self).state
                == old(self).state && final(self).commit_index == old(self).commit_index,
    {
        if self.state != ServerState::Leader {
            let addr = self.leader_addr();
            return Err(RobustMQError::NotLeader(addr));
        }
        let id = LogId { term: self.current_term, index: self.log.entries.len() as u64 + 1 };
        self.log.append(Entry { log_id: id, payload });
        Ok(id)
    }

    /// Advances the commit index of a leader to the highest index that a
    /// strict majority of the voters persisted, when that entry is of the
    /// leader's own term. `matched` holds the persisted index of each voter.
    pub fn update_commit(&mut self, matched: &Vec<u64>)
        requires
            old(self).wf(),
            matched@.len() > 0,
        ensures
            final(self).wf(),
            final(self).log == old(self).log,
            final(self).current_term == old(self).current_term,
            final(self).state == old(self).state,
            ({
                let n = choose|n: u64|
                    (exists|i: int| 0 <= i < matched@.len() && matched@[i] == n)
                        && majority_reached(matched@, n) && forall|i: int|
                        0 <= i < matched@.len() && majority_reached(
                            matched@,
                            #[trigger] matched@[i],
                        ) ==> matched@[i] <= n;
                final(self).commit_index == if old(self).state == ServerState::Leader && n > old(self).commit_index && term_at_spec(old(self).log.entries@, n) == Some(
                    old(self).current_term,
                ) {
                    n
                } else {
                    old(self).commit_index
                }
            }),
    {
        let n = majority_index(matched);
        proof {
            let m = choose|m: u64|
                (exists|i: int| 0 <= i < matched@.len() && matched@[i] == m)
                    && majority_reached(matched@, m) && forall|i: int|
                    0 <= i < matched@.len() && majority_reached(matched@, #[trigger] matched@[i])
                        ==> matched@[i] <= m;
            let i = choose|i: int| 0 <= i < matched@.len() && matched@[i] == m;
            let j = choose|j: int| 0 <= j < matched@.len() && matched@[j] == n;
            assert(m <= n && n <= m);
        }
        if self.state == ServerState::Leader && n > self.commit_index {
            if self.log.term_at(n) == Some(self.current_term) {
                self.commit_index = n;
            }
        }
    }

    /// The committed entries after index `applied`, in index order, for the
    /// state machine to apply.
    pub fn entries_to_apply(&self, applied: u64) -> (r: Vec<Entry>)
        requires
            self.wf(),
            self.log.entries@.len() < u64::MAX,
        ensures
            ({
                let hi = if self.commit_index < self.log.entries@.len() {
                    self.commit_index as int
                } else {
                    self.log.entries@.len() as int
                };
                &&& applied < hi ==> r@.map_values(|e: Entry| e@) == self.log.entries@.subrange(
                    applied as int,
                    hi,
                ).map_values(|e: Entry| e@)
                &&& applied >= hi ==> r@.len() == 0
            }),
            forall|k: int| 0 <= k < r@.len() ==> #[trigger] r@[k].log_id.index == applied + 1 + k,
    {
        let len = self.log.entries.len();
        let hi: u64 = if (self.commit_index as u128) < len as u128 {
            self.commit_index
        } else {
            len as u64
        };
        if applied < hi {
            let r = self.log.get_log_entries(applied + 1, hi + 1);
            let ghost sub = self.log.entries@.subrange(applied as int, hi as int);
            assert(r@.map_values(|e: Entry| e@).len() == r@.len());
            assert(sub.map_values(|e: Entry| e@).len() == sub.len());
            assert(r@.len() == hi - applied);
            assert forall|k: int| 0 <= k < r@.len() implies #[trigger] r@[k].log_id.index == applied
                + 1 + k by {
                assert(r@.map_values(|e: Entry| e@)[k] == self.log.entries@.subrange(
                    applied as int,
                    hi as int,
                ).map_values(|e: Entry| e@)[k]);
                assert(r@.map_values(|e: Entry| e@)[k] == r@[k]@);
                assert(sub.map_values(|e: Entry| e@)[k] == sub[k]@);
                assert(sub[k] == self.log.entries@[applied + k]);
                assert(self.log.entries@[applied + k].log_id.index == applied + k + 1);
            }
            r
        } else {
            Vec::new()
        }
    }

}

} // verus!
