//! The replicated state machine: committed log entries applied in order to a
//! key-value map and a membership, with point-in-time snapshots.
use crate::assoc::{keys_unique, kv_map, kv_put, kv_take, lemma_kv_map_finite, text_map};
use crate::codec::{
    decimal, json_error_text, json_of_kvs, kvs_from_json, kvs_to_json, u64_to_decimal,
};
use crate::config::{duplicate_nodes, Node};
use crate::error::RobustMQError;
use vstd::prelude::*;

verus! {

/// Position of an entry in the log and the term of the leader that wrote it.
#[derive(Clone, Copy, Debug, PartialEq, Eq, Structural)]
pub struct LogId {
    pub term: u64,
    pub index: u64,
}

/// A client write carried by a log entry.
#[derive(Clone, Debug, PartialEq, Eq)]
pub enum AppRequestData {
    KvSet { key: String, value: String },
    KvDelete { key: String },
}

/// What applying an entry answers to the client that proposed it.
#[derive(Clone, Debug, PartialEq, Eq)]
pub struct AppResponseData {
    pub value: Option<String>,
}

/// What a log entry carries.
#[derive(Clone, Debug, PartialEq, Eq)]
pub enum EntryPayload {
    Blank,
    Normal(AppRequestData),
    Membership(Vec<Node>),
}

/// The unit of replication.
#[derive(Clone, Debug, PartialEq, Eq)]
pub struct Entry {
    pub log_id: LogId,
    pub payload: EntryPayload,
}

/// The last membership applied, with the id of the entry that carried it.
#[derive(Clone, Debug, PartialEq, Eq, Default)]
pub struct StoredMembership {
    pub log_id: Option<LogId>,
    pub nodes: Vec<Node>,
}

/// What a snapshot covers.
#[derive(Clone, Debug, PartialEq, Eq)]
pub struct SnapshotMeta {
    pub last_log_id: Option<LogId>,
    pub last_membership: StoredMembership,
    pub snapshot_id: String,
}

/// A snapshot: its metadata and the encoded key-value map.
#[derive(Clone, Debug, PartialEq, Eq)]
pub struct StoredSnapshot {
    pub meta: SnapshotMeta,
    pub data: Vec<u8>,
}

/// The materialized view of the applied log.
#[derive(Clone, Debug)]
pub struct StateMachineData {
    pub last_applied_log_id: Option<LogId>,
    pub last_membership: StoredMembership,
    /// Key-value pairs built from the applied entries; keys are unique.
    pub kvs: Vec<(String, String)>,
}

/// The state machine with its current snapshot.
#[derive(Clone, Debug)]
pub struct StateMachineStore {
    pub data: StateMachineData,
    /// Number of snapshots built so far; it tells snapshot ids apart.
    pub snapshot_idx: u64,
    /// The one snapshot that is current.
    pub current_snapshot: Option<StoredSnapshot>,
}

/// The map after one write.
pub open spec fn apply_request(m: Map<Seq<char>, Seq<char>>, r: AppRequestData) -> Map<
    Seq<char>,
    Seq<char>,
> {
    match r {
        AppRequestData::KvSet { key, value } => m.insert(key@, value@),
        AppRequestData::KvDelete { key } => m.remove(key@),
    }
}

/// The map after one entry: only client writes change it.
pub open spec fn apply_payload(m: Map<Seq<char>, Seq<char>>, p: EntryPayload) -> Map<
    Seq<char>,
    Seq<char>,
> {
    match p {
        EntryPayload::Normal(r) => apply_request(m, r),
        _ => m,
    }
}

/// The map after the entries `es`, applied in order from `m`.
pub open spec fn replay(m: Map<Seq<char>, Seq<char>>, es: Seq<Entry>) -> Map<Seq<char>, Seq<char>>
    decreases es.len(),
{
    if es.len() == 0 {
        m
    } else {
        apply_payload(replay(m, es.drop_last()), es.last().payload)
    }
}

/// The membership after the entries `es`: the one of the last membership entry.
pub open spec fn membership_after(mem: StoredMembership, es: Seq<Entry>) -> StoredMembership
    decreases es.len(),
{
    if es.len() == 0 {
        mem
    } else {
        match es.last().payload {
            EntryPayload::Membership(nodes) => StoredMembership {
                log_id: Some(es.last().log_id),
                nodes,
            },
            _ => membership_after(mem, es.drop_last()),
        }
    }
}

/// The last applied id after the entries `es`.
pub open spec fn applied_after(last: Option<LogId>, es: Seq<Entry>) -> Option<LogId> {
    if es.len() == 0 {
        last
    } else {
        Some(es.last().log_id)
    }
}

/// The answer to the client for an entry: a write answers the value it set.
pub open spec fn response_of(p: EntryPayload) -> Option<String> {
    match p {
        EntryPayload::Normal(AppRequestData::KvSet { key, value }) => Some(value),
        _ => None,
    }
}

/// The entries come in strictly increasing index order, after `last`.
pub open spec fn entries_follow(last: Option<LogId>, es: Seq<Entry>) -> bool {
    &&& forall|i: int, j: int|
        0 <= i < j < es.len() ==> #[trigger] es[i].log_id.index < #[trigger] es[j].log_id.index
    &&& last matches Some(l) ==> forall|i: int|
        0 <= i < es.len() ==> l.index < #[trigger] es[i].log_id.index
}

/// The text of a snapshot id: the term and index of the last applied entry
/// and the number of the snapshot, joined by dashes.
pub open spec fn snapshot_id_text(last: Option<LogId>, idx: u64) -> Seq<char> {
    match last {
        Some(l) => decimal(l.term as nat) + seq!['-'] + decimal(l.index as nat) + seq!['-']
            + decimal(idx as nat),
        None => seq!['-', '-'] + decimal(idx as nat),
    }
}

/// `s` is a snapshot of `d`: the same last applied id and membership, and
/// the encoded key-value map.
pub open spec fn snapshot_of(d: StateMachineData, s: StoredSnapshot) -> bool {
    &&& s.meta.last_log_id == d.last_applied_log_id
    &&& s.meta.last_membership@ == d.last_membership@
    &&& s.data@ == json_of_kvs(text_map(d.kvs@))
}

/// `d` is what installing a snapshot with `meta` and `data` leaves: the
/// metadata taken over, and the map that `data` encodes.
pub open spec fn installed(d: StateMachineData, meta: SnapshotMeta, data: Seq<u8>) -> bool {
    &&& d.last_applied_log_id == meta.last_log_id
    &&& d.last_membership@ == meta.last_membership@
    &&& keys_unique(d.kvs@)
    &&& forall|m: Map<Seq<char>, Seq<char>>|
        m.dom().finite() && #[trigger] json_of_kvs(m) == data ==> text_map(d.kvs@) == m
}

impl View for StoredMembership {
    type V = (Option<LogId>, Seq<Node>);

    open spec fn view(&self) -> (Option<LogId>, Seq<Node>) {
        (self.log_id, self.nodes@)
    }
}

impl View for SnapshotMeta {
    type V = (Option<LogId>, (Option<LogId>, Seq<Node>), Seq<char>);

    open spec fn view(&self) -> (Option<LogId>, (Option<LogId>, Seq<Node>), Seq<char>) {
        (self.last_log_id, self.last_membership@, self.snapshot_id@)
    }
}

/// What a payload carries, with the node list as a sequence.
pub enum PayloadView {
    Blank,
    Normal(AppRequestData),
    Membership(Seq<Node>),
}

impl View for EntryPayload {
    type V = PayloadView;

    open spec fn view(&self) -> PayloadView {
        match self {
            EntryPayload::Blank => PayloadView::Blank,
            EntryPayload::Normal(r) => PayloadView::Normal(*r),
            EntryPayload::Membership(nodes) => PayloadView::Membership(nodes@),
        }
    }
}

impl View for Entry {
    type V = (LogId, PayloadView);

    open spec fn view(&self) -> (LogId, PayloadView) {
        (self.log_id, self.payload@)
    }
}

impl AppRequestData {
    pub fn duplicate(&self) -> (r: AppRequestData)
        ensures
            r == *self,
    {
        match self {
            AppRequestData::KvSet { key, value } => AppRequestData::KvSet {
                key: key.clone(),
                value: value.clone(),
            },
            AppRequestData::KvDelete { key } => AppRequestData::KvDelete { key: key.clone() },
        }
    }
}

impl Entry {
    pub fn duplicate(&self) -> (r: Entry)
        ensures
            r@ == self@,
    {
        let payload = match &self.payload {
            EntryPayload::Blank => EntryPayload::Blank,
            EntryPayload::Normal(req) => EntryPayload::Normal(req.duplicate()),
            EntryPayload::Membership(nodes) => EntryPayload::Membership(duplicate_nodes(nodes)),
        };
        Entry { log_id: self.log_id, payload }
    }
}

impl StoredMembership {
    pub fn duplicate(&self) -> (r: StoredMembership)
        ensures
            r@ == self@,
    {
        StoredMembership { log_id: self.log_id, nodes: duplicate_nodes(&self.nodes) }
    }
}

impl SnapshotMeta {
    pub fn duplicate(&self) -> (r: SnapshotMeta)
        ensures
            r@ == self@,
    {
        SnapshotMeta {
            last_log_id: self.last_log_id,
            last_membership: self.last_membership.duplicate(),
            snapshot_id: self.snapshot_id.clone(),
        }
    }
}

/// A copy of a byte buffer.
fn duplicate_bytes(b: &Vec<u8>) -> (r: Vec<u8>)
    ensures
        r@ == b@,
{
    let mut r: Vec<u8> = Vec::new();
    let mut i: usize = 0;
    while i < b.len()
        invariant
            i <= b@.len(),
            r@ == b@.subrange(0, i as int),
        decreases b@.len() - i,
    {
        r.push(b[i]);
        i = i + 1;
        assert(r@ =~= b@.subrange(0, i as int));
    }
    assert(r@ =~= b@);
    r
}

impl StoredSnapshot {
    pub fn duplicate(&self) -> (r: StoredSnapshot)
        ensures
            r.meta@ == self.meta@,
            r.data@ == self.data@,
    {
        StoredSnapshot { meta: self.meta.duplicate(), data: duplicate_bytes(&self.data) }
    }
}

impl StateMachineData {
    pub open spec fn wf(self) -> bool {
        keys_unique(self.kvs@)
    }

    /// The key-value map as a map of texts.
    pub open spec fn kv_view(self) -> Map<Seq<char>, Seq<char>> {
        text_map(self.kvs@)
    }
}

impl StateMachineStore {
    pub open spec fn wf(self) -> bool {
        self.data.wf()
    }

    /// A state machine that has applied nothing.
    pub fn empty() -> (r: StateMachineStore)
        ensures
            r.wf(),
            r.data.last_applied_log_id is None,
            r.data.last_membership.log_id is None,
            r.data.last_membership.nodes@.len() == 0,
            r.data.kv_view() == Map::<Seq<char>, Seq<char>>::empty(),
            r.snapshot_idx == 0,
            r.current_snapshot is None,
    {
        let r = StateMachineStore {
            data: StateMachineData {
                last_applied_log_id: None,
                last_membership: StoredMembership { log_id: None, nodes: Vec::new() },
                kvs: Vec::new(),
            },
            snapshot_idx: 0,
            current_snapshot: None,
        };
        assert(r.data.kv_view() =~= Map::<Seq<char>, Seq<char>>::empty());
        r
    }

    /// A state machine restored from the snapshot that was current when the
    /// node stopped, if there was one.
    pub fn new(persisted: Option<StoredSnapshot>) -> (r: Result<StateMachineStore, RobustMQError>)
        ensures
            r matches Ok(sm) ==> sm.wf() && sm.snapshot_idx == 0,
            persisted is None ==> (r matches Ok(sm) && sm.data.last_applied_log_id is None
                && sm.data.last_membership.log_id is None
                && sm.data.last_membership.nodes@.len() == 0
                && sm.data.kv_view() == Map::<Seq<char>, Seq<char>>::empty()
                && sm.current_snapshot is None),
            persisted matches Some(s) ==> (r matches Ok(sm) ==> installed(sm.data, s.meta, s.data@)
                && sm.current_snapshot == Some(s)),
            persisted matches Some(s) ==> (forall|m: Map<Seq<char>, Seq<char>>|
                m.dom().finite() && #[trigger] json_of_kvs(m) == s.data@ ==> r is Ok),
            persisted matches Some(s) ==> (r matches Err(e) ==> e is SerdeJsonError),
    {
        let mut sm = StateMachineStore::empty();
        match persisted {
            None => Ok(sm),
            Some(snap) => {
                match sm.update_state_machine_(&snap) {
                    Ok(()) => {
                        sm.current_snapshot = Some(snap);
                        Ok(sm)
                    },
                    Err(e) => Err(e),
                }
            },
        }
    }

    /// Replaces the applied state by the one a snapshot holds.
    fn update_state_machine_(&mut self, snapshot: &StoredSnapshot) -> (r: Result<(), RobustMQError>)
        requires
            old(self).wf(),
        ensures
            final(self).wf(),
            final(self).snapshot_idx == old(self).snapshot_idx,
            final(self).current_snapshot == old(self).current_snapshot,
            r is Ok ==> installed(final(self).data, snapshot.meta, snapshot.data@),
            r is Err ==> final(self).data == old(self).data,
            r matches Err(e) ==> e is SerdeJsonError,
            forall|m: Map<Seq<char>, Seq<char>>|
                m.dom().finite() && #[trigger] json_of_kvs(m) == snapshot.data@ ==> r is Ok,
    {
        let kvs = match kvs_from_json(snapshot.data.as_slice()) {
            Ok(v) => v,
            Err(e) => {
                return Err(RobustMQError::SerdeJsonError(json_error_text(&e)));
            },
        };
        self.data.last_applied_log_id = snapshot.meta.last_log_id;
        self.data.last_membership = snapshot.meta.last_membership.duplicate();
        self.data.kvs = kvs;
        Ok(())
    }

    /// Applies committed entries in index order: a write sets or removes its
    /// key, a membership entry becomes the last membership, and every entry
    /// becomes the last applied one. Answers one response per entry.
    pub fn apply(&mut self, entries: Vec<Entry>) -> (r: Vec<AppResponseData>)
        requires
            old(self).wf(),
            entries_follow(old(self).data.last_applied_log_id, entries@),
        ensures
            final(self).wf(),
            final(self).data.kv_view() == replay(old(self).data.kv_view(), entries@),
            final(self).data.last_applied_log_id == applied_after(
                old(self).data.last_applied_log_id,
                entries@,
            ),
            final(self).data.last_membership@ == membership_after(
                old(self).data.last_membership,
                entries@,
            )@,
            old(self).data.last_applied_log_id matches Some(l) ==> (final(self).data.last_applied_log_id matches Some(f) && f.index >= l.index),
            final(self).snapshot_idx == old(self).snapshot_idx,
            final(self).current_snapshot == old(self).current_snapshot,
            r@.len() == entries@.len(),
            forall|i: int| 0 <= i < entries@.len() ==> #[trigger] r@[i].value == response_of(
                entries@[i].payload,
            ),
    {
        let mut replies: Vec<AppResponseData> = Vec::new();
        let mut i: usize = 0;
        while i < entries.len()
            invariant
                i <= entries@.len(),
                self.wf(),
                self.data.kv_view() == replay(old(self).data.kv_view(), entries@.subrange(0, i as int)),
                self.data.last_applied_log_id == applied_after(
                    old(self).data.last_applied_log_id,
                    entries@.subrange(0, i as int),
                ),
                self.data.last_membership@ == membership_after(
                    old(self).data.last_membership,
                    entries@.subrange(0, i as int),
                )@,
                self.snapshot_idx == old(self).snapshot_idx,
                self.current_snapshot == old(self).current_snapshot,
                replies@.len() == i,
                forall|j: int| 0 <= j < i ==> #[trigger] replies@[j].value == response_of(
                    entries@[j].payload,
                ),
            decreases entries@.len() - i,
        {
            let ghost before = self.data.kv_view();
            let ghost pre = entries@.subrange(0, i as int);
            let ghost post = entries@.subrange(0, i + 1);
            assert(post.drop_last() =~= pre);
            assert(post.last() == entries@[i as int]);
            let ent = &entries[i];
            self.data.last_applied_log_id = Some(ent.log_id);
            let mut resp_value: Option<String> = None;
            match &ent.payload {
                EntryPayload::Blank => {},
                EntryPayload::Normal(req) => match req {
                    AppRequestData::KvSet { key, value } => {
                        resp_value = Some(value.clone());
                        kv_put(&mut self.data.kvs, key.clone(), value.clone());
                        assert(self.data.kv_view() =~= before.insert(key@, value@));
                    },
                    AppRequestData::KvDelete { key } => {
                        let _ = kv_take(&mut self.data.kvs, key);
                        assert(self.data.kv_view() =~= before.remove(key@));
                    },
                },
                EntryPayload::Membership(nodes) => {
                    self.data.last_membership = StoredMembership {
                        log_id: Some(ent.log_id),
                        nodes: duplicate_nodes(nodes),
                    };
                },
            }
            replies.push(AppResponseData { value: resp_value });
            i = i + 1;
        }
        assert(entries@.subrange(0, entries@.len() as int) =~= entries@);
        replies
    }

    /// Builds a snapshot of the applied state, numbered after the snapshots
    /// built before, and makes it the current one.
    pub fn build_snapshot(&mut self) -> (r: Result<StoredSnapshot, RobustMQError>)
        requires
            old(self).wf(),
            old(self).snapshot_idx < u64::MAX,
        ensures
            final(self).wf(),
            final(self).data == old(self).data,
            final(self).snapshot_idx == old(self).snapshot_idx + 1,
            r is Ok,
            r matches Ok(s) ==> snapshot_of(old(self).data, s) && s.meta.snapshot_id@
                == snapshot_id_text(old(self).data.last_applied_log_id, final(self).snapshot_idx)
                && (final(self).current_snapshot matches Some(c) && c.meta@ == s.meta@ && c.data@
                == s.data@),
    {
        self.snapshot_idx = self.snapshot_idx + 1;
        let kv_json = match kvs_to_json(&self.data.kvs) {
            Ok(b) => b,
            Err(e) => {
                return Err(RobustMQError::SerdeJsonError(json_error_text(&e)));
            },
        };
        let idx_text = u64_to_decimal(self.snapshot_idx);
        let snapshot_id = match self.data.last_applied_log_id {
            Some(last) => {
                let mut t = u64_to_decimal(last.term);
                t.append("-");
                t.append(u64_to_decimal(last.index).as_str());
                t.append("-");
                t.append(idx_text.as_str());
                t
            },
            None => {
                let mut t = String::new();
                t.append("--");
                t.append(idx_text.as_str());
                t
            },
        };
        proof {
            reveal_strlit("-");
            reveal_strlit("--");
        }
        assert(snapshot_id@ =~= snapshot_id_text(self.data.last_applied_log_id, self.snapshot_idx));
        let meta = SnapshotMeta {
            last_log_id: self.data.last_applied_log_id,
            last_membership: self.data.last_membership.duplicate(),
            snapshot_id,
        };
        let snapshot = StoredSnapshot { meta, data: kv_json };
        self.current_snapshot = Some(snapshot.duplicate());
        Ok(snapshot)
    }

    /// Installs a snapshot received from the leader: the applied state is
    /// replaced wholesale, and the snapshot becomes the current one. Data
    /// that does not decode leaves everything as it was.
    pub fn install_snapshot(&mut self, meta: &SnapshotMeta, data: Vec<u8>) -> (r: Result<
        (),
        RobustMQError,
    >)
        requires
            old(self).wf(),
        ensures
            final(self).wf(),
            final(self).snapshot_idx == old(self).snapshot_idx,
            r is Ok ==> installed(final(self).data, *meta, data@),
            r is Ok ==> (final(self).current_snapshot matches Some(s) && s.meta@ == meta@
                && s.data@ == data@),
            r is Err ==> final(self).data == old(self).data && final(self).current_snapshot
                == old(self).current_snapshot,
            r matches Err(e) ==> e is SerdeJsonError,
            forall|m: Map<Seq<char>, Seq<char>>|
                m.dom().finite() && #[trigger] json_of_kvs(m) == data@ ==> r is Ok,
    {
        let snap = StoredSnapshot { meta: meta.duplicate(), data };
        match self.update_state_machine_(&snap) {
            Ok(()) => {
                self.current_snapshot = Some(snap);
                Ok(())
            },
            Err(e) => Err(e),
        }
    }

    /// The last applied id and the last membership.
    pub fn applied_state(&self) -> (r: (Option<LogId>, StoredMembership))
        ensures
            r.0 == self.data.last_applied_log_id,
            r.1@ == self.data.last_membership@,
    {
        (self.data.last_applied_log_id, self.data.last_membership.duplicate())
    }

    /// The snapshot that is current, if any.
    pub fn get_current_snapshot(&self) -> (r: Option<StoredSnapshot>)
        ensures
            r is Some <==> self.current_snapshot is Some,
            r matches Some(s) ==> s.meta@ == self.current_snapshot->Some_0.meta@
                && s.data@ == self.current_snapshot->Some_0.data@,
    {
        match &self.current_snapshot {
            Some(s) => Some(s.duplicate()),
            None => None,
        }
    }
}

/// Replaying entries batch by batch gives the map that replaying all of them
/// at once gives: the live view after any split of the committed entries into
/// applied batches equals a replay of the whole log from the start, and a
/// state restored from a snapshot followed by the later entries equals a
/// continuous replay.
pub proof fn lemma_replay_concat(m: Map<Seq<char>, Seq<char>>, a: Seq<Entry>, b: Seq<Entry>)
    ensures
        replay(replay(m, a), b) == replay(m, a + b),
    decreases b.len(),
{
    if b.len() == 0 {
        assert(a + b =~= a);
    } else {
        lemma_replay_concat(m, a, b.drop_last());
        assert((a + b).drop_last() =~= a + b.drop_last());
        assert((a + b).last() == b.last());
    }
}

/// The membership after two batches is the one after both at once.
pub proof fn lemma_membership_concat(mem: StoredMembership, a: Seq<Entry>, b: Seq<Entry>)
    ensures
        membership_after(membership_after(mem, a), b) == membership_after(mem, a + b),
    decreases b.len(),
{
    if b.len() == 0 {
        assert(a + b =~= a);
    } else {
        lemma_membership_concat(mem, a, b.drop_last());
        assert((a + b).drop_last() =~= a + b.drop_last());
        assert((a + b).last() == b.last());
    }
}

/// Applying committed entries in batches, from any state, leaves the map,
/// the last applied id and the membership that one application of all of
/// them leaves. With `d` a fresh machine (nothing applied, empty map and
/// membership), this is replay from the start: the live view of a machine
/// that applied the log in any number of calls equals a fresh machine that
/// applies the whole log at once.
pub proof fn lemma_apply_batches(d: StateMachineData, a: Seq<Entry>, b: Seq<Entry>)
    requires
        entries_follow(d.last_applied_log_id, a + b),
    ensures
        entries_follow(d.last_applied_log_id, a),
        entries_follow(applied_after(d.last_applied_log_id, a), b),
        replay(replay(d.kv_view(), a), b) == replay(d.kv_view(), a + b),
        applied_after(applied_after(d.last_applied_log_id, a), b) == applied_after(
            d.last_applied_log_id,
            a + b,
        ),
        membership_after(membership_after(d.last_membership, a), b) == membership_after(
            d.last_membership,
            a + b,
        ),
{
    let ab = a + b;
    lemma_replay_concat(d.kv_view(), a, b);
    lemma_membership_concat(d.last_membership, a, b);
    assert forall|i: int, j: int| 0 <= i < j < a.len() implies #[trigger] a[i].log_id.index
        < #[trigger] a[j].log_id.index by {
        assert(ab[i] == a[i] && ab[j] == a[j]);
    }
    assert forall|i: int, j: int| 0 <= i < j < b.len() implies #[trigger] b[i].log_id.index
        < #[trigger] b[j].log_id.index by {
        assert(ab[a.len() + i] == b[i] && ab[a.len() + j] == b[j]);
    }
    if let Some(l) = d.last_applied_log_id {
        assert forall|i: int| 0 <= i < a.len() implies l.index < #[trigger] a[i].log_id.index by {
            assert(ab[i] == a[i]);
        }
    }
    if let Some(l) = applied_after(d.last_applied_log_id, a) {
        assert forall|i: int| 0 <= i < b.len() implies l.index < #[trigger] b[i].log_id.index by {
            assert(ab[a.len() + i] == b[i]);
            if a.len() > 0 {
                assert(ab[a.len() - 1] == a.last());
            } else {
                assert(d.last_applied_log_id == Some(l));
            }
        }
    }
    if b.len() > 0 {
        assert(ab.last() == b.last());
    } else {
        assert(ab =~= a);
    }
}

/// A snapshot built from a state machine and installed on another one gives
/// that one the same key-value map, last applied id and membership.
pub proof fn lemma_snapshot_round_trip(d: StateMachineData, s: StoredSnapshot, e: StateMachineData)
    requires
        d.wf(),
        snapshot_of(d, s),
        installed(e, s.meta, s.data@),
    ensures
        e.kv_view() == d.kv_view(),
        e.last_applied_log_id == d.last_applied_log_id,
        e.last_membership@ == d.last_membership@,
{
    lemma_kv_map_finite(d.kvs@);
    assert(text_map(d.kvs@).dom() =~= kv_map(d.kvs@).dom());
    assert(json_of_kvs(text_map(d.kvs@)) == s.data@);
}

} // verus!
