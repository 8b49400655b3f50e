use placement_center::config::Node;
use placement_center::error::RobustMQError;
use placement_center::state_machine::{
    AppRequestData, Entry, EntryPayload, LogId, StateMachineStore, StoredSnapshot,
};

fn set(index: u64, key: &str, value: &str) -> Entry {
    Entry {
        log_id: LogId { term: 1, index },
        payload: EntryPayload::Normal(AppRequestData::KvSet {
            key: key.to_string(),
            value: value.to_string(),
        }),
    }
}

fn del(index: u64, key: &str) -> Entry {
    Entry {
        log_id: LogId { term: 1, index },
        payload: EntryPayload::Normal(AppRequestData::KvDelete { key: key.to_string() }),
    }
}

fn sorted(mut kvs: Vec<(String, String)>) -> Vec<(String, String)> {
    kvs.sort();
    kvs
}

#[test]
fn apply_sets_deletes_and_answers() {
    let mut sm = StateMachineStore::empty();
    let entries = vec![
        set(1, "a", "1"),
        set(2, "b", "2"),
        Entry { log_id: LogId { term: 1, index: 3 }, payload: EntryPayload::Blank },
        del(4, "a"),
        set(5, "b", "3"),
    ];
    let replies = sm.apply(entries);
    let values: Vec<Option<String>> = replies.into_iter().map(|r| r.value).collect();
    assert_eq!(
        values,
        vec![Some("1".to_string()), Some("2".to_string()), None, None, Some("3".to_string())]
    );
    assert_eq!(sm.data.kvs, vec![("b".to_string(), "3".to_string())]);
    assert_eq!(sm.data.last_applied_log_id, Some(LogId { term: 1, index: 5 }));
}

#[test]
fn apply_membership_entry() {
    let mut sm = StateMachineStore::empty();
    let nodes = vec![Node { node_id: 1, rpc_addr: "127.0.0.1:1228".to_string() }];
    let id = LogId { term: 2, index: 1 };
    sm.apply(vec![Entry { log_id: id, payload: EntryPayload::Membership(nodes.clone()) }]);
    let (applied, membership) = sm.applied_state();
    assert_eq!(applied, Some(id));
    assert_eq!(membership.log_id, Some(id));
    assert_eq!(membership.nodes, nodes);
}

#[test]
fn replay_in_batches_matches_replay_at_once() {
    let all = vec![set(1, "a", "1"), set(2, "b", "2"), del(3, "a"), set(4, "c", "3"), set(5, "b", "9")];
    let mut at_once = StateMachineStore::empty();
    at_once.apply(all.clone());
    let mut batched = StateMachineStore::empty();
    batched.apply(all[0..2].to_vec());
    batched.apply(all[2..3].to_vec());
    batched.apply(all[3..].to_vec());
    assert_eq!(sorted(batched.data.kvs.clone()), sorted(at_once.data.kvs.clone()));
    assert_eq!(batched.data.last_applied_log_id, at_once.data.last_applied_log_id);
}

#[test]
fn snapshot_round_trip_on_fresh_machine() {
    let mut sm = StateMachineStore::empty();
    sm.apply(vec![set(1, "mq", "robustmq"), set(2, "k", "v"), del(3, "k"), set(4, "z", "\"q\"")]);
    let snap = sm.build_snapshot().unwrap();
    assert_eq!(snap.meta.snapshot_id, "1-4-1");
    assert_eq!(snap.data, br#"{"mq":"robustmq","z":"\"q\""}"#.to_vec());
    let mut fresh = StateMachineStore::empty();
    fresh.install_snapshot(&snap.meta, snap.data.clone()).unwrap();
    assert_eq!(sorted(fresh.data.kvs.clone()), sorted(sm.data.kvs.clone()));
    assert_eq!(fresh.data.last_applied_log_id, sm.data.last_applied_log_id);
    assert_eq!(fresh.get_current_snapshot(), Some(snap));
}

#[test]
fn snapshot_of_empty_machine() {
    let mut sm = StateMachineStore::empty();
    let first = sm.build_snapshot().unwrap();
    assert_eq!(first.meta.snapshot_id, "--1");
    assert_eq!(first.data, b"{}".to_vec());
    let second = sm.build_snapshot().unwrap();
    assert_eq!(second.meta.snapshot_id, "--2");
    assert_eq!(sm.get_current_snapshot(), Some(second));
}

#[test]
fn install_of_bad_data_changes_nothing() {
    let mut sm = StateMachineStore::empty();
    sm.apply(vec![set(1, "a", "1")]);
    let snap = sm.build_snapshot().unwrap();
    let r = sm.install_snapshot(&snap.meta, b"[1,2".to_vec());
    assert!(matches!(r, Err(RobustMQError::SerdeJsonError(_))));
    assert_eq!(sm.data.kvs, vec![("a".to_string(), "1".to_string())]);
    assert_eq!(sm.get_current_snapshot(), Some(snap));
}

#[test]
fn restore_from_persisted_snapshot_then_replay() {
    let mut live = StateMachineStore::empty();
    live.apply(vec![set(1, "a", "1"), set(2, "b", "2")]);
    let snap: StoredSnapshot = live.build_snapshot().unwrap();
    live.apply(vec![del(3, "a"), set(4, "c", "3")]);

    let mut restored = StateMachineStore::new(Some(snap)).unwrap();
    assert_eq!(restored.data.last_applied_log_id, Some(LogId { term: 1, index: 2 }));
    restored.apply(vec![del(3, "a"), set(4, "c", "3")]);
    assert_eq!(sorted(restored.data.kvs.clone()), sorted(live.data.kvs.clone()));

    let empty = StateMachineStore::new(None).unwrap();
    assert!(empty.data.kvs.is_empty());
    assert_eq!(empty.data.last_applied_log_id, None);
    assert_eq!(empty.data.last_membership.log_id, None);
    assert!(empty.data.last_membership.nodes.is_empty());
    assert_eq!(empty.get_current_snapshot(), None);
}
