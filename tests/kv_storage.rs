use placement_center::error::RobustMQError;
use placement_center::state_machine::AppRequestData;
use placement_center::storage::{DataRoute, KvStorage, StorageDataWrap, StorageEngine};

#[test]
fn set_exists_get_delete() {
    let mut kv = KvStorage::new(StorageEngine::new());
    let key = "mq".to_string();
    let value = "robustmq".to_string();
    kv.set(key.clone(), value.clone()).unwrap();
    assert!(kv.key_exists(key.clone()).unwrap());
    assert_eq!(kv.get(key.clone()).unwrap(), Some(value.clone()));
    kv.delete(key.clone()).unwrap();
    assert!(!kv.key_exists(key.clone()).unwrap());
    assert_eq!(kv.get(key).unwrap(), None);
}

#[test]
fn values_are_stored_as_json_text() {
    let mut engine = StorageEngine::new();
    engine.save_by_cluster("k".to_string(), &"v\"1".to_string()).unwrap();
    let wrap = engine.get_by_cluster(&"k".to_string()).unwrap();
    assert_eq!(wrap.data, b"\"v\\\"1\"".to_vec());
}

#[test]
fn set_overwrites_and_delete_of_absent_key_is_fine() {
    let mut kv = KvStorage::new(StorageEngine::new());
    kv.set("a".to_string(), "1".to_string()).unwrap();
    kv.set("a".to_string(), "2".to_string()).unwrap();
    assert_eq!(kv.get("a".to_string()).unwrap(), Some("2".to_string()));
    assert_eq!(kv.engine.cluster.len(), 1);
    kv.delete("zz".to_string()).unwrap();
    assert!(kv.key_exists("a".to_string()).unwrap());
}

#[test]
fn undecodable_value_is_a_json_error() {
    let mut engine = StorageEngine::new();
    engine.cluster.push((
        "bad".to_string(),
        StorageDataWrap { data: b"not json".to_vec(), create_time: 0 },
    ));
    let kv = KvStorage::new(engine);
    assert!(matches!(kv.get("bad".to_string()), Err(RobustMQError::SerdeJsonError(_))));
}

#[test]
fn data_route_dispatches_writes() {
    let mut route = DataRoute::new(StorageEngine::new());
    route
        .route(AppRequestData::KvSet { key: "x".to_string(), value: "1".to_string() })
        .unwrap();
    assert_eq!(route.kv_storage.get("x".to_string()).unwrap(), Some("1".to_string()));
    route.route(AppRequestData::KvDelete { key: "x".to_string() }).unwrap();
    assert!(!route.kv_storage.key_exists("x".to_string()).unwrap());
}

#[test]
fn storage_wrap_keeps_data() {
    let w = StorageDataWrap::new(vec![1, 2, 3]);
    assert_eq!(w.data, vec![1, 2, 3]);
}
