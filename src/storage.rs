//! The storage engine's key-value namespace and the key-value storage and
//! apply bridge built on it.
use crate::assoc::{keys_unique, kv_get, kv_map, kv_put, kv_take};
use crate::codec::{json_error_text, json_of_str, str_from_json, str_to_json};
use crate::error::RobustMQError;
use crate::state_machine::{AppRequestData, Entry, EntryPayload};
use vstd::prelude::*;

verus! {

/// Relies on `std::time::SystemTime::now`: the seconds since the Unix epoch,
/// or zero for a clock set before it. Nothing is known of the value.
#[verifier::external_body]
fn now_second() -> (r: u64) {
    std::time::SystemTime::now().duration_since(std::time::UNIX_EPOCH).map_or(0, |d| d.as_secs())
}

/// A stored value with the time it was written.
#[derive(Clone, Debug, PartialEq, Eq)]
pub struct StorageDataWrap {
    pub data: Vec<u8>,
    pub create_time: u64,
}

impl StorageDataWrap {
    /// Wraps `data`, stamped with the current time.
    pub fn new(data: Vec<u8>) -> (r: StorageDataWrap)
        ensures
            r.data == data,
    {
        StorageDataWrap { data, create_time: now_second() }
    }
}

/// The embedded engine: the namespace of cluster data, each key bound to
/// its encoded value.
pub struct StorageEngine {
    pub cluster: Vec<(String, StorageDataWrap)>,
}

impl StorageEngine {
    pub open spec fn wf(self) -> bool {
        keys_unique(self.cluster@)
    }

    /// Each key of the cluster namespace to the bytes stored under it.
    pub open spec fn view_cluster(self) -> Map<Seq<char>, Seq<u8>> {
        kv_map(self.cluster@).map_values(|w: StorageDataWrap| w.data@)
    }

    /// An engine with nothing stored.
    pub fn new() -> (r: StorageEngine)
        ensures
            r.wf(),
            r.view_cluster() == Map::<Seq<char>, Seq<u8>>::empty(),
    {
        let r = StorageEngine { cluster: Vec::new() };
        assert(r.view_cluster() =~= Map::<Seq<char>, Seq<u8>>::empty());
        r
    }

    /// Stores the JSON form of `value` under `key`.
    pub fn save_by_cluster(&mut self, key: String, value: &String) -> (r: Result<(), RobustMQError>)
        requires
            old(self).wf(),
        ensures
            final(self).wf(),
            r is Ok,
            final(self).view_cluster() == old(self).view_cluster().insert(
                key@,
                json_of_str(value@),
            ),
    {
        let data = match str_to_json(value) {
            Ok(d) => d,
            Err(e) => {
                return Err(RobustMQError::SerdeJsonError(json_error_text(&e)));
            },
        };
        let ghost before = self.view_cluster();
        let wrap = StorageDataWrap::new(data);
        kv_put(&mut self.cluster, key, wrap);
        assert(self.view_cluster() =~= before.insert(key@, json_of_str(value@)));
        Ok(())
    }

    /// Removes what is stored under `key`.
    pub fn delete_by_cluster(&mut self, key: &String)
        requires
            old(self).wf(),
        ensures
            final(self).wf(),
            final(self).view_cluster() == old(self).view_cluster().remove(key@),
    {
        let ghost before = self.view_cluster();
        let _ = kv_take(&mut self.cluster, key);
        assert(self.view_cluster() =~= before.remove(key@));
    }

    /// The bytes stored under `key`, if any.
    pub fn get_by_cluster(&self, key: &String) -> (r: Option<&StorageDataWrap>)
        requires
            self.wf(),
        ensures
            r is Some <==> self.view_cluster().contains_key(key@),
            r matches Some(w) ==> w.data@ == self.view_cluster()[key@],
    {
        kv_get(&self.cluster, key)
    }

    /// Whether something is stored under `key`.
    pub fn exists_by_cluster(&self, key: &String) -> (r: bool)
        requires
            self.wf(),
        ensures
            r == self.view_cluster().contains_key(key@),
    {
        kv_get(&self.cluster, key).is_some()
    }
}

/// Key-value operations of clients on the cluster namespace; values are
/// stored in their JSON form.
pub struct KvStorage {
    pub engine: StorageEngine,
}

impl KvStorage {
    pub open spec fn wf(self) -> bool {
        self.engine.wf()
    }

    /// Each key to the encoded value stored under it.
    pub open spec fn view_kv(self) -> Map<Seq<char>, Seq<u8>> {
        self.engine.view_cluster()
    }

    pub fn new(rocksdb_engine_handler: StorageEngine) -> (r: KvStorage)
        ensures
            r.engine == rocksdb_engine_handler,
    {
        KvStorage { engine: rocksdb_engine_handler }
    }

    /// Binds `key` to `value`.
    pub fn set(&mut self, key: String, value: String) -> (r: Result<(), RobustMQError>)
        requires
            old(self).wf(),
        ensures
            final(self).wf(),
            r is Ok,
            final(self).view_kv() == old(self).view_kv().insert(key@, json_of_str(value@)),
    {
        self.engine.save_by_cluster(key, &value)
    }

    /// Removes the binding of `key`; removing an absent key is no error.
    pub fn delete(&mut self, key: String) -> (r: Result<(), RobustMQError>)
        requires
            old(self).wf(),
        ensures
            final(self).wf(),
            r is Ok,
            final(self).view_kv() == old(self).view_kv().remove(key@),
    {
        self.engine.delete_by_cluster(&key);
        Ok(())
    }

    /// The value bound to `key`, if any.
    pub fn get(&self, key: String) -> (r: Result<Option<String>, RobustMQError>)
        requires
            self.wf(),
        ensures
            !self.view_kv().contains_key(key@) ==> r == Ok::<Option<String>, RobustMQError>(None),
            self.view_kv().contains_key(key@) ==> (forall|s: Seq<char>|
                #[trigger] json_of_str(s) == self.view_kv()[key@] ==> (r matches Ok(Some(t))
                && t@ == s)),
            self.view_kv().contains_key(key@) ==> (r matches Ok(v) ==> v is Some),
            r matches Err(e) ==> e is SerdeJsonError,
    {
        match self.engine.get_by_cluster(&key) {
            Some(wrap) => match str_from_json(wrap.data.as_slice()) {
                Ok(v) => Ok(Some(v)),
                Err(e) => Err(RobustMQError::SerdeJsonError(json_error_text(&e))),
            },
            None => Ok(None),
        }
    }

    /// Whether `key` is bound.
    pub fn key_exists(&self, key: String) -> (r: Result<bool, RobustMQError>)
        requires
            self.wf(),
        ensures
            r == Ok::<bool, RobustMQError>(self.view_kv().contains_key(key@)),
    {
        Ok(self.engine.exists_by_cluster(&key))
    }
}

/// The stored map after one committed write: a set stores the JSON form of
/// its value, a delete removes the key.
pub open spec fn store_request(m: Map<Seq<char>, Seq<u8>>, r: AppRequestData) -> Map<
    Seq<char>,
    Seq<u8>,
> {
    match r {
        AppRequestData::KvSet { key, value } => m.insert(key@, json_of_str(value@)),
        AppRequestData::KvDelete { key } => m.remove(key@),
    }
}

/// The stored map after the committed entries `es`, in order; entries that
/// carry no client write leave it as it is.
pub open spec fn store_entries(m: Map<Seq<char>, Seq<u8>>, es: Seq<Entry>) -> Map<
    Seq<char>,
    Seq<u8>,
>
    decreases es.len(),
{
    if es.len() == 0 {
        m
    } else {
        let prev = store_entries(m, es.drop_last());
        match es.last().payload {
            EntryPayload::Normal(r) => store_request(prev, r),
            _ => prev,
        }
    }
}

/// The last committed write of a key decides what every node that applied
/// the same committed entries stores under it: after a forwarded write is
/// committed and applied, any node serves its value.
pub proof fn lemma_last_write_visible(m: Map<Seq<char>, Seq<u8>>, es: Seq<Entry>, key: String, value: String)
    requires
        es.len() > 0,
        es.last().payload == EntryPayload::Normal(AppRequestData::KvSet { key, value }),
    ensures
        store_entries(m, es).contains_key(key@),
        store_entries(m, es)[key@] == json_of_str(value@),
{
}

/// Applies committed writes to the key-value storage.
pub struct DataRoute {
    pub kv_storage: KvStorage,
}

impl DataRoute {
    pub open spec fn wf(self) -> bool {
        self.kv_storage.wf()
    }

    pub open spec fn view_kv(self) -> Map<Seq<char>, Seq<u8>> {
        self.kv_storage.view_kv()
    }

    pub fn new(rocksdb_engine_handler: StorageEngine) -> (r: DataRoute)
        ensures
            r.kv_storage.engine == rocksdb_engine_handler,
    {
        DataRoute { kv_storage: KvStorage::new(rocksdb_engine_handler) }
    }

    /// Dispatches a committed write to the storage operation of its kind.
    pub fn route(&mut self, data: AppRequestData) -> (r: Result<(), RobustMQError>)
        requires
            old(self).wf(),
        ensures
            final(self).wf(),
            r is Ok,
            data matches AppRequestData::KvSet { key, value } ==> final(self).view_kv() == old(self).view_kv().insert(key@, json_of_str(value@)),
            data matches AppRequestData::KvDelete { key } ==> final(self).view_kv() == old(self).view_kv().remove(key@),
    {
        match data {
            AppRequestData::KvSet { key, value } => self.kv_storage.set(key, value),
            AppRequestData::KvDelete { key } => self.kv_storage.delete(key),
        }
    }

    /// Applies committed entries in order: each client write goes to the
    /// storage, other entries change nothing.
    pub fn apply_entries(&mut self, entries: Vec<Entry>) -> (r: Result<(), RobustMQError>)
        requires
            old(self).wf(),
        ensures
            final(self).wf(),
            r is Ok,
            final(self).view_kv() == store_entries(old(self).view_kv(), entries@),
    {
        let mut entries = entries;
        let ghost all = entries@;
        let total = entries.len();
        let mut k: usize = 0;
        while entries.len() > 0
            invariant
                self.wf(),
                total == all.len(),
                k + entries@.len() == all.len(),
                entries@ == all.subrange(k as int, all.len() as int),
                self.view_kv() == store_entries(old(self).view_kv(), all.subrange(0, k as int)),
            decreases entries@.len(),
        {
            let ghost rest = entries@;
            let e = entries.remove(0);
            assert(rest.drop_first() =~= entries@);
            assert(entries@ =~= all.subrange(k + 1, all.len() as int));
            assert(all.subrange(0, k + 1).drop_last() =~= all.subrange(0, k as int));
            assert(all.subrange(0, k + 1).last() == e);
            match e.payload {
                EntryPayload::Normal(req) => {
                    let _ = self.route(req);
                },
                _ => {},
            }
            k = k + 1;
        }
        assert(all.subrange(0, all.len() as int) =~= all);
        Ok(())
    }
}

} // verus!
