use std::future::Future;
use std::pin::Pin;
use std::sync::{Arc, Mutex};

use slatedb::config::{FlushOptions, FlushType};
use slatedb::db_cache::{CachedEntry, CachedKey, DbCache};
use slatedb::object_store::memory::InMemory;
use slatedb::Db;
use slatedb_cloudflare::db_cache::{QuickDbCache, SURE_BYTES};
use slatedb_cloudflare::do_cache::{entry_prefix, read_part, DoCacheStorage};
use slatedb_cloudflare::error::StoreError;
use slatedb_cloudflare::perf::{increment, PerfCounters};

#[test]
fn snapshot_reads_accumulated_counters() {
    let mut counters = PerfCounters::default();
    increment(&mut counters.cache_part_hits, 2);
    increment(&mut counters.cache_loaded_bytes, 1_048_576);
    increment(&mut counters.cache_loaded_bytes, 1_048_576);
    increment(&mut counters.do_kv_rows_written, 3);
    increment(&mut counters.r2_multipart_completes, 1);

    let snapshot = counters.snapshot();
    assert_eq!(snapshot.cache_part_hits, 2);
    assert_eq!(snapshot.cache_loaded_bytes, 2_097_152);
    assert_eq!(snapshot.do_kv_rows_written, 3);
    assert_eq!(snapshot.r2_multipart_completes, 1);
    assert_eq!(snapshot.r2_gets, 0);
}

#[test]
fn counters_wrap_around() {
    let mut counter = u64::MAX - 1;
    increment(&mut counter, 3);
    assert_eq!(counter, 1);
}

#[test]
fn cache_keys_include_part_size_and_unambiguous_path_length() {
    assert_ne!(entry_prefix("a:1", 1024), entry_prefix("a", 1024));
    assert_ne!(entry_prefix("a", 1024), entry_prefix("a", 2048));
}

#[test]
fn cache_keys_are_written_out() {
    assert_eq!(entry_prefix("a/b", 1024), "slatedb-cache:1024:3:a/b:");
    assert_eq!(entry_prefix("é", 1), "slatedb-cache:1:2:é:");
    let entry = DoCacheStorage::new().entry("a", 10);
    assert_eq!(entry.head_key(), "slatedb-cache:10:1:a:head");
    assert_eq!(entry.part_key(0), "slatedb-cache:10:1:a:part:0");
    assert_eq!(entry.part_key(120), "slatedb-cache:10:1:a:part:120");
}

#[test]
fn deletions_take_every_part_in_batches() {
    let entry = DoCacheStorage::new().entry("a", 10);
    assert!(entry.deletions(None).is_empty());
    assert!(entry.deletions(Some(0)).is_empty());
    assert_eq!(entry.deletions(Some(10)), [[entry.part_key(0)]]);
    assert_eq!(entry.deletions(Some(11)), [[entry.part_key(0), entry.part_key(1)]]);
    let batches = entry.deletions(Some(2570));
    let lengths: Vec<_> = batches.iter().map(Vec::len).collect();
    assert_eq!(lengths, [128, 128, 1]);
    let keys: Vec<_> = batches.into_iter().flatten().collect();
    for (number, key) in keys.iter().enumerate() {
        assert_eq!(*key, entry.part_key(number));
    }
}

#[test]
fn cached_parts_give_the_requested_bytes() {
    assert_eq!(read_part(None, 0, 5).unwrap(), None);
    assert_eq!(read_part(Some(vec![1, 2, 3]), 1, 3).unwrap(), Some(vec![2, 3]));
    assert_eq!(read_part(Some(vec![1, 2, 3]), 3, 3).unwrap(), Some(vec![]));
    for (start, end) in [(1, 4), (2, 1), (4, 4)] {
        match read_part(Some(vec![1, 2, 3]), start, end) {
            Err(StoreError::Generic { store, message }) => {
                assert_eq!(store, "cloudflare-do-cache");
                assert_eq!(message, "cached part is shorter than requested range");
            }
            other => panic!("{other:?}"),
        }
    }
}

#[test]
fn caches_are_populated_by_any_key() {
    let cache = DoCacheStorage::new();
    assert!(!cache.is_populated(0));
    assert!(cache.is_populated(1));
    assert_eq!(cache.label(), "Cloudflare Durable Object storage");
}

type Reply<'a, T> = Pin<Box<dyn Future<Output = T> + Send + 'a>>;

struct SharedCache {
    cache: Mutex<QuickDbCache>,
    keys: Mutex<Vec<CachedKey>>,
}

impl SharedCache {
    fn look_up<'a>(
        &'a self,
        key: &'a CachedKey,
    ) -> Reply<'a, Result<Option<CachedEntry>, slatedb::Error>> {
        let found = self.cache.lock().unwrap().get(key);
        Box::pin(std::future::ready(Ok(found)))
    }
}

impl DbCache for SharedCache {
    fn get_block<'a, 'b, 'c>(
        &'a self,
        key: &'b CachedKey,
    ) -> Reply<'c, Result<Option<CachedEntry>, slatedb::Error>>
    where
        'a: 'c,
        'b: 'c,
        Self: 'c,
    {
        self.look_up(key)
    }

    fn get_index<'a, 'b, 'c>(
        &'a self,
        key: &'b CachedKey,
    ) -> Reply<'c, Result<Option<CachedEntry>, slatedb::Error>>
    where
        'a: 'c,
        'b: 'c,
        Self: 'c,
    {
        self.look_up(key)
    }

    fn get_filter<'a, 'b, 'c>(
        &'a self,
        key: &'b CachedKey,
    ) -> Reply<'c, Result<Option<CachedEntry>, slatedb::Error>>
    where
        'a: 'c,
        'b: 'c,
        Self: 'c,
    {
        self.look_up(key)
    }

    fn get_stats<'a, 'b, 'c>(
        &'a self,
        key: &'b CachedKey,
    ) -> Reply<'c, Result<Option<CachedEntry>, slatedb::Error>>
    where
        'a: 'c,
        'b: 'c,
        Self: 'c,
    {
        self.look_up(key)
    }

    fn insert<'a, 'c>(&'a self, key: CachedKey, value: CachedEntry) -> Reply<'c, ()>
    where
        'a: 'c,
        Self: 'c,
    {
        self.keys.lock().unwrap().push(key.clone());
        self.cache.lock().unwrap().insert(key, value);
        Box::pin(std::future::ready(()))
    }

    fn remove<'a, 'b, 'c>(&'a self, key: &'b CachedKey) -> Reply<'c, ()>
    where
        'a: 'c,
        'b: 'c,
        Self: 'c,
    {
        self.cache.lock().unwrap().remove(key);
        Box::pin(std::future::ready(()))
    }

    fn entry_count(&self) -> u64 {
        self.cache.lock().unwrap().entry_count()
    }
}

#[test]
fn cache_serves_a_database_and_forgets_what_is_removed() {
    let shared = Arc::new(SharedCache {
        cache: Mutex::new(QuickDbCache::new()),
        keys: Mutex::new(Vec::new()),
    });
    let runtime = tokio::runtime::Builder::new_multi_thread()
        .worker_threads(2)
        .enable_all()
        .build()
        .unwrap();
    let cache = Arc::clone(&shared);
    runtime.block_on(async move {
        let db = Db::builder("cached", Arc::new(InMemory::new()))
            .with_db_cache(cache)
            .build()
            .await
            .unwrap();
        db.put(b"key", b"value").await.unwrap();
        db.flush_with_options(FlushOptions { flush_type: FlushType::MemTable })
            .await
            .unwrap();
        for _ in 0..2 {
            let value = db.get(b"key").await.unwrap().unwrap();
            assert_eq!(value.as_ref(), b"value");
        }
        db.close().await.unwrap();
    });
    let keys = shared.keys.lock().unwrap().clone();
    assert!(!keys.is_empty());
    let mut cache = shared.cache.lock().unwrap();
    let count = cache.entry_count();
    assert!(count >= 1);
    let key = keys.iter().find(|key| cache.get(key).is_some()).unwrap();
    let entry = cache.get(key).unwrap();
    cache.remove(key);
    assert!(cache.get(key).is_none());
    assert_eq!(cache.entry_count(), count - 1);
    cache.insert(key.clone(), entry.clone());
    assert_eq!(cache.get(key).unwrap().size(), entry.size());
    assert_eq!(cache.entry_count(), count);

    let mut fresh = QuickDbCache::new();
    let mut taken: Vec<CachedKey> = Vec::new();
    let mut bytes = 0;
    for key in &keys {
        let Some(entry) = cache.get(key) else {
            continue;
        };
        if taken.contains(key) || bytes + entry.size() as u64 > SURE_BYTES {
            continue;
        }
        bytes += entry.size() as u64;
        fresh.insert(key.clone(), entry);
        taken.push(key.clone());
    }
    assert!(!taken.is_empty());
    assert!(taken.iter().all(|key| fresh.get(key).is_some()));
    assert_eq!(fresh.entry_count(), taken.len() as u64);
}

#[test]
fn deletions_take_one_entry_and_nothing_else() {
    let cache = DoCacheStorage::new();
    let entry = cache.entry("a", 10);
    let others = [cache.entry("a", 100), cache.entry("a:1", 10), cache.entry("b", 10)];
    let mut stored: Vec<String> = vec!["unrelated".to_owned()];
    for other in &others {
        stored.push(other.head_key());
        stored.push(other.part_key(0));
        stored.push(other.part_key(2));
    }
    let kept = stored.clone();
    stored.push(entry.head_key());
    for number in 0..3 {
        stored.push(entry.part_key(number));
    }
    let parts = stored.len() - 1;
    stored.retain(|key| *key != entry.head_key());
    for batch in entry.deletions(None) {
        stored.retain(|key| !batch.contains(key));
    }
    assert_eq!(stored.len(), parts);
    for batch in entry.deletions(Some(21)) {
        stored.retain(|key| !batch.contains(key));
    }
    assert_eq!(stored, kept);
}

#[test]
fn counts_show_the_sum() {
    let mut counter = 0;
    for value in 1..=100 {
        increment(&mut counter, value);
    }
    assert_eq!(counter, 5050);
}
