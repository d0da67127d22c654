use orbit_core::cache::{fresh, ElementCache, ElementCacheSnapshot};
use orbit_core::catalog::{Catalog, TleData};
use orbit_core::loader::{FetchReason, LoadError, LoadStep, TleLoader};

const DAY: i64 = 24 * 3600;

fn record(name: &str, line1: &str, line2: &str) -> TleData {
    TleData { name: name.to_string(), line1: line1.to_string(), line2: line2.to_string() }
}

fn two_records() -> Catalog {
    let mut c = Catalog::new();
    c.insert(record("A", "1 a", "2 a"));
    c.insert(record("B", "1 b", "2 b"));
    c
}

fn same_records(a: &Catalog, b: &Catalog) -> bool {
    if a.len() != b.len() {
        return false;
    }
    for i in 0..a.len() {
        let r = a.record(i);
        match b.get(&r.name) {
            Some(s) => {
                if s.line1 != r.line1 || s.line2 != r.line2 || s.name != r.name {
                    return false;
                }
            }
            None => return false,
        }
    }
    true
}

#[test]
fn store_then_load_round_trip() {
    let now = 1_700_000_000;
    let mut cache = ElementCache::new();
    cache.store(two_records(), now);
    let loaded = cache.load(now, DAY as u64).expect("fresh snapshot");
    assert_eq!(loaded.downloaded_at, now);
    assert!(same_records(&loaded.records, &two_records()));
    // any positive maximal age will do at the moment of storing
    assert!(cache.load(now, 1).is_some());
}

#[test]
fn load_with_zero_max_age_finds_nothing() {
    let now = 1_700_000_000;
    let mut cache = ElementCache::new();
    cache.store(two_records(), now);
    assert!(cache.load(now, 0).is_none());
    // the snapshot is still there
    assert!(cache.snapshot().is_some());
}

#[test]
fn expiry_boundary() {
    let now = 1_700_000_000;
    assert!(!fresh(now - DAY - 1, now, DAY as u64));
    assert!(fresh(now - 23 * 3600, now, DAY as u64));
    assert!(!fresh(now - DAY, now, DAY as u64));
    assert!(fresh(now - DAY + 1, now, DAY as u64));
}

#[test]
fn snapshot_from_the_future_is_fresh() {
    // its age is negative, which is below every maximal age
    assert!(fresh(2_000, 1_000, 1));
    assert!(fresh(2_000, 1_000, 0));
    assert!(!fresh(1_000, 1_000, 0));
}

#[test]
fn freshness_at_the_ends_of_the_range() {
    assert!(!fresh(i64::MIN, i64::MAX, u64::MAX - 1));
    assert!(fresh(i64::MIN + 1, i64::MAX, u64::MAX));
    assert!(fresh(i64::MAX, i64::MIN, 1));
}

#[test]
fn load_on_an_empty_cache_finds_nothing() {
    let cache = ElementCache::new();
    assert!(cache.load(0, u64::MAX).is_none());
    assert!(cache.snapshot().is_none());
    let restored = ElementCache::restore(None);
    assert!(restored.load(0, u64::MAX).is_none());
}

#[test]
fn restore_brings_back_a_snapshot() {
    let cache =
        ElementCache::restore(Some(ElementCacheSnapshot { records: two_records(), downloaded_at: 500 }));
    let s = cache.load(600, 101).expect("fresh");
    assert_eq!(s.downloaded_at, 500);
    assert_eq!(s.records.len(), 2);
    assert!(cache.load(600, 100).is_none());
}

#[test]
fn store_replaces_the_earlier_snapshot() {
    let mut cache = ElementCache::new();
    cache.store(two_records(), 100);
    let mut other = Catalog::new();
    other.insert(record("C", "1 c", "2 c"));
    cache.store(other, 200);
    let s = cache.snapshot().unwrap();
    assert_eq!(s.downloaded_at, 200);
    assert_eq!(s.records.len(), 1);
    assert!(s.records.contains("C"));
    assert!(!s.records.contains("A"));
}

#[test]
fn clear_is_idempotent() {
    let mut cache = ElementCache::new();
    cache.store(two_records(), 100);
    cache.clear();
    assert!(cache.snapshot().is_none());
    cache.clear();
    assert!(cache.snapshot().is_none());
    assert!(cache.load(100, u64::MAX).is_none());
}

#[test]
fn loader_defaults() {
    let loader = TleLoader::new();
    assert_eq!(loader.cache_path(), "cache");
    assert_eq!(loader.cache_file_path(), "cache/tle_cache.json");
    assert_eq!(loader.max_age_seconds(), 86_400);
}

#[test]
fn loader_uses_a_fresh_cache() {
    let loader = TleLoader::new();
    let now = 1_700_000_000;
    let mut cache = ElementCache::new();
    cache.store(two_records(), now - 23 * 3600);
    assert!(loader.is_cache_valid(&cache, now));
    match loader.load_active_satellites(&cache, now) {
        LoadStep::Cached(records) => assert!(same_records(&records, &two_records())),
        LoadStep::Fetch(_) => panic!("the cache is fresh"),
    }
}

#[test]
fn loader_fetches_when_the_cache_is_expired() {
    let loader = TleLoader::new();
    let now = 1_700_000_000;
    let mut cache = ElementCache::new();
    cache.store(two_records(), now - DAY - 1);
    assert!(!loader.is_cache_valid(&cache, now));
    assert!(matches!(
        loader.load_active_satellites(&cache, now),
        LoadStep::Fetch(FetchReason::Expired)
    ));
    cache.store(two_records(), now - DAY);
    assert!(matches!(
        loader.load_active_satellites(&cache, now),
        LoadStep::Fetch(FetchReason::Expired)
    ));
}

#[test]
fn loader_fetches_when_there_is_no_cache() {
    let loader = TleLoader::new();
    let cache = ElementCache::new();
    assert!(!loader.is_cache_valid(&cache, 0));
    assert!(matches!(
        loader.load_active_satellites(&cache, 0),
        LoadStep::Fetch(FetchReason::NoCache)
    ));
    assert_eq!(loader.load_from_cache(&cache).err(), Some(LoadError::CacheMissing));
}

#[test]
fn load_from_cache_ignores_age() {
    let loader = TleLoader::new();
    let mut cache = ElementCache::new();
    cache.store(two_records(), 0);
    let records = loader.load_from_cache(&cache).ok().expect("a snapshot is there");
    assert!(same_records(&records, &two_records()));
}

#[test]
fn finished_fetch_is_parsed_and_cached() {
    let loader = TleLoader::new();
    let now = 1_700_000_000;
    let mut cache = ElementCache::new();
    let text = "SAT ONE\n1 first\n2 second\nBROKEN\nfirst\nsecond\nSAT TWO\n1 third\n2 fourth\n";
    let records = loader.finish_load(&mut cache, Some(text), now).ok().expect("parsed");
    assert_eq!(records.len(), 2);
    assert_eq!(records.get("SAT TWO").unwrap().line2, "2 fourth");
    let s = cache.load(now, 1).expect("stored at now");
    assert_eq!(s.downloaded_at, now);
    assert!(same_records(&s.records, &records));
    assert!(loader.is_cache_valid(&cache, now + DAY - 1));
    assert!(!loader.is_cache_valid(&cache, now + DAY));
}

#[test]
fn failed_fetch_is_an_error_and_leaves_the_cache() {
    let loader = TleLoader::new();
    let mut cache = ElementCache::new();
    cache.store(two_records(), 7);
    let out = loader.finish_load(&mut cache, None, 1_000_000);
    assert_eq!(out.err(), Some(LoadError::FetchFailed));
    let s = cache.snapshot().unwrap();
    assert_eq!(s.downloaded_at, 7);
    assert!(same_records(&s.records, &two_records()));
}

#[test]
fn download_replaces_the_snapshot() {
    let loader = TleLoader::new();
    let mut cache = ElementCache::new();
    cache.store(two_records(), 7);
    let records = loader.download_tle_data(&mut cache, "C\n1 c\n2 c\n", 9);
    assert_eq!(records.len(), 1);
    let s = cache.snapshot().unwrap();
    assert_eq!(s.downloaded_at, 9);
    assert!(s.records.contains("C"));
    assert!(!s.records.contains("A"));
}

#[test]
fn save_and_clear_through_the_loader() {
    let loader = TleLoader::new();
    let mut cache = ElementCache::new();
    loader.save_to_cache(&mut cache, &two_records(), 11);
    assert_eq!(cache.snapshot().unwrap().downloaded_at, 11);
    loader.clear_cache(&mut cache);
    assert!(cache.snapshot().is_none());
    loader.clear_cache(&mut cache);
    assert!(cache.snapshot().is_none());
}
