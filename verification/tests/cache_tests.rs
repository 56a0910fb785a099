use slack_bridge::cache::TimedCache;

#[test]
fn timed_cache_returns_value_before_expiry() {
    let mut cache: TimedCache<&str> = TimedCache::new(100);
    cache.insert("key", "value", 0);
    assert_eq!(cache.get("key", 50), Some(&"value"));
}

#[test]
fn timed_cache_returns_none_after_expiry() {
    let mut cache: TimedCache<&str> = TimedCache::new(50);
    cache.insert("key", "value", 0);
    assert_eq!(cache.get("key", 60), None);
}

#[test]
fn timed_cache_hit_at_ttl_boundary_is_a_miss() {
    let mut cache: TimedCache<&str> = TimedCache::new(50);
    cache.insert("key", "value", 0);
    assert_eq!(cache.get("key", 49), Some(&"value"));
    assert_eq!(cache.get("key", 50), None);
}

#[test]
fn timed_cache_remove_deletes_entry() {
    let mut cache: TimedCache<&str> = TimedCache::new(10_000);
    cache.insert("key", "value", 0);
    assert_eq!(cache.remove("key"), Some("value"));
    assert_eq!(cache.get("key", 0), None);
}

#[test]
fn timed_cache_cleanup_removes_expired() {
    let mut cache: TimedCache<&str> = TimedCache::new(50);
    cache.insert("key1", "value1", 0);
    cache.insert("key2", "value2", 0);
    cache.insert("key3", "value3", 60);
    cache.cleanup_expired(60);
    assert_eq!(cache.len(), 1);
    assert_eq!(cache.get("key3", 60), Some(&"value3"));
}

#[test]
fn timed_cache_insert_replaces_and_restamps() {
    let mut cache: TimedCache<u32> = TimedCache::new(100);
    cache.insert("key", 1, 0);
    cache.insert("key", 2, 80);
    assert_eq!(cache.len(), 1);
    assert_eq!(cache.get("key", 150), Some(&2));
    assert_eq!(cache.get("key", 181), None);
}

#[test]
fn timed_cache_clear_and_counts() {
    let mut cache: TimedCache<u32> = TimedCache::new(100);
    assert!(cache.is_empty());
    cache.insert("a", 1, 0);
    cache.insert("b", 2, 0);
    assert_eq!(cache.len(), 2);
    assert!(cache.contains_key("a", 10));
    assert!(!cache.contains_key("a", 200));
    cache.clear();
    assert!(cache.is_empty());
}
