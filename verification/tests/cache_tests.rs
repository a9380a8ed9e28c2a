use tgstore::cache::{CacheEntry, TransientCopyCache};

#[test]
fn idle_entry_expires_once_with_registered_value() {
    let mut cache = TransientCopyCache::new(4098, 16);
    let evicted = cache.insert(10, 900, 100);
    assert!(evicted.is_empty());
    let expired = cache.expire_idle(117);
    assert_eq!(expired, vec![CacheEntry { key: 10, value: 900, last_access: 100 }]);
    assert_eq!(cache.len(), 0);
    let nothing_left = cache.expire_idle(200);
    assert!(nothing_left.is_empty());
}

#[test]
fn entry_within_idle_window_stays() {
    let mut cache = TransientCopyCache::new(4098, 16);
    cache.insert(10, 900, 100);
    let expired = cache.expire_idle(116);
    assert!(expired.is_empty());
    assert_eq!(cache.len(), 1);
}

#[test]
fn reinsert_cleans_only_latest_value() {
    let mut cache = TransientCopyCache::new(4098, 16);
    cache.insert(10, 900, 100);
    let on_replace = cache.insert(10, 901, 105);
    assert!(on_replace.is_empty());
    let expired = cache.expire_idle(130);
    assert_eq!(expired, vec![CacheEntry { key: 10, value: 901, last_access: 105 }]);
}

#[test]
fn lookup_refreshes_idle_clock() {
    let mut cache = TransientCopyCache::new(4098, 16);
    cache.insert(10, 900, 100);
    assert_eq!(cache.lookup(10, 110), Some(900));
    assert_eq!(cache.lookup(99, 110), None);
    assert!(cache.expire_idle(120).is_empty());
    let expired = cache.expire_idle(127);
    assert_eq!(expired, vec![CacheEntry { key: 10, value: 900, last_access: 110 }]);
}

#[test]
fn capacity_overflow_evicts_least_recently_used_early() {
    let mut cache = TransientCopyCache::new(2, 1000);
    assert!(cache.insert(1, 11, 0).is_empty());
    assert!(cache.insert(2, 22, 1).is_empty());
    let evicted = cache.insert(3, 33, 2);
    assert_eq!(evicted, vec![CacheEntry { key: 1, value: 11, last_access: 0 }]);
    assert_eq!(cache.len(), 2);
    assert_eq!(cache.lookup(1, 3), None);
    assert_eq!(cache.lookup(2, 3), Some(22));
    assert_eq!(cache.lookup(3, 3), Some(33));
}

#[test]
fn cache_never_exceeds_capacity() {
    let mut cache = TransientCopyCache::new(3, 1000);
    for k in 0..10 {
        cache.insert(k, k * 10, k as u64);
        assert!(cache.len() <= 3);
    }
    assert_eq!(cache.len(), 3);
}

#[test]
fn distinct_keys_expire_independently() {
    let mut cache = TransientCopyCache::new(8, 16);
    cache.insert(1, 11, 0);
    cache.insert(2, 22, 10);
    let expired = cache.expire_idle(20);
    assert_eq!(expired, vec![CacheEntry { key: 1, value: 11, last_access: 0 }]);
    assert_eq!(cache.lookup(2, 20), Some(22));
}
