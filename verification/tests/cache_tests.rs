use portfolio_backend::cache::{TtlCache, DOCUMENT_WINDOW_SECS, PROJECT_WINDOW_SECS};

#[test]
fn windows_are_one_hour_and_one_day() {
    assert_eq!(DOCUMENT_WINDOW_SECS, 3600);
    assert_eq!(PROJECT_WINDOW_SECS, 86400);
    let cache: TtlCache<u32> = TtlCache::new(DOCUMENT_WINDOW_SECS);
    assert_eq!(cache.window(), 3600);
}

#[test]
fn empty_cache_misses() {
    let cache: TtlCache<String> = TtlCache::new(3600);
    assert_eq!(cache.get("blog/a", 0), None);
    assert_eq!(cache.len(), 0);
}

#[test]
fn two_reads_within_the_window_agree() {
    let mut cache: TtlCache<String> = TtlCache::new(3600);
    let mut recomputed = 0;
    if cache.get("blog/a", 1000).is_none() {
        recomputed += 1;
        cache.put("blog/a", "payload".to_string(), 1000);
    }
    let first = cache.get("blog/a", 1001).cloned();
    let second = cache.get("blog/a", 4599).cloned();
    assert_eq!(first, Some("payload".to_string()));
    assert_eq!(first, second);
    assert_eq!(recomputed, 1);
}

#[test]
fn read_after_the_window_is_a_miss() {
    let mut cache: TtlCache<u32> = TtlCache::new(3600);
    cache.put("k", 7, 1000);
    assert_eq!(cache.get("k", 4599), Some(&7));
    assert_eq!(cache.get("k", 4600), None);
    assert_eq!(cache.get("k", 1_000_000), None);
    // The expired entry stays until it is replaced.
    assert_eq!(cache.len(), 1);
}

#[test]
fn put_overwrites_and_restamps() {
    let mut cache: TtlCache<u32> = TtlCache::new(10);
    cache.put("k", 1, 0);
    cache.put("other", 5, 0);
    cache.put("k", 2, 100);
    assert_eq!(cache.len(), 2);
    assert_eq!(cache.get("k", 105), Some(&2));
    assert_eq!(cache.get("other", 5), Some(&5));
    assert_eq!(cache.get("other", 105), None);
}

#[test]
fn clear_empties_the_cache() {
    let mut cache: TtlCache<u32> = TtlCache::new(10);
    cache.put("a", 1, 0);
    cache.put("b", 2, 0);
    cache.clear();
    assert_eq!(cache.len(), 0);
    assert_eq!(cache.get("a", 1), None);
    assert_eq!(cache.window(), 10);
}

#[test]
fn a_clock_that_ran_backwards_keeps_entries_fresh() {
    let mut cache: TtlCache<u32> = TtlCache::new(10);
    cache.put("a", 1, 100);
    assert_eq!(cache.get("a", 50), Some(&1));
    cache.put("far", 2, i64::MIN);
    assert_eq!(cache.get("far", i64::MAX), None);
}
