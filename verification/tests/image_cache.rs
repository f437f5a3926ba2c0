use moyu::image_cache::{FenbiImageCache, FENBI_IMAGE_CACHE_LIMIT};

#[test]
fn put_then_get_returns_data() {
    let mut cache = FenbiImageCache::new();
    cache.put("https://fb.fbstatic.cn/a.png".to_string(), "data:a".to_string());
    assert_eq!(cache.get("https://fb.fbstatic.cn/a.png"), Some("data:a".to_string()));
    assert_eq!(cache.get("https://fb.fbstatic.cn/b.png"), None);
}

#[test]
fn oldest_entry_is_evicted_past_limit() {
    let mut cache = FenbiImageCache::new();
    for i in 0..=FENBI_IMAGE_CACHE_LIMIT {
        cache.put(format!("u{i}"), format!("d{i}"));
    }
    assert_eq!(cache.len(), FENBI_IMAGE_CACHE_LIMIT);
    assert_eq!(cache.get("u0"), None);
    assert_eq!(cache.get("u1"), Some("d1".to_string()));
    assert_eq!(cache.get(&format!("u{}", FENBI_IMAGE_CACHE_LIMIT)), Some(format!("d{}", FENBI_IMAGE_CACHE_LIMIT)));
}

#[test]
fn storing_a_cached_url_replaces_data_without_refreshing_age() {
    let mut cache = FenbiImageCache::new();
    for i in 0..FENBI_IMAGE_CACHE_LIMIT {
        cache.put(format!("u{i}"), format!("d{i}"));
    }
    cache.put("u0".to_string(), "fresh".to_string());
    assert_eq!(cache.len(), FENBI_IMAGE_CACHE_LIMIT);
    assert_eq!(cache.get("u0"), Some("fresh".to_string()));
    cache.put("new".to_string(), "n".to_string());
    // u0 kept its original (oldest) position, so it is the one evicted.
    assert_eq!(cache.get("u0"), None);
    assert_eq!(cache.get("new"), Some("n".to_string()));
}

#[test]
fn clear_forgets_everything() {
    let mut cache = FenbiImageCache::new();
    cache.put("a".to_string(), "1".to_string());
    cache.put("b".to_string(), "2".to_string());
    cache.clear();
    assert_eq!(cache.len(), 0);
    assert_eq!(cache.get("a"), None);
}
