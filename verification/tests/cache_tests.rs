use scene_viewer::cache::{EncodedImageCache, ImageCache};

#[test]
fn test_image_cache() {
    let cache = ImageCache::new(2);
    assert_eq!(cache.size(), 0);
}

#[test]
fn test_encoded_cache_miss_is_none() {
    let mut cache = EncodedImageCache::new(4);
    assert_eq!(cache.size(), 0);
    assert_eq!(cache.get("missing"), None);
    assert_eq!(cache.size(), 0);
}

#[test]
fn test_encoded_cache_insert_and_get() {
    let mut cache = EncodedImageCache::new(4);
    cache.insert("a".to_string(), "payload-a".to_string());
    assert_eq!(cache.size(), 1);
    assert_eq!(cache.get("a"), Some("payload-a".to_string()));
}

#[test]
fn test_capacity_plus_one_inserts_evict_oldest() {
    // Filling a cache of capacity 2 with 3 distinct keys leaves size 2
    // and the least-recently-used key absent.
    let mut cache = EncodedImageCache::new(2);
    cache.insert("a".to_string(), "1".to_string());
    cache.insert("b".to_string(), "2".to_string());
    cache.insert("c".to_string(), "3".to_string());
    assert_eq!(cache.size(), 2);
    assert_eq!(cache.get("a"), None);
    assert_eq!(cache.get("b"), Some("2".to_string()));
    assert_eq!(cache.get("c"), Some("3".to_string()));
}

#[test]
fn test_get_promotes_entry() {
    // After touching "a", inserting a third key evicts "b" instead.
    let mut cache = EncodedImageCache::new(2);
    cache.insert("a".to_string(), "1".to_string());
    cache.insert("b".to_string(), "2".to_string());
    assert_eq!(cache.get("a"), Some("1".to_string()));
    cache.insert("c".to_string(), "3".to_string());
    assert_eq!(cache.size(), 2);
    assert_eq!(cache.get("b"), None);
    assert_eq!(cache.get("a"), Some("1".to_string()));
    assert_eq!(cache.get("c"), Some("3".to_string()));
}

#[test]
fn test_insert_existing_key_replaces_without_eviction() {
    let mut cache = EncodedImageCache::new(2);
    cache.insert("a".to_string(), "1".to_string());
    cache.insert("b".to_string(), "2".to_string());
    cache.insert("a".to_string(), "one".to_string());
    assert_eq!(cache.size(), 2);
    assert_eq!(cache.get("a"), Some("one".to_string()));
    assert_eq!(cache.get("b"), Some("2".to_string()));
}

#[test]
fn test_clear_empties_cache() {
    let mut cache = EncodedImageCache::new(2);
    cache.insert("a".to_string(), "1".to_string());
    cache.insert("b".to_string(), "2".to_string());
    cache.clear();
    assert_eq!(cache.size(), 0);
    assert_eq!(cache.get("a"), None);
}

#[test]
fn test_zero_capacity_falls_back_to_defaults() {
    let mut enc = EncodedImageCache::new(0);
    let mut i = 0;
    while i < 20 {
        enc.insert(format!("k{}", i), "v".to_string());
        i += 1;
    }
    // the fallback bound is 16
    assert_eq!(enc.size(), 16);
    let img = ImageCache::new(0);
    assert_eq!(img.size(), 0);
}
