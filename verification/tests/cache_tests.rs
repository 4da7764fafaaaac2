use image_folder_viewer::cache::{ThumbnailCache, MAX_CACHE_ENTRIES};

fn key(i: u32) -> (String, u32) {
    (format!("/pics/img{}.png", i), 64)
}

#[test]
fn get_on_empty_cache_misses() {
    let cache = ThumbnailCache::new(MAX_CACHE_ENTRIES);
    assert_eq!(cache.get(&key(1)), None);
}

#[test]
fn insert_then_get_returns_payload() {
    let mut cache = ThumbnailCache::new(MAX_CACHE_ENTRIES);
    cache.insert(key(1), "payload-1".to_string());
    assert_eq!(cache.get(&key(1)), Some("payload-1".to_string()));
}

#[test]
fn same_path_different_size_is_distinct() {
    let mut cache = ThumbnailCache::new(MAX_CACHE_ENTRIES);
    cache.insert(("/pics/a.png".to_string(), 64), "small".to_string());
    cache.insert(("/pics/a.png".to_string(), 128), "large".to_string());
    assert_eq!(cache.get(&("/pics/a.png".to_string(), 64)), Some("small".to_string()));
    assert_eq!(cache.get(&("/pics/a.png".to_string(), 128)), Some("large".to_string()));
}

#[test]
fn reinsert_overwrites_payload() {
    let mut cache = ThumbnailCache::new(MAX_CACHE_ENTRIES);
    cache.insert(key(1), "old".to_string());
    cache.insert(key(1), "new".to_string());
    assert_eq!(cache.get(&key(1)), Some("new".to_string()));
}

#[test]
fn bound_holds_after_201_distinct_keys() {
    let mut cache = ThumbnailCache::new(200);
    for i in 1..=201u32 {
        cache.insert(key(i), format!("payload-{}", i));
    }
    // Exactly the bound remains: the first-inserted key was evicted and
    // every later key is retrievable.
    assert_eq!(cache.len(), 200);
    assert_eq!(cache.get(&key(1)), None);
    for i in 2..=201u32 {
        assert_eq!(cache.get(&key(i)), Some(format!("payload-{}", i)));
    }
}

#[test]
fn update_does_not_requeue() {
    let mut cache = ThumbnailCache::new(3);
    cache.insert(key(1), "a1".to_string());
    cache.insert(key(2), "b1".to_string());
    // Refresh key 1: its payload changes but its place in the eviction
    // order does not.
    cache.insert(key(1), "a2".to_string());
    cache.insert(key(3), "c1".to_string());
    // The cache is now full; the next fresh key evicts key 1 (the oldest
    // insertion), not key 2.
    cache.insert(key(4), "d1".to_string());
    assert_eq!(cache.get(&key(1)), None);
    assert_eq!(cache.get(&key(2)), Some("b1".to_string()));
    assert_eq!(cache.get(&key(3)), Some("c1".to_string()));
    assert_eq!(cache.get(&key(4)), Some("d1".to_string()));
}

#[test]
fn eviction_is_by_insertion_not_access() {
    let mut cache = ThumbnailCache::new(2);
    cache.insert(key(1), "a".to_string());
    cache.insert(key(2), "b".to_string());
    // Reading key 1 does not protect it.
    assert_eq!(cache.get(&key(1)), Some("a".to_string()));
    cache.insert(key(3), "c".to_string());
    assert_eq!(cache.get(&key(1)), None);
    assert_eq!(cache.get(&key(2)), Some("b".to_string()));
    assert_eq!(cache.get(&key(3)), Some("c".to_string()));
}
