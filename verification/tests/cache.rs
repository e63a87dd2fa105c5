use creatio_devhub::cache::{cache_key, CacheEntry, CachedList, CatalogCache};

#[test]
fn cache_keys_join_kind_and_environment() {
    assert_eq!(cache_key("packages", "dev-834"), "packages:dev-834");
}

#[test]
fn cached_lists_say_where_they_came_from() {
    let fresh = CachedList::fresh(vec!["one".to_string(), "two".to_string()], 42);
    assert_eq!(fresh.items, vec!["one", "two"]);
    assert_eq!(fresh.cached_at, 42);
    assert!(!fresh.from_cache);
    let cached = CachedList::cached(vec![1u32], 7);
    assert!(cached.from_cache);
    assert_eq!(cached.cached_at, 7);
}

fn entry(at: u64, value: &str) -> CacheEntry {
    CacheEntry { cached_at: at, value: value.to_string() }
}

#[test]
fn a_refresh_replaces_the_saved_list() {
    let mut cache = CatalogCache::from_entries(vec![
        ("packages:dev".to_string(), entry(1, "[\"A\"]")),
        ("applications:dev".to_string(), entry(2, "[]")),
    ]);
    assert_eq!(cache.get("packages", "dev").map(|e| e.cached_at), Some(1));
    assert!(cache.get("packages", "pre").is_none());
    cache.put("packages", "dev", "[\"A\",\"B\"]".to_string(), 9);
    let e = cache.get("packages", "dev").unwrap();
    assert_eq!(e.cached_at, 9);
    assert_eq!(e.value, "[\"A\",\"B\"]");
    assert_eq!(cache.get("applications", "dev").map(|e| e.cached_at), Some(2));
    assert_eq!(cache.entries().len(), 2);
}

#[test]
fn the_later_of_two_file_entries_wins() {
    let cache = CatalogCache::from_entries(vec![
        ("packages:dev".to_string(), entry(1, "[]")),
        ("packages:dev".to_string(), entry(5, "[1]")),
    ]);
    assert_eq!(cache.entries().len(), 1);
    assert_eq!(cache.get("packages", "dev").map(|e| e.cached_at), Some(5));
}
