use nook::cache::ProtocolCache;

#[test]
fn test_cache_operations() {
    let mut cache = ProtocolCache::new();
    assert!(cache.get(3000, "node").is_none());

    cache.insert(3000, "node", "http");
    assert_eq!(cache.get(3000, "node"), Some("http".to_string()));

    cache.remove(3000, "node");
    assert!(cache.get(3000, "node").is_none());
}

#[test]
fn test_cache_clear() {
    let mut cache = ProtocolCache::new();
    cache.insert(3000, "node", "http");
    cache.insert(5432, "postgres", "postgres");
    cache.clear();
    assert!(cache.get(3000, "node").is_none());
    assert!(cache.get(5432, "postgres").is_none());
}

#[test]
fn test_cache_keys_are_port_and_process() {
    let mut cache = ProtocolCache::new();
    cache.insert(3000, "node", "http");
    assert!(cache.get(3000, "deno").is_none());
    assert!(cache.get(3001, "node").is_none());
    cache.insert(3000, "node", "https");
    assert_eq!(cache.get(3000, "node"), Some("https".to_string()));
}
