use ancs_bridge::cache::AppNameCache;

#[test]
fn lookup_uncached_twice_returns_none_both_times() {
    let cache = AppNameCache::new();
    let key = "com.example.chat".to_string();
    assert_eq!(cache.lookup(&key), None);
    assert_eq!(cache.lookup(&key), None);
}

#[test]
fn insert_then_lookup() {
    let mut cache = AppNameCache::new();
    cache.insert("com.example.chat".to_string(), "Chat App".to_string());
    assert_eq!(cache.lookup(&"com.example.chat".to_string()), Some("Chat App".to_string()));
    assert_eq!(cache.lookup(&"com.example.mail".to_string()), None);
}

#[test]
fn insert_supersedes_earlier_name() {
    let mut cache = AppNameCache::new();
    cache.insert("a".to_string(), "One".to_string());
    cache.insert("b".to_string(), "Other".to_string());
    cache.insert("a".to_string(), "Two".to_string());
    assert_eq!(cache.lookup(&"a".to_string()), Some("Two".to_string()));
    assert_eq!(cache.lookup(&"b".to_string()), Some("Other".to_string()));
}
