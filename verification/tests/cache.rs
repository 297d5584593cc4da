use rustsn::cache::Cache;

#[test]
fn test_cache() {
    let mut cache = Cache::new();
    cache.set("key".to_string(), "value".to_string());
    assert_eq!(cache.get("key").unwrap(), "value");
    assert_eq!(cache.get("key").unwrap(), "value");
    assert_eq!(cache.get("key").unwrap(), "value");
    assert_eq!(cache.get("key"), None);
}

#[test]
fn a_key_that_was_never_stored_has_no_value() {
    let mut cache = Cache::new();
    assert_eq!(cache.get("absent"), None);
    cache.set("other".to_string(), "x".to_string());
    assert_eq!(cache.get("absent"), None);
    assert_eq!(cache.get("other").unwrap(), "x");
}

#[test]
fn storing_again_starts_the_count_again() {
    let mut cache = Cache::new();
    cache.set("k".to_string(), "one".to_string());
    assert_eq!(cache.get("k").unwrap(), "one");
    assert_eq!(cache.get("k").unwrap(), "one");
    cache.set("k".to_string(), "two".to_string());
    assert_eq!(cache.get("k").unwrap(), "two");
    assert_eq!(cache.get("k").unwrap(), "two");
    assert_eq!(cache.get("k").unwrap(), "two");
    assert_eq!(cache.get("k"), None);
    assert_eq!(cache.get("k"), None);
}
