use wellbeing_gui::cache::ClientCache;

#[test]
fn test_get_and_set() {
    let mut cache: ClientCache<i32> = ClientCache::new();
    cache.set("key1".into(), 42);
    assert_eq!(cache.get(&"key1".into()), Some(42));
}

#[test]
fn test_missing_key() {
    let cache: ClientCache<i32> = ClientCache::new();
    assert_eq!(cache.get(&"nonexistent".into()), None);
}

#[test]
fn test_invalidate() {
    let mut cache: ClientCache<i32> = ClientCache::new();
    cache.set("key1".into(), 42);
    cache.invalidate(&"key1".into());
    assert_eq!(cache.get(&"key1".into()), None);
}

#[test]
fn test_clear() {
    let mut cache: ClientCache<i32> = ClientCache::new();
    cache.set("a".into(), 1);
    cache.set("b".into(), 2);
    cache.clear();
    assert_eq!(cache.get(&"a".into()), None);
    assert_eq!(cache.get(&"b".into()), None);
}

#[test]
fn cache_set_replaces_and_keeps_other_keys() {
    let mut cache: ClientCache<Vec<u32>> = ClientCache::default();
    cache.set("a".into(), vec![1]);
    cache.set("b".into(), vec![2, 3]);
    cache.set("a".into(), vec![4]);
    assert_eq!(cache.get(&"a".into()), Some(vec![4]));
    assert_eq!(cache.get(&"b".into()), Some(vec![2, 3]));
    cache.invalidate(&"a".into());
    assert_eq!(cache.get(&"a".into()), None);
    assert_eq!(cache.get(&"b".into()), Some(vec![2, 3]));
}

#[test]
fn entry_persists_until_its_key_is_touched() {
    let mut cache: ClientCache<i32> = ClientCache::new();
    cache.set("keep".into(), 1);
    cache.set("other".into(), 2);
    cache.invalidate(&"other".into());
    cache.set("third".into(), 3);
    assert_eq!(cache.get(&"keep".into()), Some(1));
    cache.set("keep".into(), 4);
    assert_eq!(cache.get(&"keep".into()), Some(4));
}
