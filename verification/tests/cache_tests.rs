use surrealx::cache::MemoryCacheProvider;

fn val(s: &str) -> serde_json::Value {
    serde_json::Value::String(s.to_string())
}

#[test]
fn value_with_ttl_lives_until_expiry() {
    let mut cache = MemoryCacheProvider::new();
    cache.set_at("k".to_string(), val("v"), Some(1), 100);
    assert_eq!(cache.get_at("k", 100), Some(val("v")));
    assert!(cache.exists_at("k", 100));
}

#[test]
fn value_with_ttl_expires() {
    let mut cache = MemoryCacheProvider::new();
    cache.set_at("k".to_string(), val("v"), Some(1), 100);
    assert_eq!(cache.get_at("k", 102), None);
    assert!(!cache.exists_at("k", 102));
}

#[test]
fn expiry_boundary_is_strict() {
    let mut cache = MemoryCacheProvider::new();
    cache.set_at("k".to_string(), val("v"), Some(5), 100);
    assert_eq!(cache.get_at("k", 104), Some(val("v")));
    assert_eq!(cache.get_at("k", 105), None);
}

#[test]
fn value_without_ttl_never_expires() {
    let mut cache = MemoryCacheProvider::new();
    cache.set_at("k".to_string(), val("v"), None, 100);
    assert_eq!(cache.get_at("k", i64::MAX - 1), Some(val("v")));
}

#[test]
fn clear_empties_the_store() {
    let mut cache = MemoryCacheProvider::new();
    cache.set_at("a".to_string(), val("1"), None, 10);
    cache.set_at("b".to_string(), val("2"), Some(1000), 10);
    cache.clear();
    assert_eq!(cache.get_at("a", 10), None);
    assert_eq!(cache.get_at("b", 10), None);
}

#[test]
fn delete_removes_one_key() {
    let mut cache = MemoryCacheProvider::new();
    cache.set_at("a".to_string(), val("1"), None, 10);
    cache.set_at("b".to_string(), val("2"), None, 10);
    cache.delete("a");
    assert_eq!(cache.get_at("a", 10), None);
    assert_eq!(cache.get_at("b", 10), Some(val("2")));
}

#[test]
fn set_overwrites_value_and_ttl() {
    let mut cache = MemoryCacheProvider::new();
    cache.set_at("k".to_string(), val("old"), Some(1), 100);
    cache.set_at("k".to_string(), val("new"), None, 100);
    assert_eq!(cache.get_at("k", 5000), Some(val("new")));
}

#[test]
fn expired_entry_is_reaped_by_any_get() {
    let mut cache = MemoryCacheProvider::new();
    cache.set_at("dies".to_string(), val("1"), Some(1), 100);
    cache.set_at("stays".to_string(), val("2"), None, 100);
    // A get of an unrelated key sweeps the whole store.
    assert_eq!(cache.get_at("stays", 500), Some(val("2")));
    assert_eq!(cache.get_at("dies", 500), None);
}

#[test]
fn stored_value_comes_back_equal() {
    let mut cache = MemoryCacheProvider::new();
    let v = serde_json::Value::Array(vec![
        serde_json::Value::String("hello".to_string()),
        serde_json::Value::Bool(true),
        serde_json::Value::from(42i64),
    ]);
    cache.set_at("k".to_string(), v.clone(), None, 0);
    assert_eq!(cache.get_at("k", 1), Some(v));
}

#[test]
fn wall_clock_cache_round_trip() {
    let mut cache = MemoryCacheProvider::new();
    cache.set("k".to_string(), val("v"), None);
    assert_eq!(cache.get("k"), Some(val("v")));
    assert!(cache.exists_now("k"));
    cache.delete("k");
    assert_eq!(cache.get("k"), None);
}
