use self_evolving_agent::sessions::cache::CacheManager;
use self_evolving_agent::sessions::manager::SessionManager;
use self_evolving_agent::sessions::models::Session;

fn setup() -> (SessionManager, Session) {
    let manager = SessionManager::new("sessions");
    let session = manager.create_session();
    (manager, session)
}

fn text(s: &str) -> serde_json::Value {
    serde_json::Value::String(s.to_string())
}

fn object(key: &str, value: &str) -> serde_json::Value {
    let mut m = serde_json::Map::new();
    m.insert(key.to_string(), text(value));
    serde_json::Value::Object(m)
}

#[test]
fn test_hash_content() {
    let hash1 = CacheManager::hash_content("hello world");
    let hash2 = CacheManager::hash_content("hello world");
    let hash3 = CacheManager::hash_content("different");

    assert_eq!(hash1, hash2);
    assert_ne!(hash1, hash3);
    assert!(hash1.len() == 64);
}

#[test]
fn cache_hash_of_known_text() {
    assert_eq!(
        CacheManager::hash_content("hello world"),
        "b94d27b9934d3e08a52e52d7da7dabfac484efe37a5380ee9088f7ace2efcde9"
    );
    assert_eq!(
        CacheManager::hash_content(""),
        "e3b0c44298fc1c149afbf4c8996fb92427ae41e4649b934ca495991b7852b855"
    );
}

#[test]
fn test_input_cache_crud() {
    let (manager, mut session) = setup();
    let cache_mgr = CacheManager::new(&manager);

    let hash = CacheManager::hash_content("test input");
    let value = object("result", "cached");

    cache_mgr.set_input_cache(&mut session, &hash, value.clone());

    let cached = cache_mgr.get_input_cache(&session, &hash);
    assert_eq!(cached, Some(value));

    let miss = cache_mgr.get_input_cache(&session, "nonexistent");
    assert!(miss.is_none());
}

#[test]
fn test_inference_cache_crud() {
    let (manager, mut session) = setup();
    let cache_mgr = CacheManager::new(&manager);

    let key = "inference_key";
    let value = object("reasoning", "result");

    cache_mgr.set_inference_cache(&mut session, key, value.clone());

    let cached = cache_mgr.get_inference_cache(&session, key);
    assert_eq!(cached, Some(value));
}

#[test]
fn test_invalidate_specific_key() {
    let (manager, mut session) = setup();
    let cache_mgr = CacheManager::new(&manager);

    cache_mgr.set_input_cache(&mut session, "key1", text("v1"));
    cache_mgr.set_input_cache(&mut session, "key2", text("v2"));

    cache_mgr.invalidate_cache(&mut session, Some("key1"));

    assert!(cache_mgr.get_input_cache(&session, "key1").is_none());
    assert!(cache_mgr.get_input_cache(&session, "key2").is_some());
}

#[test]
fn test_invalidate_all_cache() {
    let (manager, mut session) = setup();
    let cache_mgr = CacheManager::new(&manager);

    cache_mgr.set_input_cache(&mut session, "k1", text("v1"));
    cache_mgr.set_inference_cache(&mut session, "k2", text("v2"));

    cache_mgr.invalidate_cache(&mut session, None);

    assert!(cache_mgr.get_input_cache(&session, "k1").is_none());
    assert!(cache_mgr.get_inference_cache(&session, "k2").is_none());
}

#[test]
fn cache_write_then_read_gives_latest() {
    let (manager, mut session) = setup();
    let cache_mgr = CacheManager::new(&manager);
    cache_mgr.set_input_cache(&mut session, "k", text("first"));
    cache_mgr.set_input_cache(&mut session, "k", text("second"));
    assert_eq!(cache_mgr.get_input_cache(&session, "k"), Some(text("second")));
    assert!(cache_mgr.get_inference_cache(&session, "k").is_none());
}
