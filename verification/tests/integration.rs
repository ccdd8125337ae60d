use self_evolving_agent::sessions::cache::CacheManager;
use self_evolving_agent::sessions::lifecycle::ServerLifecycle;
use self_evolving_agent::sessions::manager::SessionManager;
use self_evolving_agent::sessions::models::{MessageRole, SessionState};
use self_evolving_agent::strmap::StrMap;

#[test]
fn test_full_lifecycle() {
    let manager = SessionManager::new("sessions");

    // 1. Create a session.
    let mut session = manager.create_session();

    // 2. Register and activate a server.
    let lifecycle = ServerLifecycle::new(&manager);
    lifecycle
        .register_server(
            &mut session,
            "code-checker".to_string(),
            vec!["check_code".to_string(), "suggest_improvements".to_string()],
            StrMap::new(),
        )
        .unwrap();
    lifecycle.activate_server(&mut session, "code-checker").unwrap();

    // 3. Add a route.
    lifecycle
        .add_route(&mut session, "capability:code_review", "code-checker".to_string())
        .unwrap();

    // 4. Add message history.
    manager.add_message(&mut session, MessageRole::User, "Check this code".to_string());
    manager.add_message(&mut session, MessageRole::Assistant, "I found 3 issues".to_string());

    // 5. Use the cache.
    let cache_mgr = CacheManager::new(&manager);
    let hash = CacheManager::hash_content("some input");
    let mut value = serde_json::Map::new();
    value.insert("result".to_string(), serde_json::Value::String("cached".to_string()));
    cache_mgr.set_input_cache(&mut session, &hash, serde_json::Value::Object(value));

    // 6. Check the session.
    assert_eq!(session.servers.len(), 1);
    assert_eq!(session.message_history.len(), 2);
    assert_eq!(session.routing_table.len(), 1);
    assert_eq!(session.cache.input_cache.len(), 1);

    // 7. Drain and remove the server.
    lifecycle.drain_server(&mut session, "code-checker").unwrap();
    lifecycle.remove_server(&mut session, "code-checker").unwrap();

    // 8. Clear the cache.
    cache_mgr.invalidate_cache(&mut session, None);

    // 9. Terminate the session.
    manager.terminate_session(&mut session);
    assert_eq!(session.state, SessionState::Terminated);
}

#[test]
fn test_multiple_servers() {
    let manager = SessionManager::new("sessions");
    let mut session = manager.create_session();
    let lifecycle = ServerLifecycle::new(&manager);

    for (server_id, tools) in [
        ("analyzer", vec!["analyze".to_string()]),
        ("checker", vec!["check".to_string()]),
        ("formatter", vec!["format".to_string()]),
    ] {
        lifecycle.register_server(&mut session, server_id.to_string(), tools, StrMap::new()).unwrap();
        lifecycle.activate_server(&mut session, server_id).unwrap();
    }

    lifecycle.add_route(&mut session, "cap:analyze", "analyzer".to_string()).unwrap();
    lifecycle.add_route(&mut session, "cap:check", "checker".to_string()).unwrap();
    lifecycle.add_route(&mut session, "cap:format", "formatter".to_string()).unwrap();

    assert_eq!(lifecycle.lookup_route(&session, "cap:analyze"), Some("analyzer".to_string()));
    assert_eq!(lifecycle.lookup_route(&session, "cap:check"), Some("checker".to_string()));

    // Removing a server removes its routes too.
    lifecycle.deregister_server(&mut session, "checker").unwrap();
    assert_eq!(session.servers.len(), 2);
    assert_eq!(session.routing_table.len(), 2);
    assert!(session.routing_table.lookup("cap:check").is_none());
}
