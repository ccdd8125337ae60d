use self_evolving_agent::sessions::lifecycle::{LifecycleError, ServerLifecycle};
use self_evolving_agent::sessions::manager::SessionManager;
use self_evolving_agent::sessions::models::{ServerStatus, Session, Timestamp};
use self_evolving_agent::strmap::StrMap;

fn setup() -> (SessionManager, Session) {
    let manager = SessionManager::new("sessions");
    let session = manager.create_session();
    (manager, session)
}

fn status_of(session: &Session, id: &str) -> ServerStatus {
    session.servers.get(id).unwrap().status
}

#[test]
fn test_register_server() {
    let (manager, mut session) = setup();
    let lifecycle = ServerLifecycle::new(&manager);

    lifecycle
        .register_server(&mut session, "server-a".to_string(), vec!["tool1".to_string()], StrMap::new())
        .unwrap();

    assert!(session.servers.contains_key("server-a"));
    assert_eq!(status_of(&session, "server-a"), ServerStatus::Pending);
}

#[test]
fn test_activate_server() {
    let (manager, mut session) = setup();
    let lifecycle = ServerLifecycle::new(&manager);

    lifecycle.register_server(&mut session, "s1".to_string(), vec![], StrMap::new()).unwrap();
    lifecycle.activate_server(&mut session, "s1").unwrap();

    assert_eq!(status_of(&session, "s1"), ServerStatus::Active);
}

#[test]
fn test_drain_server() {
    let (manager, mut session) = setup();
    let lifecycle = ServerLifecycle::new(&manager);

    lifecycle.register_server(&mut session, "s1".to_string(), vec![], StrMap::new()).unwrap();
    lifecycle.activate_server(&mut session, "s1").unwrap();
    lifecycle.drain_server(&mut session, "s1").unwrap();

    assert_eq!(status_of(&session, "s1"), ServerStatus::Draining);
    assert!(session.servers.get("s1").unwrap().draining_since.is_some());
}

#[test]
fn test_remove_server() {
    let (manager, mut session) = setup();
    let lifecycle = ServerLifecycle::new(&manager);

    lifecycle.register_server(&mut session, "s1".to_string(), vec![], StrMap::new()).unwrap();
    lifecycle.activate_server(&mut session, "s1").unwrap();
    lifecycle.drain_server(&mut session, "s1").unwrap();
    lifecycle.remove_server(&mut session, "s1").unwrap();

    assert_eq!(status_of(&session, "s1"), ServerStatus::Removed);
}

#[test]
fn test_invalid_state_transitions() {
    let (manager, mut session) = setup();
    let lifecycle = ServerLifecycle::new(&manager);

    lifecycle.register_server(&mut session, "s1".to_string(), vec![], StrMap::new()).unwrap();

    // A pending server can be neither drained nor removed.
    assert!(lifecycle.drain_server(&mut session, "s1").is_err());
    assert!(lifecycle.remove_server(&mut session, "s1").is_err());
}

#[test]
fn test_deregister_server() {
    let (manager, mut session) = setup();
    let lifecycle = ServerLifecycle::new(&manager);

    lifecycle.register_server(&mut session, "s1".to_string(), vec![], StrMap::new()).unwrap();
    lifecycle.deregister_server(&mut session, "s1").unwrap();

    assert!(!session.servers.contains_key("s1"));
}

#[test]
fn test_route_management() {
    let (manager, mut session) = setup();
    let lifecycle = ServerLifecycle::new(&manager);

    lifecycle.register_server(&mut session, "s1".to_string(), vec![], StrMap::new()).unwrap();
    lifecycle.add_route(&mut session, "cap:code_review", "s1".to_string()).unwrap();

    let found = lifecycle.lookup_route(&session, "cap:code_review");
    assert_eq!(found, Some("s1".to_string()));

    lifecycle.remove_route(&mut session, "cap:code_review");
    let not_found = lifecycle.lookup_route(&session, "cap:code_review");
    assert!(not_found.is_none());
}

#[test]
fn test_route_cleanup_on_deregister() {
    let (manager, mut session) = setup();
    let lifecycle = ServerLifecycle::new(&manager);

    lifecycle.register_server(&mut session, "s1".to_string(), vec![], StrMap::new()).unwrap();
    lifecycle.add_route(&mut session, "cap:1", "s1".to_string()).unwrap();
    lifecycle.add_route(&mut session, "cap:2", "s1".to_string()).unwrap();

    lifecycle.deregister_server(&mut session, "s1").unwrap();

    assert!(session.routing_table.lookup("cap:1").is_none());
    assert!(session.routing_table.lookup("cap:2").is_none());
}

#[test]
fn test_draining_timeout() {
    let (manager, mut session) = setup();
    let lifecycle = ServerLifecycle::new(&manager);

    session.config.drain_timeout = 1;

    lifecycle.register_server(&mut session, "s1".to_string(), vec![], StrMap::new()).unwrap();
    lifecycle.activate_server(&mut session, "s1").unwrap();
    let start = Timestamp { secs: 1_000, nanos: 0 };
    lifecycle.drain_server_at(&mut session, "s1", start).unwrap();

    // Two seconds later the one-second drain has run out.
    let later = Timestamp { secs: 1_002, nanos: 0 };
    let timed_out = lifecycle.check_draining_timeouts_at(&mut session, later);
    assert_eq!(timed_out, vec!["s1".to_string()]);
    assert_eq!(status_of(&session, "s1"), ServerStatus::Removed);
}

#[test]
fn lifecycle_register_default_name() {
    let (manager, mut session) = setup();
    let lifecycle = ServerLifecycle::new(&manager);
    lifecycle
        .register_server(&mut session, "0123456789abcdef".to_string(), vec![], StrMap::new())
        .unwrap();
    assert_eq!(session.servers.get("0123456789abcdef").unwrap().name, "server-01234567");
    lifecycle.register_server(&mut session, "ab".to_string(), vec![], StrMap::new()).unwrap();
    assert_eq!(session.servers.get("ab").unwrap().name, "server-ab");
}

#[test]
fn lifecycle_register_twice_fails() {
    let (manager, mut session) = setup();
    let lifecycle = ServerLifecycle::new(&manager);
    lifecycle.register_server(&mut session, "s1".to_string(), vec![], StrMap::new()).unwrap();
    let again = lifecycle.register_server(&mut session, "s1".to_string(), vec![], StrMap::new());
    assert!(again.is_err());
}

#[test]
fn lifecycle_unknown_server_is_not_found() {
    let (manager, mut session) = setup();
    let lifecycle = ServerLifecycle::new(&manager);
    assert_eq!(
        lifecycle.activate_server(&mut session, "ghost"),
        Err(LifecycleError::NotFound("ghost".to_string()))
    );
    assert!(matches!(
        lifecycle.deregister_server(&mut session, "ghost"),
        Err(LifecycleError::NotFound(_))
    ));
}

#[test]
fn lifecycle_timeout_keeps_recent_drains() {
    let (manager, mut session) = setup();
    let lifecycle = ServerLifecycle::new(&manager);
    lifecycle.register_server(&mut session, "s1".to_string(), vec![], StrMap::new()).unwrap();
    lifecycle.activate_server(&mut session, "s1").unwrap();
    lifecycle.drain_server_at(&mut session, "s1", Timestamp { secs: 1_000, nanos: 0 }).unwrap();
    let timed_out = lifecycle.check_draining_timeouts_at(&mut session, Timestamp { secs: 1_010, nanos: 0 });
    assert!(timed_out.is_empty());
    assert_eq!(status_of(&session, "s1"), ServerStatus::Draining);
}

#[test]
fn lifecycle_existing_id_with_split_byte_eight() {
    let (manager, mut session) = setup();
    let lifecycle = ServerLifecycle::new(&manager);
    // Byte 8 of this id falls inside `é`; a named registration needs no prefix.
    let id = "abcdefgéx".to_string();
    lifecycle
        .register_server_with_name(&mut session, id.clone(), Some("named".to_string()), vec![], StrMap::new())
        .unwrap();
    let again = lifecycle.register_server(&mut session, id.clone(), vec![], StrMap::new());
    assert_eq!(
        again,
        Err(LifecycleError::InvalidTransition(format!("Server {} already exists", id)))
    );
}
