use self_evolving_agent::sessions::models::{
    ServerInfo, ServerStatus, Session, SessionConfig, SessionState, SessionSummary,
};
use self_evolving_agent::strmap::StrMap;

#[test]
fn models_test_session_creation() {
    let session = Session::new();
    assert_eq!(session.state, SessionState::Active);
    assert!(session.servers.is_empty());
    assert!(session.message_history.is_empty());
    assert!(session.routing_table.is_empty());
}

#[test]
fn test_session_default() {
    let session = Session::default();
    assert_eq!(session.state, SessionState::Active);
}

#[test]
fn test_session_config_defaults() {
    let config = SessionConfig::default();
    assert_eq!(config.max_hops, 10);
    assert_eq!(config.drain_timeout, 300);
}

#[test]
fn test_session_summary_from_session() {
    let mut session = Session::new();
    session.servers.insert(
        "s1".to_string(),
        ServerInfo {
            id: "s1".to_string(),
            name: "s1".to_string(),
            status: ServerStatus::Active,
            tools: vec![],
            metadata: StrMap::new(),
            draining_since: None,
        },
    );

    let summary = SessionSummary::from(&session);
    assert_eq!(summary.server_count, 1);
    assert_eq!(summary.message_count, 0);
}

#[test]
fn models_fresh_sessions_have_distinct_ids() {
    let a = Session::new();
    let b = Session::new();
    assert_ne!(a.session_id, b.session_id);
    assert_eq!(a.created_at, a.updated_at);
}
