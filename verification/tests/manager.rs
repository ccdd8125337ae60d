use self_evolving_agent::sessions::manager::{sort_summaries, uuid_string, SessionManager};
use self_evolving_agent::sessions::models::{MessageRole, Session, SessionState, SessionSummary, Timestamp};

fn session_with_messages(manager: &SessionManager, n: usize) -> Session {
    let mut session = manager.create_session();
    for i in 0..n {
        manager.add_message(&mut session, MessageRole::User, format!("message {}", i));
    }
    session
}

#[test]
fn test_create_session() {
    let manager = SessionManager::new("/tmp/sessions");
    let session = manager.create_session();
    assert!(uuid_string(session.session_id).len() > 0);
    assert_eq!(
        manager.session_path(session.session_id),
        format!("/tmp/sessions/{}.json", uuid_string(session.session_id))
    );
}

#[test]
fn test_terminate_session() {
    let manager = SessionManager::new("sessions");
    let mut session = manager.create_session();
    manager.terminate_session(&mut session);
    assert_eq!(session.state, SessionState::Terminated);
}

#[test]
fn test_add_message() {
    let manager = SessionManager::new("sessions");
    let mut session = manager.create_session();
    let message = manager.add_message(&mut session, MessageRole::User, "hello".to_string());

    assert_eq!(message.content, "hello");

    let messages = manager.get_messages(session, None, None);
    assert_eq!(messages.len(), 1);
}

#[test]
fn test_get_messages_with_pagination() {
    let manager = SessionManager::new("sessions");

    let page1 = manager.get_messages(session_with_messages(&manager, 10), Some(5), Some(0));
    let page2 = manager.get_messages(session_with_messages(&manager, 10), Some(5), Some(5));

    assert_eq!(page1.len(), 5);
    assert_eq!(page2.len(), 5);
    assert_eq!(page1[0].content, "message 0");
    assert_eq!(page2[0].content, "message 5");
}

#[test]
fn test_clear_messages() {
    let manager = SessionManager::new("sessions");
    let mut session = session_with_messages(&manager, 1);
    manager.clear_messages(&mut session);
    let messages = manager.get_messages(session, None, None);
    assert!(messages.is_empty());
}

#[test]
fn manager_page_past_the_end_is_empty() {
    let manager = SessionManager::new("sessions");
    let page = manager.get_messages(session_with_messages(&manager, 3), Some(5), Some(7));
    assert!(page.is_empty());
    let tail = manager.get_messages(session_with_messages(&manager, 3), None, Some(1));
    assert_eq!(tail.len(), 2);
    assert_eq!(tail[1].content, "message 2");
}

#[test]
fn manager_named_session() {
    let manager = SessionManager::new("sessions");
    let session = manager.create_session_with_name(Some("demo".to_string()));
    assert_eq!(session.name, Some("demo".to_string()));
}

#[test]
fn manager_uuid_text_is_hyphenated() {
    assert_eq!(
        uuid_string(0xa1a2a3a4b1b2c1c2d1d2d3d4d5d6d7d8),
        "a1a2a3a4-b1b2-c1c2-d1d2-d3d4d5d6d7d8"
    );
    assert_eq!(uuid_string(0), "00000000-0000-0000-0000-000000000000");
}

#[test]
fn manager_summaries_newest_first() {
    let summary = |secs: i64| SessionSummary {
        session_id: secs as u128,
        created_at: Timestamp { secs, nanos: 0 },
        state: SessionState::Active,
        server_count: 0,
        message_count: 0,
    };
    let sorted = sort_summaries(vec![summary(5), summary(9), summary(1)]);
    let order: Vec<i64> = sorted.iter().map(|s| s.created_at.secs).collect();
    assert_eq!(order, vec![9, 5, 1]);
}

#[test]
fn manager_summaries_ties_keep_order() {
    let summary = |id: u128, secs: i64| SessionSummary {
        session_id: id,
        created_at: Timestamp { secs, nanos: 0 },
        state: SessionState::Active,
        server_count: 0,
        message_count: 0,
    };
    let sorted = sort_summaries(vec![summary(1, 5), summary(2, 7), summary(3, 5), summary(4, 7), summary(5, 5)]);
    let ids: Vec<u128> = sorted.iter().map(|s| s.session_id).collect();
    assert_eq!(ids, vec![2, 4, 1, 3, 5]);
}
