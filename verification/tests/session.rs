use self_evolving_agent::session::{sort_by_update, MessageRole, Session, SessionInfo, SessionManager};
use self_evolving_agent::sessions::models::Timestamp;

#[test]
fn mod_test_session_creation() {
    let session = Session::new("Test Session".to_string());
    assert_eq!(session.name, "Test Session");
    assert!(session.messages.is_empty());
    assert!(session.agent_instance_ids.is_empty());
}

#[test]
fn test_add_messages() {
    let mut session = Session::new("Test".to_string());
    session.add_user_message("Hello", None);
    session.add_assistant_message("Hi there!", Some("instance-1".to_string()));

    assert_eq!(session.message_count(), 2);
}

#[test]
fn test_agent_instance_management() {
    let mut session = Session::new("Test".to_string());

    session.add_agent_instance("instance-1".to_string());
    session.add_agent_instance("instance-2".to_string());

    assert_eq!(session.agent_count(), 2);
    assert!(session.has_agent_instance("instance-1"));

    session.remove_agent_instance("instance-1");
    assert_eq!(session.agent_count(), 1);
    assert!(!session.has_agent_instance("instance-1"));
}

#[test]
fn session_instances_are_listed_once() {
    let mut session = Session::new("T".to_string());
    session.add_agent_instance("a".to_string());
    session.add_agent_instance("a".to_string());
    assert_eq!(session.agent_count(), 1);
    assert!(!session.remove_agent_instance("zzz"));
}

#[test]
fn session_chat_messages_and_context() {
    let mut session = Session::new("T".to_string());
    session.add_user_message("q1", Some("a".to_string()));
    session.add_assistant_message("r1", Some("a".to_string()));
    session.add_user_message("q2", Some("b".to_string()));
    let all = session.to_chat_messages();
    assert_eq!(all.len(), 3);
    assert_eq!(all[1].role, "assistant");
    let ctx = session.get_agent_context("a");
    assert_eq!(ctx.len(), 2);
    assert_eq!(ctx[1].content, "r1");
    let recent = session.get_recent_messages(2);
    assert_eq!(recent.len(), 2);
    assert_eq!(recent[0].content, "r1");
    assert_eq!(recent[1].role, MessageRole::User);
    session.clear_messages();
    assert_eq!(session.message_count(), 0);
}

#[test]
fn session_history_trim() {
    let manager = SessionManager::new("/tmp/s".to_string(), 2);
    let mut session = Session::new("T".to_string());
    for c in ["1", "2", "3"] {
        session.add_user_message(c, None);
    }
    manager.trim_history(&mut session);
    assert_eq!(session.message_count(), 2);
    assert_eq!(session.messages[0].content, "2");
    assert_eq!(manager.session_file("abc"), "/tmp/s/abc.json");
}

#[test]
fn session_overview_and_summary() {
    let mut session = Session::new("T".to_string());
    assert!(session.get_session_overview().is_none());
    session.set_session_overview("ov".to_string());
    session.set_session_summary("sum".to_string());
    assert_eq!(session.get_session_overview(), Some(&"ov".to_string()));
    session.clear_session_summary();
    assert!(session.get_session_summary().is_none());
}

#[test]
fn session_infos_newest_update_first() {
    let info = |secs: i64| SessionInfo {
        id: secs.to_string(),
        name: String::new(),
        created_at: Timestamp { secs: 0, nanos: 0 },
        updated_at: Timestamp { secs, nanos: 0 },
        message_count: 0,
        agent_count: 0,
    };
    let sorted = sort_by_update(vec![info(2), info(7), info(4)]);
    let ids: Vec<String> = sorted.iter().map(|i| i.id.clone()).collect();
    assert_eq!(ids, vec!["7", "4", "2"]);
}

#[test]
fn session_infos_ties_keep_order() {
    let info = |id: &str, secs: i64| SessionInfo {
        id: id.to_string(),
        name: String::new(),
        created_at: Timestamp { secs: 0, nanos: 0 },
        updated_at: Timestamp { secs, nanos: 0 },
        message_count: 0,
        agent_count: 0,
    };
    let sorted = sort_by_update(vec![info("a", 1), info("b", 3), info("c", 1), info("d", 3)]);
    let ids: Vec<String> = sorted.iter().map(|i| i.id.clone()).collect();
    assert_eq!(ids, vec!["b", "d", "a", "c"]);
}
