use self_evolving_agent::sea::cli::{help_topic, parse_session_id, resolve_config, HelpTopic};
use self_evolving_agent::sea::config::{ClassifierType, SeaConfig};
use self_evolving_agent::sea::error::{error_hint, error_kind_label, ErrorHint, SeaError};
use self_evolving_agent::sessions::manager::ManagerError;
use self_evolving_agent::sea::repl::{
    is_no_route_error, optional_name, parse_repl_input, ReplCommand, ReplState, ServerCommand, SessionCommand,
};
use self_evolving_agent::sea::theme::{badge, parse_theme_type, ThemeType};
use self_evolving_agent::sessions::manager::uuid_string;

#[test]
fn sea_default_config() {
    let c = SeaConfig::default();
    assert_eq!(c.session_store_path, "./sessions");
    assert_eq!(c.router.max_hops, 10);
    assert_eq!(c.router.drain_timeout, 300);
    assert_eq!(c.router.classifier_type, ClassifierType::RuleBased);
    assert_eq!(c.server_defaults.heartbeat_interval_secs, 5);
    assert_eq!(c.server_defaults.heartbeat_timeout_secs, 30);
    assert_eq!(c.server_defaults.failure_suspect_threshold, 3);
    let m = c.with_mock_classifier();
    assert_eq!(m.router.classifier_type, ClassifierType::Mock { default_organic: true });
}

#[test]
fn sea_badges() {
    assert_eq!(badge(0), "⭕");
    assert_eq!(badge(3), "3\u{fe0f}\u{20e3}");
    assert_eq!(badge(9), "9\u{fe0f}\u{20e3}");
    assert_eq!(badge(10), "[10]");
    assert_eq!(badge(123), "[123]");
}

#[test]
fn sea_themes() {
    assert_eq!(parse_theme_type("dark"), ThemeType::Dark);
    assert_eq!(parse_theme_type("monochrome"), ThemeType::Monochrome);
    assert_eq!(parse_theme_type("default"), ThemeType::Default);
    assert_eq!(parse_theme_type("Dark"), ThemeType::Default);
}

#[test]
fn sea_help_topics() {
    assert_eq!(help_topic(Some("session")), HelpTopic::Session);
    assert_eq!(help_topic(Some("quickstart")), HelpTopic::QuickStart);
    assert_eq!(help_topic(Some("troubleshoot")), HelpTopic::Troubleshooting);
    assert_eq!(help_topic(Some("other")), HelpTopic::Main);
    assert_eq!(help_topic(None), HelpTopic::Main);
}

#[test]
fn sea_session_ids() {
    let id: u128 = 0x550e8400e29b41d4a716446655440000;
    assert_eq!(parse_session_id("550e8400-e29b-41d4-a716-446655440000"), Ok(id));
    assert_eq!(parse_session_id(&uuid_string(42)), Ok(42));
    assert_eq!(
        parse_session_id("not-a-uuid"),
        Err(SeaError::InvalidOperation("Invalid session ID: not-a-uuid".to_string()))
    );
}

#[test]
fn sea_config_resolution() {
    let from_path = resolve_config(Some("/data".to_string()), None, None).unwrap();
    assert_eq!(from_path.session_store_path, "/data");
    assert_eq!(from_path.router.max_hops, 10);

    let mut named = SeaConfig::default();
    named.router.max_hops = 3;
    let chosen = resolve_config(None, Some(Ok(named)), None).unwrap();
    assert_eq!(chosen.router.max_hops, 3);

    let broken = resolve_config(None, Some(Err("bad toml".to_string())), None);
    assert!(matches!(broken, Err(SeaError::Config(m)) if m == "bad toml"));

    let fallback = resolve_config(None, None, Some(Err("bad".to_string()))).unwrap();
    assert_eq!(fallback.session_store_path, "./sessions");
}

#[test]
fn sea_repl_commands() {
    assert!(parse_repl_input("   ").is_none());
    assert!(matches!(parse_repl_input(" hello there "), Some(ReplCommand::Message(m)) if m == "hello there"));
    assert!(matches!(parse_repl_input("/h"), Some(ReplCommand::Help)));
    assert!(matches!(parse_repl_input("/exit"), Some(ReplCommand::Quit)));
    assert!(matches!(parse_repl_input("/cls"), Some(ReplCommand::Clear)));
    assert!(matches!(parse_repl_input("/session"), Some(ReplCommand::Session(SessionCommand::Usage))));
    assert!(matches!(
        parse_repl_input("/session   delete  abc"),
        Some(ReplCommand::Session(SessionCommand::Delete(Some(id)))) if id == "abc"
    ));
    assert!(matches!(
        parse_repl_input("/session delete"),
        Some(ReplCommand::Session(SessionCommand::Delete(None)))
    ));
    assert!(matches!(
        parse_repl_input("/server start s1"),
        Some(ReplCommand::Server(ServerCommand::Start(Some(id)))) if id == "s1"
    ));
    assert!(matches!(
        parse_repl_input("/server frob"),
        Some(ReplCommand::Server(ServerCommand::Unknown(w))) if w == "frob"
    ));
    assert!(matches!(parse_repl_input("/switch"), Some(ReplCommand::Switch(None))));
    assert!(matches!(parse_repl_input("/dance now"), Some(ReplCommand::Unknown(w)) if w == "/dance"));
}

#[test]
fn repl_optional_names() {
    assert_eq!(optional_name(""), None);
    assert_eq!(optional_name("   \t"), None);
    assert_eq!(optional_name("  my session "), Some("my session".to_string()));
}

#[test]
fn repl_no_route_errors() {
    assert!(is_no_route_error("Router error: All routers failed to route"));
    assert!(is_no_route_error("No capability found for message"));
    assert!(!is_no_route_error("No capability"));
    assert!(!is_no_route_error("Server error: boom"));
}

#[test]
fn repl_state_transitions() {
    let mut s = ReplState::new();
    assert_eq!(s.current_session, None);
    s.record_input("/help".to_string());
    s.record_input("hello".to_string());
    assert_eq!(s.history, vec!["/help".to_string(), "hello".to_string()]);
    assert_eq!(s.history_index, 2);

    s.switch_to(7);
    assert_eq!(s.current_session, Some(7));
    assert!(!s.session_deleted(8));
    assert_eq!(s.current_session, Some(7));
    assert!(s.session_deleted(7));
    assert_eq!(s.current_session, None);

    let t = ReplState::with_session(3);
    assert_eq!(t.current_session, Some(3));
    assert!(t.history.is_empty());
}

#[test]
fn sea_error_hints() {
    assert_eq!(error_hint(&SeaError::Session(ManagerError::NotFound(5))), Some(ErrorHint::ListSessions));
    assert_eq!(
        error_hint(&SeaError::Session(ManagerError::Io("disk".to_string()))),
        Some(ErrorHint::CheckPermissionsAndSpace)
    );
    assert_eq!(error_hint(&SeaError::Session(ManagerError::InvalidOperation("x".to_string()))), None);
    assert_eq!(error_hint(&SeaError::Router("All routers failed".to_string())), None);
    assert_eq!(
        error_hint(&SeaError::Server("cannot start".to_string())),
        Some(ErrorHint::CheckServerStatus)
    );
    assert_eq!(error_hint(&SeaError::Server("crashed".to_string())), None);
    assert_eq!(error_hint(&SeaError::Config("bad".to_string())), Some(ErrorHint::GenerateConfig));
    assert_eq!(error_hint(&SeaError::Io("gone".to_string())), None);
    assert_eq!(error_hint(&SeaError::NotFound("SESSION 42".to_string())), Some(ErrorHint::ListSessions));
    assert_eq!(error_hint(&SeaError::NotFound("Server 'x' not found".to_string())), Some(ErrorHint::ListServers));
    assert_eq!(error_hint(&SeaError::NotFound("file".to_string())), None);
    assert_eq!(
        error_hint(&SeaError::InvalidOperation("Invalid Session ID: abc".to_string())),
        Some(ErrorHint::SessionIdFormat)
    );
    assert_eq!(
        error_hint(&SeaError::InvalidOperation("Unknown server type 'x'".to_string())),
        Some(ErrorHint::ListServerTypes)
    );
    assert_eq!(error_hint(&SeaError::InvalidOperation("nope".to_string())), None);
    assert_eq!(error_kind_label(&SeaError::Io("x".to_string())), "I/O Error");
    assert_eq!(error_kind_label(&SeaError::Config("x".to_string())), "Configuration Error");
}
