use self_evolving_agent::agent::{AgentInput, OutputType};
use self_evolving_agent::config::{Config, ConfigManager};
use self_evolving_agent::gateway::{
    format_context, AgentDefinitionUpdates, Gateway, GatewayConfig, GatewayError, GatewayEvent,
};
use self_evolving_agent::llm::{ChatChoice, ChatMessage, ChatResponse};
use self_evolving_agent::logger::{LogLevel, Logger};
use self_evolving_agent::session::SessionManager;

fn gateway() -> Gateway {
    Gateway::new(
        ConfigManager::from_parts("/tmp/sea/config.toml".to_string(), Config::default()),
        Logger::new("/tmp/sea/logs".to_string(), LogLevel::Info),
        "/tmp/sea/agent_definitions".to_string(),
        SessionManager::new("/tmp/sea/sessions".to_string(), 100),
    )
}

fn input(text: &str) -> AgentInput {
    AgentInput { content: text.to_string(), metadata: None }
}

fn reply(text: &str) -> ChatResponse {
    ChatResponse {
        id: "r".to_string(),
        object: "chat.completion".to_string(),
        created: 0,
        model: "gpt-4".to_string(),
        choices: vec![ChatChoice { index: 0, message: ChatMessage::assistant(text), finish_reason: None }],
        usage: None,
    }
}

#[test]
fn test_format_context() {
    let messages = vec![ChatMessage::user("Hello"), ChatMessage::assistant("Hi there!")];
    let result = format_context(&messages);
    assert!(result.contains("user: Hello"));
    assert!(result.contains("assistant: Hi there!"));
}

#[test]
fn gateway_format_context_exact() {
    let messages = vec![ChatMessage::user("Hello"), ChatMessage::assistant("Hi there!")];
    assert_eq!(format_context(&messages), "user: Hello\nassistant: Hi there!");
    assert_eq!(format_context(&[]), "");
}

#[test]
fn gateway_default_limits() {
    let c = GatewayConfig::default();
    assert_eq!(c.max_sessions, 10);
    assert_eq!(c.max_agents_per_session, 5);
    assert_eq!(c.max_agent_definitions, 50);
}

#[test]
fn gateway_first_session_becomes_current() {
    let mut g = gateway();
    assert!(g.current_session_id().is_none());
    let a = g.create_session("A".to_string()).unwrap();
    let b = g.create_session("B".to_string()).unwrap();
    assert_eq!(g.current_session_id(), Some(a.as_str()));
    assert_eq!(g.session_count(), 2);
    g.switch_session(&b).unwrap();
    assert_eq!(g.current_session_id(), Some(b.as_str()));
    assert_eq!(g.switch_session("nope"), Err(GatewayError::SessionNotFound("nope".to_string())));
    assert_eq!(
        GatewayError::SessionNotFound("nope".to_string()).message(),
        "Session not found: nope"
    );
}

#[test]
fn gateway_session_limit() {
    let mut g = gateway().with_gateway_config(GatewayConfig {
        max_sessions: 1,
        max_agents_per_session: 1,
        max_agent_definitions: 1,
    });
    g.create_session("A".to_string()).unwrap();
    assert_eq!(g.create_session("B".to_string()), Err(GatewayError::SessionLimitReached));
    g.create_agent_definition("d".to_string(), None).unwrap();
    assert_eq!(
        g.create_agent_definition("e".to_string(), None),
        Err(GatewayError::DefinitionLimitReached)
    );
    assert_eq!(GatewayError::DefinitionLimitReached.message(), "Maximum number of agent definitions reached");
}

#[test]
fn gateway_instances_follow_their_session() {
    let mut g = gateway();
    assert_eq!(g.instantiate_agent("x"), Err(GatewayError::NoActiveSession));
    let s1 = g.create_session("A".to_string()).unwrap();
    let d = g.create_agent_definition("helper".to_string(), Some("Be brief.".to_string())).unwrap();
    assert_eq!(g.instantiate_agent("missing"), Err(GatewayError::DefinitionNotFound));
    let i1 = g.instantiate_agent(&d).unwrap();
    assert_eq!(g.current_agent_instance_id(), Some(i1.as_str()));
    assert_eq!(g.agent_instance_count(), 1);
    let infos = g.list_agent_instances();
    assert_eq!(infos.len(), 1);
    assert_eq!(infos[0].definition_name, "helper");
    assert!(infos[0].is_current);

    let s2 = g.create_session("B".to_string()).unwrap();
    g.switch_session(&s2).unwrap();
    assert!(g.current_agent_instance_id().is_none());
    assert!(!g.has_agent_instances());
    assert_eq!(g.switch_agent_instance(&i1), Err(GatewayError::InstanceNotInCurrentSession));

    g.switch_session(&s1).unwrap();
    assert_eq!(g.current_agent_instance_id(), Some(i1.as_str()));

    g.delete_session(&s1).unwrap();
    assert!(!g.has_session(&s1));
    assert_eq!(g.current_session_id(), Some(s2.as_str()));
    assert!(g.current_agent_instance_id().is_none());
    assert_eq!(
        g.switch_agent_instance(&i1),
        Err(GatewayError::InstanceNotFound(i1.clone()))
    );
}

#[test]
fn gateway_delete_instance_picks_next() {
    let mut g = gateway();
    g.create_session("A".to_string()).unwrap();
    let d = g.create_agent_definition("d".to_string(), None).unwrap();
    let i1 = g.instantiate_agent(&d).unwrap();
    let i2 = g.instantiate_agent(&d).unwrap();
    assert_eq!(g.current_agent_instance_id(), Some(i1.as_str()));
    g.delete_agent_instance(&i1).unwrap();
    assert_eq!(g.current_agent_instance_id(), Some(i2.as_str()));
    g.delete_agent_instance(&i2).unwrap();
    assert!(g.current_agent_instance_id().is_none());
    assert_eq!(g.agent_instance_count(), 0);
}

#[test]
fn gateway_message_round_trip() {
    let mut g = gateway();
    assert!(matches!(g.begin_message(input("hi")), Err(GatewayError::NoActiveAgentInstance)));
    g.create_session("A".to_string()).unwrap();
    let d = g.create_agent_definition("d".to_string(), Some("Be brief.".to_string())).unwrap();
    let i = g.instantiate_agent(&d).unwrap();
    g.set_global_memory("likes tea".to_string());
    g.append_global_memory("lives in Paris");
    assert_eq!(g.get_global_memory(), Some(&"likes tea\nlives in Paris".to_string()));
    g.set_session_overview("greetings".to_string()).unwrap();

    assert!(g.check_can_send());
    let pending = g.begin_message(input("Hello")).unwrap();
    assert_eq!(pending.instance_id, i);
    assert_eq!(pending.content_preview, "Hello");
    assert_eq!(pending.messages.len(), 2);
    assert_eq!(pending.messages[0].role, "system");
    assert_eq!(pending.messages[1].content, "Hello");
    assert_eq!(g.message_count(), 1);

    let _ = g.take_events();
    let out = g.finish_message(pending, Ok(reply("Hi!"))).unwrap();
    assert_eq!(out.content, "Hi!");
    assert_eq!(out.output_type, OutputType::Response);
    assert_eq!(g.message_count(), 2);
    let events = g.take_events();
    assert_eq!(events.len(), 2);
    assert!(matches!(&events[0], GatewayEvent::MessageSent { content, .. } if content == "Hello"));
    assert!(matches!(&events[1], GatewayEvent::MessageReceived { .. }));

    let pending = g.begin_message(input("again")).unwrap();
    let failed = g.finish_message(pending, Err("timeout".to_string())).unwrap();
    assert_eq!(failed.error, Some("timeout".to_string()));
    assert_eq!(g.message_count(), 4);

    g.clear_current_session_history().unwrap();
    assert_eq!(g.message_count(), 0);
}

#[test]
fn gateway_message_preview_is_fifty_chars() {
    let mut g = gateway();
    g.create_session("A".to_string()).unwrap();
    let d = g.create_agent_definition("d".to_string(), None).unwrap();
    g.instantiate_agent(&d).unwrap();
    let long: String = std::iter::repeat('字').take(60).collect();
    let pending = g.begin_message(input(&long)).unwrap();
    assert_eq!(pending.content_preview.chars().count(), 50);
    assert_eq!(pending.messages.len(), 1);
}

#[test]
fn gateway_definitions_update_and_delete() {
    let mut g = gateway();
    let d = g.create_agent_definition("old".to_string(), None).unwrap();
    assert_eq!(g.agent_definition_count(), 1);
    let updates = AgentDefinitionUpdates {
        name: Some("new".to_string()),
        system_prompt: Some("p".to_string()),
        llm_config: None,
    };
    g.update_agent_definition(&d, updates).unwrap();
    let def = g.get_agent_definition(&d).unwrap();
    assert_eq!(def.name, "new");
    assert_eq!(def.system_prompt, Some("p".to_string()));
    let list = g.list_agent_definitions();
    assert_eq!(list.len(), 1);
    assert!(list[0].has_system_prompt);
    assert_eq!(
        g.update_agent_definition("zz", AgentDefinitionUpdates::default()),
        Err(GatewayError::DefinitionNotFound)
    );
    g.delete_agent_definition(&d).unwrap();
    assert_eq!(g.agent_definition_count(), 0);
    assert_eq!(
        g.agent_definition_path("abc"),
        "/tmp/sea/agent_definitions/abc.json"
    );
}

#[test]
fn gateway_update_config_reaches_instances() {
    let mut g = gateway();
    g.create_session("A".to_string()).unwrap();
    let d = g.create_agent_definition("d".to_string(), None).unwrap();
    g.instantiate_agent(&d).unwrap();
    g.config_manager_mut().config_mut().llm.model = "other".to_string();
    g.update_config().unwrap();
    assert_eq!(g.current_agent_instance().unwrap().llm_config().model, "other");
}

#[test]
fn gateway_session_summary_needs_a_session() {
    let mut g = gateway();
    assert_eq!(g.set_session_summary("x".to_string()), Err(GatewayError::NoActiveSession));
    g.create_session("A".to_string()).unwrap();
    g.set_session_summary("x".to_string()).unwrap();
    assert_eq!(g.get_session_summary(), Some(&"x".to_string()));
    g.clear_session_summary().unwrap();
    assert!(g.get_session_summary().is_none());
    g.clear_global_memory();
    assert!(g.get_global_memory().is_none());
}

#[test]
fn gateway_template_files_are_recognised() {
    assert!(Gateway::is_definition_template("{\"_comment\": \"copy me\", \"id\": \"x\"}"));
    assert!(!Gateway::is_definition_template("{\"id\": \"x\", \"comment\": \"_comment_\"}"));
    assert!(!Gateway::is_definition_template(""));
}

#[test]
fn gateway_log_level_is_shared() {
    let mut g = gateway();
    assert_eq!(g.logger().level(), LogLevel::Info);
    g.set_log_level(LogLevel::Debug);
    // Every later borrow of the one logger sees the new level.
    let first = g.logger();
    let second = g.logger();
    assert_eq!(first.level(), LogLevel::Debug);
    assert_eq!(second.level(), LogLevel::Debug);
    assert_eq!(first.log_dir(), "/tmp/sea/logs");
}
