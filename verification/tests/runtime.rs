use self_evolving_agent::sea::config::SeaConfig;
use self_evolving_agent::sea::error::SeaError;
use self_evolving_agent::sea::runtime::{
    routed_response, server_id_for_type, server_name_for_type, SeaAgent,
};
use self_evolving_agent::sessions::lifecycle::{LifecycleError, ServerLifecycle};
use self_evolving_agent::sessions::manager::{uuid_string, ManagerError};
use self_evolving_agent::sessions::models::{MessageRole, ServerStatus, Session};
use self_evolving_agent::sessions::store::StoreError;
use self_evolving_agent::strmap::StrMap;

fn agent() -> SeaAgent {
    let mut config = SeaConfig::default();
    config.session_store_path = "tmp-sessions".to_string();
    SeaAgent::new(config)
}

fn tools(names: &[&str]) -> Vec<String> {
    names.iter().map(|s| s.to_string()).collect()
}

fn status_of(session: &Session, id: &str) -> ServerStatus {
    session.servers.get(id).unwrap().status
}

#[test]
fn test_sea_agent_server_management() {
    let mut agent = agent();
    let mut session = agent.session_manager().create_session();

    let server_id = agent
        .register_server(&mut session, "echo", None, tools(&["echo"]))
        .expect("Failed to register server");
    assert!(server_id.starts_with("echo-"));

    let servers = agent.list_servers();
    assert_eq!(servers.len(), 1);
    assert_eq!(servers[0].server_type, "echo");
    assert!(!servers[0].running);

    agent.start_server(&mut session, &server_id).expect("Failed to start server");
    let servers = agent.list_servers();
    assert!(servers[0].running);

    agent.stop_server(&mut session, &server_id).expect("Failed to stop server");
    let servers = agent.list_servers();
    assert!(!servers[0].running);
}

#[test]
fn test_server_lifecycle_operations() {
    let mut agent = agent();
    let mut session = agent.session_manager().create_session();
    let server_id = agent
        .register_server(&mut session, "echo", None, tools(&["echo"]))
        .expect("Failed to register server");

    let servers = agent.list_servers();
    assert_eq!(servers.len(), 1);
    assert!(!servers[0].running);
    assert_eq!(status_of(&session, &server_id), ServerStatus::Pending);

    agent.start_server(&mut session, &server_id).expect("Failed to start server");
    assert!(agent.list_servers()[0].running);
    assert_eq!(status_of(&session, &server_id), ServerStatus::Active);

    agent.stop_server(&mut session, &server_id).expect("Failed to stop server");
    assert!(!agent.list_servers()[0].running);
    assert_eq!(status_of(&session, &server_id), ServerStatus::Draining);

    // A draining server cannot be activated again: the lifecycle refuses,
    // though the agent has marked it running.
    let r = agent.start_server(&mut session, &server_id);
    assert_eq!(
        r,
        Err(SeaError::Server(
            "Invalid state transition: Cannot activate server in Draining state".to_string()
        ))
    );
    assert!(agent.list_servers()[0].running);
}

#[test]
fn test_server_registration_with_custom_id() {
    let mut agent = agent();
    let mut session = agent.session_manager().create_session();
    let custom_id = "my-custom-echo-server";
    let server_id = agent
        .register_server(&mut session, "echo", Some(custom_id.to_string()), tools(&["echo"]))
        .expect("Failed to register server with custom ID");
    assert_eq!(server_id, custom_id);

    agent.start_server(&mut session, &server_id).expect("Failed to start server");

    let servers = agent.list_session_servers(session.session_id);
    assert_eq!(servers.len(), 1);
    assert_eq!(servers[0].id, custom_id);
}

#[test]
fn test_multiple_servers_same_session() {
    let mut agent = agent();
    let mut session = agent.session_manager().create_session();
    let mut ids = Vec::new();
    for (ty, tool) in [("echo", "echo"), ("calculator", "add"), ("time", "current_time"), ("llm_gateway", "chat")] {
        ids.push(agent.register_server(&mut session, ty, None, tools(&[tool])).unwrap());
    }
    for id in &ids {
        agent.start_server(&mut session, id).unwrap();
    }
    let servers = agent.list_session_servers(session.session_id);
    assert_eq!(servers.len(), 4);
    for server in &servers {
        assert!(server.running, "Server {} should be running", server.id);
    }
    assert_eq!(agent.running_servers(), ids);
}

#[test]
fn test_server_in_multiple_sessions() {
    let mut agent = agent();
    let mut session1 = agent.session_manager().create_session();
    let mut session2 = agent.session_manager().create_session();

    let server1 = agent.register_server(&mut session1, "echo", None, tools(&["echo"])).unwrap();
    let server2 = agent.register_server(&mut session2, "calculator", None, tools(&["add"])).unwrap();
    agent.start_server(&mut session1, &server1).unwrap();
    agent.start_server(&mut session2, &server2).unwrap();

    let servers1 = agent.list_session_servers(session1.session_id);
    assert_eq!(servers1.len(), 1);
    assert_eq!(servers1[0].server_type, "echo");

    let servers2 = agent.list_session_servers(session2.session_id);
    assert_eq!(servers2.len(), 1);
    assert_eq!(servers2[0].server_type, "calculator");

    assert_eq!(agent.list_servers().len(), 2);
}

#[test]
fn test_server_error_handling() {
    let mut agent = agent();
    let mut session = agent.session_manager().create_session();
    let server_id = agent.register_server(&mut session, "echo", None, tools(&["echo"])).unwrap();

    agent.start_server(&mut session, &server_id).unwrap();
    let result = agent.start_server(&mut session, &server_id);
    assert!(result.is_err(), "Starting an already running server should fail");
    assert_eq!(
        result,
        Err(SeaError::InvalidOperation(format!("Server '{}' is already running", server_id)))
    );

    agent.stop_server(&mut session, &server_id).unwrap();
    let result = agent.stop_server(&mut session, &server_id);
    assert!(result.is_err(), "Stopping an already stopped server should fail");
    assert_eq!(
        result,
        Err(SeaError::InvalidOperation(format!("Server '{}' is not running", server_id)))
    );

    let missing = agent.start_server(&mut session, "nope");
    assert_eq!(missing, Err(SeaError::NotFound("Server 'nope' not found".to_string())));
    assert_eq!(missing.unwrap_err().message(), "Not found: Server 'nope' not found");
    assert_eq!(
        agent.stop_server(&mut session, "nope"),
        Err(SeaError::NotFound("Server 'nope' not found".to_string()))
    );
}

#[test]
fn test_server_persistence_across_restart() {
    let mut agent1 = agent();
    let mut session = agent1.session_manager().create_session();
    let server_id = agent1.register_server(&mut session, "echo", None, tools(&["echo"])).unwrap();
    agent1.start_server(&mut session, &server_id).unwrap();
    assert_eq!(agent1.list_servers().len(), 1);
    assert_eq!(status_of(&session, &server_id), ServerStatus::Active);

    // A new agent takes the server over from the stored session.
    let mut agent2 = agent();
    let changed = agent2.restore_servers(&mut session, &vec![Some("echo".to_string())]);
    assert!(changed);
    let servers = agent2.list_servers();
    assert_eq!(servers.len(), 1, "Server should be restored from session");
    assert!(!servers[0].running, "Server should not be running after restart");
    assert_eq!(servers[0].id, server_id);
    assert_eq!(servers[0].name, "echo-server");
    assert_eq!(servers[0].session_id, session.session_id);
    assert_eq!(status_of(&session, &server_id), ServerStatus::Pending);

    // Taking over again changes nothing in the session.
    let mut agent3 = agent();
    assert!(!agent3.restore_servers(&mut session, &vec![Some("echo".to_string())]));
    assert_eq!(agent3.list_servers().len(), 1);
}

#[test]
fn runtime_restore_skips_servers_without_type() {
    let manager = agent();
    let mut session = manager.session_manager().create_session();
    let lifecycle = ServerLifecycle::new(manager.session_manager());
    lifecycle.register_server(&mut session, "plain-server".to_string(), vec![], StrMap::new()).unwrap();
    lifecycle.activate_server(&mut session, "plain-server").unwrap();

    let mut agent = agent();
    assert!(!agent.restore_servers(&mut session, &vec![None]));
    assert!(agent.list_servers().is_empty());
    assert_eq!(status_of(&session, "plain-server"), ServerStatus::Active);
}

#[test]
fn runtime_register_records_metadata_and_routes() {
    let mut agent = agent();
    let mut session = agent.session_manager().create_session();
    let id = agent
        .register_server_with_name(&mut session, "calculator", None, Some("calc".to_string()), tools(&["add", "sub"]))
        .unwrap();
    assert!(id.starts_with("calculator-"));
    assert_eq!(id.len(), "calculator-".len() + 8);

    let info = session.servers.get(&id).unwrap();
    assert_eq!(info.name, "calc");
    assert_eq!(info.status, ServerStatus::Pending);
    assert_eq!(info.tools, tools(&["add", "sub"]));
    assert_eq!(info.metadata.keys(), vec!["server_type".to_string(), "server_name".to_string()]);
    assert_eq!(info.metadata.get("server_type").unwrap().as_str(), Some("calculator"));
    assert_eq!(info.metadata.get("server_name").unwrap().as_str(), Some("calc"));
    assert_eq!(session.routing_table.lookup("capability:add"), Some(&id));
    assert_eq!(session.routing_table.lookup("capability:sub"), Some(&id));
    assert_eq!(session.routing_table.len(), 2);

    let servers = agent.list_servers();
    assert_eq!(servers[0].name, "calc");

    // The same id again is refused and changes nothing.
    let again = agent.register_server(&mut session, "echo", Some(id.clone()), tools(&["echo"]));
    assert_eq!(
        again,
        Err(SeaError::Server(format!("Invalid state transition: Server {} already exists", id)))
    );
    assert_eq!(session.routing_table.len(), 2);
    assert_eq!(agent.list_servers().len(), 1);
}

#[test]
fn runtime_default_ids_and_names() {
    assert_eq!(server_name_for_type("echo"), "echo-server");
    let u: u128 = 0x0123_4567_89ab_cdef_0011_2233_4455_6677;
    assert_eq!(uuid_string(u), "01234567-89ab-cdef-0011-223344556677");
    assert_eq!(server_id_for_type("echo", u), "echo-01234567");
}

#[test]
fn runtime_finish_message() {
    let agent = agent();
    let mut session = agent.session_manager().create_session();

    assert_eq!(
        routed_response(&tools(&["a", "b"]), "Inorganic"),
        "Routed to 2 server(s): a, b (processing: Inorganic)"
    );
    assert_eq!(routed_response(&vec![], "Organic"), "Routed to 0 server(s):  (processing: Organic)");

    let r = agent
        .finish_message(&mut session, Ok((tools(&["echo-1"]), "Inorganic".to_string())))
        .unwrap();
    assert_eq!(r.routed_servers, tools(&["echo-1"]));
    assert_eq!(r.processing_type, "Inorganic");
    assert_eq!(r.response, "Routed to 1 server(s): echo-1 (processing: Inorganic)");
    let last = session.message_history.last().unwrap();
    assert_eq!(last.role, MessageRole::Assistant);
    assert_eq!(last.content, r.response);

    let e = agent.finish_message(&mut session, Err("All routers failed".to_string()));
    assert_eq!(e.clone().unwrap_err(), SeaError::Router("All routers failed".to_string()));
    assert_eq!(e.unwrap_err().message(), "Router error: All routers failed");
    let last = session.message_history.last().unwrap();
    assert_eq!(last.role, MessageRole::System);
    assert_eq!(last.content, "Routing error: All routers failed");
    assert_eq!(session.message_history.len(), 2);
}

#[test]
fn runtime_error_messages() {
    let id: u128 = 1;
    assert_eq!(
        StoreError::NotFound(id).message(),
        "Session not found: 00000000-0000-0000-0000-000000000001"
    );
    assert_eq!(StoreError::Json("bad".to_string()).message(), "JSON serialization error: bad");
    assert_eq!(
        ManagerError::Store(StoreError::Io("disk".to_string())).message(),
        "Store error: IO error: disk"
    );
    assert_eq!(
        LifecycleError::NotFound("s1".to_string()).message(),
        "Server not found: s1"
    );
    assert_eq!(
        SeaError::Session(ManagerError::InvalidOperation("x".to_string())).message(),
        "Session error: Invalid operation: x"
    );
    assert_eq!(SeaError::Config("c".to_string()).message(), "Configuration error: c");
}

#[test]
fn runtime_restore_from_every_stored_session() {
    let mut agent1 = agent();
    let mut s1 = agent1.session_manager().create_session();
    let mut s2 = agent1.session_manager().create_session();
    let a = agent1.register_server(&mut s1, "echo", None, tools(&["echo"])).unwrap();
    let b = agent1.register_server(&mut s2, "time", None, tools(&["current_time"])).unwrap();
    agent1.start_server(&mut s1, &a).unwrap();

    let mut agent2 = agent();
    let types = vec![vec![Some("echo".to_string())], vec![Some("time".to_string())]];
    let restored = agent2.restore_from_sessions(vec![s1, s2], &types);
    assert_eq!(restored.len(), 2);
    assert!(restored[0].1, "the active server goes back to pending");
    assert!(!restored[1].1);
    assert_eq!(status_of(&restored[0].0, &a), ServerStatus::Pending);
    let servers = agent2.list_servers();
    assert_eq!(servers.len(), 2);
    assert_eq!(servers[0].id, a);
    assert_eq!(servers[1].id, b);
    assert!(servers.iter().all(|s| !s.running));
}
