use self_evolving_agent::sessions::routing_table::RoutingTable;

#[test]
fn test_add_and_lookup_route() {
    let mut table = RoutingTable::new();
    table.add_route("capability:code_review", "server-a".to_string());

    assert_eq!(table.lookup("capability:code_review"), Some(&"server-a".to_string()));
    assert_eq!(table.lookup("capability:unknown"), None);
}

#[test]
fn test_remove_route() {
    let mut table = RoutingTable::new();
    table.add_route("cap:1", "server-a".to_string());

    let removed = table.remove_route("cap:1");
    assert_eq!(removed, Some("server-a".to_string()));
    assert!(table.lookup("cap:1").is_none());
}

#[test]
fn test_remove_routes_for_server() {
    let mut table = RoutingTable::new();
    table.add_route("cap:1", "server-a".to_string());
    table.add_route("cap:2", "server-a".to_string());
    table.add_route("cap:3", "server-b".to_string());

    let removed = table.remove_routes_for_server("server-a");

    assert_eq!(removed.len(), 2);
    assert!(table.lookup("cap:1").is_none());
    assert!(table.lookup("cap:2").is_none());
    assert_eq!(table.lookup("cap:3"), Some(&"server-b".to_string()));
}

#[test]
fn test_empty_table() {
    let table = RoutingTable::new();
    assert!(table.is_empty());
    assert_eq!(table.len(), 0);
}

#[test]
fn routing_add_route_replaces_target() {
    let mut table = RoutingTable::new();
    table.add_route("cap:1", "server-a".to_string());
    table.add_route("cap:1", "server-b".to_string());
    assert_eq!(table.len(), 1);
    assert_eq!(table.lookup("cap:1"), Some(&"server-b".to_string()));
}

#[test]
fn routing_remove_missing_route_is_none() {
    let mut table = RoutingTable::new();
    table.add_route("cap:1", "server-a".to_string());
    assert_eq!(table.remove_route("cap:9"), None);
    assert_eq!(table.len(), 1);
}

#[test]
fn routing_remove_routes_for_unknown_server_keeps_all() {
    let mut table = RoutingTable::new();
    table.add_route("cap:1", "server-a".to_string());
    let removed = table.remove_routes_for_server("server-z");
    assert!(removed.is_empty());
    assert_eq!(table.len(), 1);
}
