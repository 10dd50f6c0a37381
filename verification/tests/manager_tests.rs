//! The server registry and its flat control surface: start, find, query,
//! plan write-out, and shut down.

use pact_engine::generators::Generators;
use pact_engine::json::JsonValue;
use pact_engine::json_codec::parse_json;
use pact_engine::legacy::{
    create_mock_server,
    find_mock_server_by_port,
    mock_server_matched,
    mock_server_mismatches,
    shutdown_mock_server,
    shutdown_mock_server_by_id,
    start_mock_server,
    start_tls_mock_server,
    write_pact_file_plan,
    MockServerError,
    WritePactFileErr,
};
use pact_engine::matching_rules::{Category, MatchingRuleCategory};
use pact_engine::mock_server::{MismatchEntry, MockServer, MockServerConfig};
use pact_engine::models::{Consumer, PactSpecification, Provider};
use pact_engine::pact::Pact;
use pact_engine::server_manager::{ServerEntry, ServerManager};

fn pact() -> Pact {
    Pact {
        consumer: Consumer { name: "web".to_owned() },
        provider: Provider { name: "api".to_owned() },
        interactions: vec![],
        spec_version: PactSpecification::V3,
    }
}

#[test]
fn unregistered_ports_yield_none_and_false() {
    let mut manager = ServerManager::new();
    assert!(manager.find_mock_server_by_port(4321).is_none());
    assert!(!manager.shutdown_mock_server_by_port(4321));
    assert!(!mock_server_matched(&manager, 4321));
    assert!(mock_server_mismatches(&manager, 4321).is_none());
    assert!(!shutdown_mock_server(&mut manager, 4321));
    assert!(!shutdown_mock_server_by_id(&mut manager, "ghost"));
    assert!(matches!(
        write_pact_file_plan(&manager, 4321, None, true),
        Err(WritePactFileErr::NoMockServer)
    ));
}

#[test]
fn starting_two_servers_with_the_same_id_fails_the_second() {
    let mut manager = ServerManager::new();
    let first = start_mock_server(&mut manager, "one".to_owned(), pact(), 8080);
    assert_eq!(first.unwrap(), 8080);
    let second = start_mock_server(&mut manager, "one".to_owned(), pact(), 8081);
    match second {
        Err(msg) => assert_eq!(msg, "Mock server with id 'one' is already running"),
        Ok(_) => panic!("a duplicate id must fail the second start"),
    }
    // distinct ids on distinct ports both run
    let third = start_mock_server(&mut manager, "two".to_owned(), pact(), 8081);
    assert_eq!(third.unwrap(), 8081);
    assert!(find_mock_server_by_port(&manager, 8080).is_some());
    assert!(find_mock_server_by_port(&manager, 8081).is_some());
}

#[test]
fn fresh_servers_report_matched_and_no_mismatches() {
    let mut manager = ServerManager::new();
    start_mock_server(&mut manager, "m".to_owned(), pact(), 9000).unwrap();
    assert!(mock_server_matched(&manager, 9000));
    assert_eq!(mock_server_mismatches(&manager, 9000).unwrap(), "[]");
}

#[test]
fn mismatches_accumulate_and_serialize() {
    let mut manager = ServerManager::new();
    start_mock_server(&mut manager, "m".to_owned(), pact(), 9001).unwrap();
    match &mut manager.servers[0].1 {
        ServerEntry::Native(ms) => {
            ms.add_mismatch(MismatchEntry {
                expected: "a".to_owned(),
                actual: "b".to_owned(),
                mismatch: "expected 'a' but got 'b'".to_owned(),
                path: "$.x".to_owned(),
                diff: None,
            });
        },
        ServerEntry::Plugin(_) => panic!("a native server was started"),
    }
    assert!(!mock_server_matched(&manager, 9001));
    let text = mock_server_mismatches(&manager, 9001).unwrap();
    assert_eq!(
        text,
        r#"[{"actual":"b","diff":"","expected":"a","mismatch":"expected 'a' but got 'b'","path":"$.x"}]"#
    );
}

#[test]
fn shutdown_deregisters_servers() {
    let mut manager = ServerManager::new();
    start_mock_server(&mut manager, "a".to_owned(), pact(), 9100).unwrap();
    start_mock_server(&mut manager, "b".to_owned(), pact(), 9101).unwrap();
    assert!(shutdown_mock_server(&mut manager, 9100));
    assert!(manager.find_mock_server_by_port(9100).is_none());
    assert!(shutdown_mock_server_by_id(&mut manager, "b"));
    assert!(!shutdown_mock_server_by_id(&mut manager, "b"));
    assert_eq!(manager.servers.len(), 0);
}

#[test]
fn create_mock_server_parses_then_starts() {
    let mut manager = ServerManager::new();
    let bad = create_mock_server(&mut manager, "{ not json", 9200);
    assert!(matches!(bad, Err(MockServerError::InvalidPactJson)));
    assert_eq!(manager.servers.len(), 0);

    let pact_json = r#"{
        "consumer": {"name": "web"},
        "provider": {"name": "api"},
        "interactions": [
            {"description": "a", "request": {"method": "GET", "path": "/a"},
             "response": {"status": 200}}
        ],
        "metadata": {"pactSpecification": {"version": "3.0.0"}}
    }"#;
    let port = create_mock_server(&mut manager, pact_json, 9200).unwrap();
    assert_eq!(port, 9200);
    match manager.find_mock_server_by_port(9200) {
        Some(ServerEntry::Native(ms)) => {
            assert_eq!(ms.pact.consumer.name, "web");
            assert_eq!(ms.pact.interactions.len(), 1);
            assert_eq!(ms.pact.interactions[0].request_path, "/a");
        },
        _ => panic!("the created server must be registered on its port"),
    }
}

#[test]
fn plugin_servers_degrade_conservatively() {
    let mut manager = ServerManager::new();
    let catalogue = vec!["grpc".to_owned()];
    let missing = manager.start_mock_server_for_transport(
        "p".to_owned(),
        pact(),
        9300,
        "mqtt",
        &catalogue,
    );
    assert!(missing.is_err());
    let started = manager.start_mock_server_for_transport(
        "p".to_owned(),
        pact(),
        9300,
        "grpc",
        &catalogue,
    );
    assert_eq!(started.unwrap(), 9300);
    assert!(!mock_server_matched(&manager, 9300));
    assert_eq!(
        mock_server_mismatches(&manager, 9300).unwrap(),
        r#"{"error":"Mock server results from plugins are not available"}"#
    );
    assert!(matches!(
        write_pact_file_plan(&manager, 9300, None, true),
        Err(WritePactFileErr::NoMockServer)
    ));
}

#[test]
fn write_pact_plan_names_the_file_and_merges() {
    let mut manager = ServerManager::new();
    let mut p = pact();
    p.interactions.push(pact_engine::pact::Interaction {
        description: "fresh".to_owned(),
        provider_states: vec![],
        request_method: "GET".to_owned(),
        request_path: "/fresh".to_owned(),
        request_query: JsonValue::Null,
        request_headers: JsonValue::Null,
        request_body: JsonValue::Null,
        response_status: 200,
        response_body: JsonValue::Null,
        matching_rules: MatchingRuleCategory::empty(Category::Body),
        query_rules: MatchingRuleCategory::empty(Category::Query),
        header_rules: MatchingRuleCategory::empty(Category::Header),
        generators: Generators::empty(),
    });
    start_mock_server(&mut manager, "w".to_owned(), p, 9400).unwrap();
    let existing = parse_json(
        r#"{"interactions":[{"description":"older","request":{"method":"GET","path":"/old"},"response":{"status":200}}]}"#,
    )
    .unwrap();
    let (name, contents) = write_pact_file_plan(&manager, 9400, Some(&existing), false).unwrap();
    assert_eq!(name, "web-api.json");
    let text = pact_engine::json_codec::json_text(&contents);
    assert!(text.contains("older"));
    assert!(text.contains("fresh"));
}

#[test]
fn find_matching_interaction_by_request_line() {
    let mut p = pact();
    p.interactions.push(pact_engine::pact::Interaction {
        description: "a".to_owned(),
        provider_states: vec![],
        request_method: "GET".to_owned(),
        request_path: "/a".to_owned(),
        request_query: JsonValue::Null,
        request_headers: JsonValue::Null,
        request_body: JsonValue::Null,
        response_status: 200,
        response_body: JsonValue::Null,
        matching_rules: MatchingRuleCategory::empty(Category::Body),
        query_rules: MatchingRuleCategory::empty(Category::Query),
        header_rules: MatchingRuleCategory::empty(Category::Header),
        generators: Generators::empty(),
    });
    let ms = MockServer::new("x".to_owned(), p, 9500, MockServerConfig::default());
    assert_eq!(ms.find_matching_interaction("GET", "/a"), Some(0));
    assert_eq!(ms.find_matching_interaction("POST", "/a"), None);
    assert_eq!(ms.find_matching_interaction("GET", "/b"), None);
}

#[test]
fn tls_servers_register_with_the_tls_listener_variant() {
    let mut manager = ServerManager::new();
    assert_eq!(
        start_tls_mock_server(&mut manager, "t".to_owned(), pact(), 9700).unwrap(),
        9700
    );
    match manager.find_mock_server_by_port(9700) {
        Some(ServerEntry::Native(ms)) => assert!(ms.config.tls),
        _ => panic!("the TLS server must be registered on its port"),
    }
}

#[test]
fn starting_on_a_taken_port_fails() {
    let mut manager = ServerManager::new();
    start_mock_server(&mut manager, "a".to_owned(), pact(), 9800).unwrap();
    match start_mock_server(&mut manager, "b".to_owned(), pact(), 9800) {
        Err(msg) => assert_eq!(msg, "Port 9800 is already bound by a mock server"),
        Ok(_) => panic!("a taken port must fail the second start"),
    }
    assert_eq!(manager.servers.len(), 1);
    // the port is keyed uniquely, so one shutdown frees it for good
    assert!(shutdown_mock_server(&mut manager, 9800));
    assert!(!shutdown_mock_server(&mut manager, 9800));
    assert!(manager.find_mock_server_by_port(9800).is_none());
}

#[test]
fn written_pacts_carry_the_tool_version_tag() {
    let mut manager = ServerManager::new();
    start_mock_server(&mut manager, "w".to_owned(), pact(), 9900).unwrap();
    let (_, contents) = write_pact_file_plan(&manager, 9900, None, true).unwrap();
    let text = pact_engine::json_codec::json_text(&contents);
    assert!(text.contains(r#""metadata":{"mockserver":{"version":"0.1.0"},"pactSpecification":{"version":"3.0.0"}}"#));
}
