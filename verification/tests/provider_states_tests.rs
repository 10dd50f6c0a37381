//! Provider-state parsing, ported inputs and expectations plus scenario
//! coverage for the V3 array and legacy scalar forms.

use pact_engine::json::JsonValue;
use pact_engine::json_codec::parse_json;
use pact_engine::models::PactSpecification;
use pact_engine::provider_states::ProviderState;
use pact_engine::verify_json::ResultLevel;

fn parse(text: &str) -> JsonValue {
    parse_json(text).expect("the test document must parse")
}

#[test]
fn defaults_to_v3_pact_provider_states() {
    let json = r#"{
            "providerStates": [
              {
                "name": "test state",
                "params": { "name": "Testy" }
              },
              {
                "name": "test state 2",
                "params": { "name": "Testy2" }
              }
            ],
            "description" : "test interaction"
        }"#;
    let provider_states = ProviderState::from_json(&parse(json));
    assert_eq!(provider_states.len(), 2);
    assert!(
        provider_states[0] == ProviderState {
            name: "test state".to_owned(),
            params: vec![("name".to_owned(), JsonValue::Str("Testy".to_owned()))],
        }
    );
    assert!(
        provider_states[1] == ProviderState {
            name: "test state 2".to_owned(),
            params: vec![("name".to_owned(), JsonValue::Str("Testy2".to_owned()))],
        }
    );
}

#[test]
fn falls_back_to_v2_pact_provider_state() {
    let json = r#"{
            "providerState": "test state",
            "description" : "test interaction"
        }"#;
    let provider_states = ProviderState::from_json(&parse(json));
    assert_eq!(provider_states.len(), 1);
    assert!(
        provider_states[0] == ProviderState { name: "test state".to_owned(), params: vec![] }
    );
}

#[test]
fn pact_with_no_provider_states() {
    let json = r#"{
            "description" : "test interaction"
        }"#;
    let provider_states = ProviderState::from_json(&parse(json));
    assert!(provider_states.is_empty());
}

#[test]
fn provider_state_scalar_and_array_forms() {
    let scalar = parse(r#"{"providerState":"state A"}"#);
    let states = ProviderState::from_json(&scalar);
    assert_eq!(states.len(), 1);
    assert_eq!(states[0].name, "state A");
    assert!(states[0].params.is_empty());

    let array = parse(r#"{"providerStates":[{"name":"s","params":{"x":1}}]}"#);
    let states = ProviderState::from_json(&array);
    assert_eq!(states.len(), 1);
    assert_eq!(states[0].name, "s");
    assert_eq!(states[0].params.len(), 1);
    assert_eq!(states[0].params[0].0, "x");
    assert!(matches!(
        states[0].params[0].1,
        JsonValue::Num(pact_engine::json::JsonNum::U(1))
    ));
}

#[test]
fn provider_state_equality_ignores_param_order() {
    let a = ProviderState {
        name: "s".to_owned(),
        params: vec![
            ("x".to_owned(), JsonValue::Bool(true)),
            ("y".to_owned(), JsonValue::Null),
        ],
    };
    let b = ProviderState {
        name: "s".to_owned(),
        params: vec![
            ("y".to_owned(), JsonValue::Null),
            ("x".to_owned(), JsonValue::Bool(true)),
        ],
    };
    assert!(a == b);
    let c = ProviderState { name: "s".to_owned(), params: vec![] };
    assert!(!(a == c));
}

#[test]
fn empty_scalar_provider_state_is_dropped() {
    let json = parse(r#"{"providerState":""}"#);
    assert!(ProviderState::from_json(&json).is_empty());
}

#[test]
fn provider_state_to_json_shape() {
    let s = ProviderState {
        name: "ready".to_owned(),
        params: vec![("id".to_owned(), JsonValue::Str("1".to_owned()))],
    };
    let v = s.to_json();
    let text = pact_engine::json_codec::json_text(&v);
    assert_eq!(text, r#"{"name":"ready","params":{"id":"1"}}"#);

    let bare = ProviderState { name: "ready".to_owned(), params: vec![] };
    let text = pact_engine::json_codec::json_text(&bare.to_json());
    assert_eq!(text, r#"{"name":"ready"}"#);
}

#[test]
fn provider_state_verify_json_findings() {
    let ok = parse(r#"{"name":"s","params":{}}"#);
    let findings = ProviderState::verify_json("$", &ok, true, PactSpecification::V3);
    assert!(findings.is_empty());

    let missing = parse(r#"{"params":{}}"#);
    let findings = ProviderState::verify_json("$", &missing, true, PactSpecification::V3);
    assert_eq!(findings.len(), 1);
    assert_eq!(findings[0].message, "Provider state 'name' is required");
    assert!(matches!(findings[0].level, ResultLevel::Error));

    let unknown = parse(r#"{"name":"s","extra":1}"#);
    let findings = ProviderState::verify_json("$", &unknown, false, PactSpecification::V3);
    assert_eq!(findings.len(), 1);
    assert_eq!(findings[0].message, "Unknown attribute 'extra'");
    assert!(matches!(findings[0].level, ResultLevel::Warning));
}
