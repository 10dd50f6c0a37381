//! Pact artifacts: serialization, the write-out merge rule, and the pattern
//! round trip through the JSON codec.

use pact_engine::generators::Generators;
use pact_engine::json::{json_eq, JsonValue};
use pact_engine::json_codec::{json_text, parse_json};
use pact_engine::matching_rules::{Category, MatchingRule, MatchingRuleCategory, RuleLogic};
use pact_engine::models::{Consumer, PactSpecification, Provider};
use pact_engine::pact::{write_pact_contents, Interaction, Pact};
use pact_engine::path_exp::PathExpression;
use pact_engine::patterns::{JsonPattern, Pattern, StringPattern};

fn interaction(description: &str, path: &str) -> Interaction {
    Interaction {
        description: description.to_owned(),
        provider_states: vec![],
        request_method: "GET".to_owned(),
        request_path: path.to_owned(),
        request_query: JsonValue::Null,
        request_headers: JsonValue::Null,
        request_body: JsonValue::Null,
        response_status: 200,
        response_body: JsonValue::Null,
        matching_rules: MatchingRuleCategory::empty(Category::Body),
        query_rules: MatchingRuleCategory::empty(Category::Query),
        header_rules: MatchingRuleCategory::empty(Category::Header),
        generators: Generators::empty(),
    }
}

fn pact(interactions: Vec<Interaction>) -> Pact {
    Pact {
        consumer: Consumer { name: "web".to_owned() },
        provider: Provider { name: "api".to_owned() },
        interactions,
        spec_version: PactSpecification::V3,
    }
}

#[test]
fn default_file_name_is_consumer_dash_provider() {
    assert_eq!(pact(vec![]).default_file_name(), "web-api.json");
}

#[test]
fn overwriting_writes_exactly_the_current_session() {
    let current = pact(vec![interaction("a", "/a")]);
    let stale = parse_json(r#"{"interactions":[{"description":"old"}]}"#).unwrap();
    let contents = write_pact_contents(&current, Some(&stale), true);
    let text = json_text(&contents);
    assert!(text.contains(r#""description":"a""#));
    assert!(!text.contains("old"));
}

#[test]
fn merging_disjoint_sessions_accumulates_the_union() {
    // first run: session A alone
    let run_a = pact(vec![interaction("a", "/a")]);
    let file_a = write_pact_contents(&run_a, None, false);

    // second run: session B merged over the file A left behind
    let run_b = pact(vec![interaction("b", "/b")]);
    let merged = write_pact_contents(&run_b, Some(&file_a), false);
    let text = json_text(&merged);
    assert!(text.contains(r#""description":"a""#));
    assert!(text.contains(r#""description":"b""#));

    // the merged document still parses and holds both interactions
    let doc = parse_json(&text).unwrap();
    match doc.get("interactions") {
        Some(JsonValue::Arr(items)) => assert_eq!(items.len(), 2),
        _ => panic!("the merged document must hold an interactions array"),
    }
}

#[test]
fn merging_replaces_same_identity_interactions() {
    let run1 = pact(vec![interaction("same", "/v1")]);
    let file1 = write_pact_contents(&run1, None, false);
    let run2 = pact(vec![interaction("same", "/v2")]);
    let merged = write_pact_contents(&run2, Some(&file1), false);
    let text = json_text(&merged);
    assert!(!text.contains("/v1"));
    assert!(text.contains("/v2"));
    let doc = parse_json(&text).unwrap();
    match doc.get("interactions") {
        Some(JsonValue::Arr(items)) => assert_eq!(items.len(), 1),
        _ => panic!("the merged document must hold an interactions array"),
    }
}

#[test]
fn pact_serialization_carries_the_specification_version() {
    let p = pact(vec![interaction("a", "/a")]);
    let text = json_text(&p.to_json());
    assert!(text.contains(r#""pactSpecification":{"version":"3.0.0"}"#));
    assert!(text.contains(r#""consumer":{"name":"web"}"#));
    assert!(text.contains(r#""provider":{"name":"api"}"#));
}

#[test]
fn pact_json_round_trip_keeps_the_parties() {
    let p = pact(vec![interaction("a", "/a")]);
    let doc = parse_json(&json_text(&p.to_json())).unwrap();
    let back = Pact::from_json(&doc);
    assert_eq!(back.consumer.name, "web");
    assert_eq!(back.provider.name, "api");
    assert_eq!(back.interactions.len(), 1);
    assert_eq!(back.interactions[0].description, "a");
    assert_eq!(back.interactions[0].request_path, "/a");
    assert!(matches!(back.spec_version, PactSpecification::V3));
}

#[test]
fn pattern_example_round_trips_through_the_codec() {
    // keys in canonical (sorted) order: the codec renders objects sorted, so
    // the reparse gives the same entry order back
    let pattern = JsonPattern::Object(vec![
        ("code".to_owned(), JsonPattern::Term("^[A-Z]{3}$".to_owned(), "ABC".to_owned())),
        ("name".to_owned(), JsonPattern::Like(Box::new(JsonPattern::Literal(
            JsonValue::Str("alice".to_owned()),
        )))),
    ]);
    let example = pattern.to_example();
    let text = json_text(&example);
    let reparsed = parse_json(&text).expect("the emitted example must re-parse");
    assert!(json_eq(&example, &reparsed));
    assert_eq!(text, r#"{"code":"ABC","name":"alice"}"#);
    // rendering the reparsed value gives the same text again
    assert_eq!(json_text(&reparsed), text);

    let bytes = pattern.to_example_bytes();
    assert_eq!(bytes, text.into_bytes());
}

#[test]
fn pattern_rules_are_extracted_at_their_paths() {
    let pattern = JsonPattern::Object(vec![
        ("name".to_owned(), JsonPattern::Like(Box::new(JsonPattern::Literal(
            JsonValue::Str("alice".to_owned()),
        )))),
        ("code".to_owned(), JsonPattern::Term("^[A-Z]{3}$".to_owned(), "ABC".to_owned())),
    ]);
    let mut rules = MatchingRuleCategory::empty(Category::Body);
    pattern.extract_matching_rules(&PathExpression::root(), &mut rules);
    assert_eq!(rules.entries.len(), 2);

    let name_path = PathExpression::root().pushed_field("name");
    let group = rules.resolve_matchers(&name_path).expect("the like rule must be recorded");
    assert!(matches!(group[0].0, MatchingRule::Type));
    assert!(matches!(group[0].1, RuleLogic::And));

    let code_path = PathExpression::root().pushed_field("code");
    let group = rules.resolve_matchers(&code_path).expect("the term rule must be recorded");
    assert!(matches!(&group[0].0, MatchingRule::Regex(r) if r == "^[A-Z]{3}$"));
}

#[test]
fn string_patterns_emit_their_example() {
    let p = StringPattern { example: "2001-02-03".to_owned(), regex: Some(
        r"^\d{4}-\d{2}-\d{2}$".to_owned(),
    ) };
    assert!(matches!(p.to_example(), JsonValue::Str(s) if s == "2001-02-03"));
    let mut rules = MatchingRuleCategory::empty(Category::Path);
    p.extract_matching_rules(&PathExpression::root(), &mut rules);
    assert_eq!(rules.entries.len(), 1);
}
