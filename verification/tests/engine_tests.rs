//! The matching-rule and generator engine: rule lookup by path, rule
//! application, and deterministic generation under a frozen context.

use pact_engine::generators::{GenContext, Generator, GeneratorCategory, Generators};
use pact_engine::json::{json_eq, JsonNum, JsonValue};
use pact_engine::matching::{match_json_tree, regex_matches, rule_matches, rules_match};
use pact_engine::mock_server::{MockServer, MockServerConfig};
use pact_engine::models::{Consumer, PactSpecification, Provider};
use pact_engine::pact::{Interaction, Pact};
use pact_engine::matching_rules::{Category, MatchingRule, MatchingRuleCategory, RuleLogic};
use pact_engine::path_exp::PathExpression;

fn ctx(seed: u64) -> GenContext {
    GenContext {
        state_params: vec![("user".to_owned(), JsonValue::Str("alice".to_owned()))],
        base_url: "http://127.0.0.1:8080".to_owned(),
        seed,
        now_date: "2000-01-02".to_owned(),
        now_time: "03:04:05".to_owned(),
        now_datetime: "2000-01-02T03:04:05".to_owned(),
    }
}

#[test]
fn rules_are_found_at_their_exact_path() {
    let mut c = MatchingRuleCategory::empty(Category::Body);
    let p = PathExpression::root().pushed_field("items").pushed_index(1);
    c.add_rule(&p, MatchingRule::Type, RuleLogic::And);
    c.add_rule(&p, MatchingRule::Integer, RuleLogic::And);

    let q = PathExpression::root().pushed_field("items").pushed_index(1);
    let group = c.resolve_matchers(&q).expect("the registered path must resolve");
    assert_eq!(group.len(), 2);
    assert!(matches!(group[0].0, MatchingRule::Type));
    assert!(matches!(group[1].0, MatchingRule::Integer));

    let other = PathExpression::root().pushed_field("items").pushed_index(2);
    assert!(c.resolve_matchers(&other).is_none());
}

#[test]
fn wildcard_rules_cover_concrete_paths() {
    let mut c = MatchingRuleCategory::empty(Category::Body);
    let pattern = PathExpression::root().pushed_field("items").pushed_star();
    c.add_rule(&pattern, MatchingRule::Number, RuleLogic::And);

    let concrete = PathExpression::root().pushed_field("items").pushed_index(7);
    let group = c.resolve_matchers(&concrete).expect("the wildcard must cover any index");
    assert!(matches!(group[0].0, MatchingRule::Number));

    let elsewhere = PathExpression::root().pushed_field("other");
    assert!(c.resolve_matchers(&elsewhere).is_none());
}

#[test]
fn path_text_renders_segments() {
    let p = PathExpression::root()
        .pushed_field("foo")
        .pushed_field("@id")
        .pushed_index(3)
        .pushed_star();
    assert_eq!(p.to_text(), "$.foo['@id'][3].*");
    assert_eq!(PathExpression::root().to_text(), "$");
}

#[test]
fn single_rules_accept_and_reject() {
    let num = JsonValue::Num(JsonNum::U(5));
    let text = JsonValue::Str("abc123".to_owned());
    let null = JsonValue::Null;

    assert!(rule_matches(&MatchingRule::Equality, &num, &JsonValue::Num(JsonNum::U(5))));
    assert!(!rule_matches(&MatchingRule::Equality, &num, &JsonValue::Num(JsonNum::U(6))));
    assert!(rule_matches(&MatchingRule::Type, &text, &JsonValue::Str("zz".to_owned())));
    assert!(!rule_matches(&MatchingRule::Type, &text, &num));
    assert!(rule_matches(&MatchingRule::Integer, &null, &num));
    assert!(!rule_matches(&MatchingRule::Integer, &null, &text));
    assert!(rule_matches(&MatchingRule::Regex("^[a-z]+[0-9]+$".to_owned()), &null, &text));
    assert!(!rule_matches(&MatchingRule::Regex("^[0-9]+$".to_owned()), &null, &text));
    assert!(rule_matches(&MatchingRule::Include("c12".to_owned()), &null, &text));
    assert!(!rule_matches(&MatchingRule::Include("xyz".to_owned()), &null, &text));
    assert!(rule_matches(&MatchingRule::NullValue, &num, &null));
    assert!(rule_matches(&MatchingRule::Boolean, &null, &JsonValue::Bool(true)));
    assert!(rule_matches(
        &MatchingRule::Boolean,
        &null,
        &JsonValue::Str("true".to_owned())
    ));
    assert!(rule_matches(
        &MatchingRule::StatusCode(pact_engine::models::HttpStatus::ClientError),
        &null,
        &JsonValue::Num(JsonNum::U(404))
    ));

    let arr = JsonValue::Arr(vec![num, JsonValue::Num(JsonNum::U(6))]);
    assert!(rule_matches(&MatchingRule::MinType(2), &JsonValue::Arr(vec![]), &arr));
    assert!(!rule_matches(&MatchingRule::MinType(3), &JsonValue::Arr(vec![]), &arr));
    assert!(rule_matches(&MatchingRule::MaxType(2), &JsonValue::Arr(vec![]), &arr));
}

#[test]
fn each_key_and_each_value_recurse() {
    let obj = JsonValue::Obj(vec![
        ("ab1".to_owned(), JsonValue::Num(JsonNum::U(1))),
        ("cd2".to_owned(), JsonValue::Num(JsonNum::U(2))),
    ]);
    let keys_rule = MatchingRule::EachKey(vec![MatchingRule::Regex("^[a-z]+[0-9]$".to_owned())]);
    assert!(rule_matches(&keys_rule, &JsonValue::Null, &obj));
    let strict_keys = MatchingRule::EachKey(vec![MatchingRule::Regex("^[a-z]+$".to_owned())]);
    assert!(!rule_matches(&strict_keys, &JsonValue::Null, &obj));
    let values_rule = MatchingRule::EachValue(vec![MatchingRule::Integer]);
    assert!(rule_matches(&values_rule, &JsonValue::Null, &obj));
}

#[test]
fn rule_groups_combine_under_and_or() {
    let text = JsonValue::Str("abc".to_owned());
    let and_group = vec![
        (MatchingRule::Type, RuleLogic::And),
        (MatchingRule::Regex("^a".to_owned()), RuleLogic::And),
    ];
    assert!(rules_match(&and_group, &JsonValue::Str("a".to_owned()), &text));
    let failing_and = vec![
        (MatchingRule::Type, RuleLogic::And),
        (MatchingRule::Regex("^b".to_owned()), RuleLogic::And),
    ];
    assert!(!rules_match(&failing_and, &JsonValue::Str("a".to_owned()), &text));
    let or_group = vec![
        (MatchingRule::Regex("^b".to_owned()), RuleLogic::Or),
        (MatchingRule::Regex("^a".to_owned()), RuleLogic::Or),
    ];
    assert!(rules_match(&or_group, &JsonValue::Str("a".to_owned()), &text));
    let failing_or = vec![
        (MatchingRule::Regex("^b".to_owned()), RuleLogic::Or),
        (MatchingRule::Regex("^c".to_owned()), RuleLogic::Or),
    ];
    assert!(!rules_match(&failing_or, &JsonValue::Str("a".to_owned()), &text));
}

#[test]
fn regex_matching_rejects_invalid_patterns() {
    assert!(regex_matches("^a+$", "aaa"));
    assert!(!regex_matches("^a+$", "b"));
    assert!(!regex_matches("(unclosed", "anything"));
}

#[test]
fn generation_is_deterministic_under_a_frozen_context() {
    let mut gens = Generators::empty();
    gens.add_generator_with_subcategory(
        GeneratorCategory::Body,
        PathExpression::root().pushed_field("id"),
        Generator::RandomInt(0, 100),
    );
    gens.add_generator_with_subcategory(
        GeneratorCategory::Body,
        PathExpression::root().pushed_field("token"),
        Generator::Uuid,
    );
    let example = JsonValue::Obj(vec![
        ("id".to_owned(), JsonValue::Num(JsonNum::U(0))),
        ("token".to_owned(), JsonValue::Str("tbd".to_owned())),
    ]);
    let once = gens.apply_generators(GeneratorCategory::Body, &example, &ctx(42));
    let twice = gens.apply_generators(GeneratorCategory::Body, &example, &ctx(42));
    assert!(json_eq(&once, &twice));
}

#[test]
fn generator_values_from_a_fixed_seed() {
    let frozen = ctx(0);
    let v = pact_engine::generators::generate_value(&Generator::Uuid, &frozen, &JsonValue::Null);
    match v {
        JsonValue::Str(s) => assert_eq!(s, "00000000-0000-4000-8000-000000000000"),
        _ => panic!("a UUID generator yields a string"),
    }
    let v = pact_engine::generators::generate_value(
        &Generator::RandomInt(5, 10),
        &ctx(13),
        &JsonValue::Null,
    );
    assert!(matches!(v, JsonValue::Num(JsonNum::U(6))));
    let v = pact_engine::generators::generate_value(
        &Generator::Date(None),
        &frozen,
        &JsonValue::Null,
    );
    assert!(matches!(v, JsonValue::Str(s) if s == "2000-01-02"));
    let v = pact_engine::generators::generate_value(
        &Generator::ProviderStateGenerator("user".to_owned()),
        &frozen,
        &JsonValue::Null,
    );
    assert!(matches!(v, JsonValue::Str(s) if s == "alice"));
    let v = pact_engine::generators::generate_value(
        &Generator::ProviderStateGenerator("absent".to_owned()),
        &frozen,
        &JsonValue::Str("kept".to_owned()),
    );
    assert!(matches!(v, JsonValue::Str(s) if s == "kept"));
}

#[test]
fn generators_replace_values_at_their_paths() {
    let mut gens = Generators::empty();
    gens.add_generator_with_subcategory(
        GeneratorCategory::Body,
        PathExpression::root().pushed_field("url"),
        Generator::MockServerURL("http://example.test".to_owned(), ".*".to_owned()),
    );
    let example = JsonValue::Obj(vec![
        ("url".to_owned(), JsonValue::Str("http://example.test".to_owned())),
        ("kept".to_owned(), JsonValue::Num(JsonNum::U(1))),
    ]);
    let out = gens.apply_generators(GeneratorCategory::Body, &example, &ctx(1));
    let text = pact_engine::json_codec::json_text(&out);
    assert_eq!(text, r#"{"kept":1,"url":"http://127.0.0.1:8080"}"#);
}

#[test]
fn last_generator_registration_wins() {
    let mut gens = Generators::empty();
    let p = PathExpression::root().pushed_field("flag");
    gens.add_generator_with_subcategory(GeneratorCategory::Body, p.clone(), Generator::Uuid);
    gens.add_generator_with_subcategory(GeneratorCategory::Body, p, Generator::RandomBoolean);
    assert_eq!(gens.entries.len(), 1);
    assert!(matches!(gens.entries[0].2, Generator::RandomBoolean));
}

#[test]
fn tree_matching_walks_bodies_under_rules() {
    let expected = pact_engine::json_codec::parse_json(
        r#"{"name":"alice","tags":["a","b"],"age":30}"#,
    )
    .unwrap();
    let same_shape = pact_engine::json_codec::parse_json(
        r#"{"age":99,"name":"bob","tags":["x","y"]}"#,
    )
    .unwrap();

    // without rules, plain equality guides the walk
    let no_rules = MatchingRuleCategory::empty(Category::Body);
    assert!(match_json_tree(&no_rules, &PathExpression::root(), &expected, &expected));
    assert!(!match_json_tree(&no_rules, &PathExpression::root(), &expected, &same_shape));

    // with type rules at the differing paths, the looser shape passes
    let mut rules = MatchingRuleCategory::empty(Category::Body);
    rules.add_rule(
        &PathExpression::root().pushed_field("name"),
        MatchingRule::Type,
        RuleLogic::And,
    );
    rules.add_rule(
        &PathExpression::root().pushed_field("age"),
        MatchingRule::Integer,
        RuleLogic::And,
    );
    rules.add_rule(
        &PathExpression::root().pushed_field("tags").pushed_star(),
        MatchingRule::Type,
        RuleLogic::And,
    );
    assert!(match_json_tree(&rules, &PathExpression::root(), &expected, &same_shape));

    // a missing key still fails
    let missing = pact_engine::json_codec::parse_json(r#"{"name":"bob","age":1}"#).unwrap();
    assert!(!match_json_tree(&rules, &PathExpression::root(), &expected, &missing));
}

#[test]
fn mock_servers_log_mismatching_requests() {
    let mut rules = MatchingRuleCategory::empty(Category::Body);
    rules.add_rule(
        &PathExpression::root().pushed_field("name"),
        MatchingRule::Type,
        RuleLogic::And,
    );
    let pact = Pact {
        consumer: Consumer { name: "web".to_owned() },
        provider: Provider { name: "api".to_owned() },
        interactions: vec![Interaction {
            description: "get user".to_owned(),
            provider_states: vec![],
            request_method: "GET".to_owned(),
            request_path: "/user".to_owned(),
            request_query: JsonValue::Null,
            request_headers: JsonValue::Null,
            request_body: pact_engine::json_codec::parse_json(r#"{"name":"alice"}"#).unwrap(),
            response_status: 200,
            response_body: JsonValue::Null,
            matching_rules: rules,
            query_rules: MatchingRuleCategory::empty(Category::Query),
            header_rules: MatchingRuleCategory::empty(Category::Header),
            generators: Generators::empty(),
        }],
        spec_version: PactSpecification::V3,
    };
    let mut ms = MockServer::new("s".to_owned(), pact, 9600, MockServerConfig::default());

    let good = pact_engine::json_codec::parse_json(r#"{"name":"carol"}"#).unwrap();
    assert_eq!(ms.check_request("GET", "/user", &JsonValue::Null, &JsonValue::Null, &good), Some(0));
    assert!(ms.matched());

    let bad = pact_engine::json_codec::parse_json(r#"{"name":7}"#).unwrap();
    assert_eq!(ms.check_request("GET", "/user", &JsonValue::Null, &JsonValue::Null, &bad), None);
    assert!(!ms.matched());
    assert_eq!(ms.mismatches().len(), 1);
    assert_eq!(ms.mismatches()[0].expected, r#"{"name":"alice"}"#);
    assert_eq!(ms.mismatches()[0].actual, r#"{"name":7}"#);
    assert_eq!(ms.mismatches()[0].mismatch, "Request did not match the expected interaction");

    assert_eq!(ms.check_request("POST", "/user", &JsonValue::Null, &JsonValue::Null, &good), None);
    assert_eq!(ms.mismatches().len(), 2);
    assert_eq!(ms.mismatches()[1].expected, "POST /user");
    assert_eq!(ms.mismatches()[1].mismatch, "No matching interaction found");
}

#[test]
fn request_matching_covers_query_and_headers_and_narrows_ties() {
    let strict_query = {
        let mut c = MatchingRuleCategory::empty(Category::Query);
        c.add_rule(
            &PathExpression::root().pushed_field("page"),
            MatchingRule::Regex("^[0-9]+$".to_owned()),
            RuleLogic::And,
        );
        c
    };
    let base = |desc: &str, query_rules: MatchingRuleCategory| Interaction {
        description: desc.to_owned(),
        provider_states: vec![],
        request_method: "GET".to_owned(),
        request_path: "/items".to_owned(),
        request_query: pact_engine::json_codec::parse_json(r#"{"page":"1"}"#).unwrap(),
        request_headers: JsonValue::Null,
        request_body: JsonValue::Null,
        response_status: 200,
        response_body: JsonValue::Null,
        matching_rules: MatchingRuleCategory::empty(Category::Body),
        query_rules,
        header_rules: MatchingRuleCategory::empty(Category::Header),
        generators: Generators::empty(),
    };
    let pact = Pact {
        consumer: Consumer { name: "web".to_owned() },
        provider: Provider { name: "api".to_owned() },
        interactions: vec![
            base("strict", MatchingRuleCategory::empty(Category::Query)),
            base("loose", strict_query),
        ],
        spec_version: PactSpecification::V3,
    };
    let mut ms = MockServer::new("q".to_owned(), pact, 9700, MockServerConfig::default());

    // the exact query satisfies the first candidate already
    let same = pact_engine::json_codec::parse_json(r#"{"page":"1"}"#).unwrap();
    assert_eq!(
        ms.check_request("GET", "/items", &same, &JsonValue::Null, &JsonValue::Null),
        Some(0)
    );
    // another numeric page fails the equality-bound first candidate and is
    // narrowed to the second, whose regex rule accepts it
    let other = pact_engine::json_codec::parse_json(r#"{"page":"2"}"#).unwrap();
    assert_eq!(
        ms.check_request("GET", "/items", &other, &JsonValue::Null, &JsonValue::Null),
        Some(1)
    );
    // a non-numeric page fails both and is logged
    let bad = pact_engine::json_codec::parse_json(r#"{"page":"x"}"#).unwrap();
    assert_eq!(
        ms.check_request("GET", "/items", &bad, &JsonValue::Null, &JsonValue::Null),
        None
    );
    assert_eq!(ms.mismatches().len(), 1);
}
