//! The model types: specification versions, parties, HTTP status classes,
//! authentication display, and the substring expectation.

use pact_engine::http_utils::HttpAuth;
use pact_engine::json::{JsonNum, JsonValue};
use pact_engine::json_codec::{json_text, json_to_string, parse_json};
use pact_engine::models::{
    contain,
    Consumer,
    HttpStatus,
    HttpStatusError,
    PactSpecification,
    Provider,
    SpecVersionError,
};
use pact_engine::verify_json::ResultLevel;

#[test]
fn version_str_values() {
    assert_eq!(PactSpecification::V1.version_str(), "1.0.0");
    assert_eq!(PactSpecification::V1_1.version_str(), "1.1.0");
    assert_eq!(PactSpecification::V2.version_str(), "2.0.0");
    assert_eq!(PactSpecification::V3.version_str(), "3.0.0");
    assert_eq!(PactSpecification::V4.version_str(), "4.0");
    assert_eq!(PactSpecification::Unknown.version_str(), "unknown");
}

#[test]
fn parse_version_accepts_each_known_version() {
    assert!(matches!(PactSpecification::parse_version("1.0.0"), Ok(PactSpecification::V1)));
    assert!(matches!(PactSpecification::parse_version("1.1.0"), Ok(PactSpecification::V1_1)));
    assert!(matches!(PactSpecification::parse_version("2.0.0"), Ok(PactSpecification::V2)));
    assert!(matches!(PactSpecification::parse_version("3.0.0"), Ok(PactSpecification::V3)));
    assert!(matches!(PactSpecification::parse_version("4.0"), Ok(PactSpecification::V4)));
    // lenient: a bare major parses with minor 0
    assert!(matches!(PactSpecification::parse_version("3"), Ok(PactSpecification::V3)));
}

#[test]
fn parse_version_rejects_unsupported_and_invalid() {
    match PactSpecification::parse_version("1.2.0") {
        Err(e) => {
            assert!(matches!(e, SpecVersionError::Unsupported(_)));
            assert_eq!(e.message(), "Unsupported specification version '1.2.0'");
        },
        Ok(_) => panic!("an unsupported minor version must be rejected"),
    }
    match PactSpecification::parse_version("9.0.0") {
        Err(e) => {
            assert!(matches!(e, SpecVersionError::Invalid(_)));
            assert_eq!(e.message(), "Invalid specification version '9.0.0'");
        },
        Ok(_) => panic!("an out-of-family major version must be rejected"),
    }
    assert!(matches!(
        PactSpecification::parse_version("lolz"),
        Err(SpecVersionError::Invalid(_))
    ));
}

#[test]
fn consumer_and_provider_from_json() {
    let doc = parse_json(r#"{"name":"alice"}"#).unwrap();
    assert_eq!(Consumer::from_json(&doc).name, "alice");
    assert_eq!(Provider::from_json(&doc).name, "alice");

    let empty = parse_json(r#"{}"#).unwrap();
    assert_eq!(Consumer::from_json(&empty).name, "consumer");
    assert_eq!(Provider::from_json(&empty).name, "provider");

    // a non-string name is rendered as JSON text
    let numeric = parse_json(r#"{"name":17}"#).unwrap();
    assert_eq!(Consumer::from_json(&numeric).name, "17");

    let c = Consumer { name: "web".to_owned() };
    assert_eq!(json_text(&c.to_json()), r#"{"name":"web"}"#);
}

#[test]
fn party_verify_json_findings() {
    let bad = parse_json(r#"{"name":7}"#).unwrap();
    let findings = Consumer::verify_json("$.consumer", &bad, true, PactSpecification::V3);
    assert_eq!(findings.len(), 1);
    assert_eq!(findings[0].path, "$.consumer/name");
    assert_eq!(findings[0].message, "Must be a String, got Object");

    let missing = parse_json(r#"{}"#).unwrap();
    let findings = Provider::verify_json("$", &missing, false, PactSpecification::V3);
    assert_eq!(findings.len(), 1);
    assert_eq!(findings[0].message, "Missing name");
    assert!(matches!(findings[0].level, ResultLevel::Warning));

    let scalar = parse_json(r#"1"#).unwrap();
    let findings = Consumer::verify_json("$", &scalar, true, PactSpecification::V3);
    assert_eq!(findings.len(), 1);
    assert_eq!(findings[0].message, "Must be an Object, got Number");
}

#[test]
fn http_status_from_json_labels_and_codes() {
    let info = parse_json(r#""info""#).unwrap();
    assert!(matches!(HttpStatus::from_json(&info), Ok(HttpStatus::Information)));
    let err = parse_json(r#""error""#).unwrap();
    assert!(matches!(HttpStatus::from_json(&err), Ok(HttpStatus::Error)));

    let codes = parse_json(r#"[200, "201"]"#).unwrap();
    match HttpStatus::from_json(&codes) {
        Ok(HttpStatus::StatusCodes(cs)) => assert_eq!(cs, vec![200u16, 201u16]),
        _ => panic!("an array of codes must parse"),
    }

    let bad_label = parse_json(r#""success!""#).unwrap();
    match HttpStatus::from_json(&bad_label) {
        Err(e) => {
            assert!(matches!(e, HttpStatusError::InvalidValue(_)));
            assert_eq!(e.message(), "'success!' is not a valid value for an HTTP Status");
        },
        Ok(_) => panic!("an unknown label must be rejected"),
    }

    let bad_shape = parse_json(r#"true"#).unwrap();
    match HttpStatus::from_json(&bad_shape) {
        Err(e) => {
            assert!(matches!(e, HttpStatusError::InvalidJson(_)));
            assert_eq!(e.message(), "'true' is not a valid JSON value for an HTTP Status");
        },
        Ok(_) => panic!("a boolean is no HTTP status"),
    }

    let bad_elem = parse_json(r#"[200, null]"#).unwrap();
    assert!(matches!(HttpStatus::from_json(&bad_elem), Err(HttpStatusError::InvalidJson(_))));
}

#[test]
fn http_status_json_round_trip_and_display() {
    let st = HttpStatus::StatusCodes(vec![200, 404]);
    assert_eq!(json_text(&st.to_json()), "[200,404]");
    assert_eq!(st.display_str(), "200, 404");
    assert_eq!(HttpStatus::Success.display_str(), "Successful response (200-299)");
    assert_eq!(json_text(&HttpStatus::NonError.to_json()), r#""nonError""#);

    assert!(HttpStatus::Success.matches_status(204));
    assert!(!HttpStatus::Success.matches_status(404));
    assert!(HttpStatus::Error.matches_status(500));
    assert!(HttpStatus::StatusCodes(vec![201]).matches_status(201));
    assert!(!HttpStatus::StatusCodes(vec![201]).matches_status(200));
}

#[test]
fn http_auth_display_masks_secrets() {
    assert!(HttpAuth::NoAuth.is_none());
    assert!(!HttpAuth::Token("t".to_owned()).is_none());
    assert_eq!(HttpAuth::NoAuth.display_str(), "None");
    assert_eq!(
        HttpAuth::Token("1234abcdefgh".to_owned()).display_str(),
        "Token(1234********)"
    );
    assert_eq!(HttpAuth::Token("ab".to_owned()).display_str(), "Token(**)");
    assert_eq!(
        HttpAuth::User("bob".to_owned(), Some("secret99".to_owned())).display_str(),
        "User(bob, secr****)"
    );
    assert_eq!(
        HttpAuth::User("".to_owned(), None).display_str(),
        "User(none, [no password])"
    );
}

#[test]
fn contain_checks_substrings() {
    let c = contain("llo wor");
    assert!(c.matches("hello world"));
    assert!(!c.matches("help"));
    assert_eq!(
        c.failure_message("help"),
        "expected 'help' to contain 'llo wor'"
    );
}

#[test]
fn json_to_string_reads_strings_and_renders_the_rest() {
    assert_eq!(json_to_string(&JsonValue::Str("plain".to_owned())), "plain");
    assert_eq!(json_to_string(&JsonValue::Num(JsonNum::U(7))), "7");
    assert_eq!(json_to_string(&JsonValue::Null), "null");
}

#[test]
fn version_tags_read_ignoring_ascii_case() {
    assert!(matches!(PactSpecification::from("V3"), PactSpecification::V3));
    assert!(matches!(PactSpecification::from("v1.1"), PactSpecification::V1_1));
    assert!(matches!(PactSpecification::from("V9"), PactSpecification::Unknown));
    assert_eq!(PactSpecification::V1_1.display_str(), "V1.1");
    assert_eq!(PactSpecification::Unknown.display_str(), "unknown");
}

#[test]
fn party_schema_shape() {
    let schema = Consumer::schema(PactSpecification::V3);
    assert_eq!(
        json_text(&schema),
        r#"{"properties":{"name":{"type":"string"}},"required":["name"],"type":"object"}"#
    );
    let schema = Provider::schema(PactSpecification::V3);
    assert_eq!(
        json_text(&schema),
        r#"{"properties":{"name":{"type":"string"}},"required":["name"],"type":"object"}"#
    );
}
