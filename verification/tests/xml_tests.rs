//! The structural XML body synthesizer: plain elements, matcher nodes,
//! example repetition, and rejection of malformed intermediate trees.

use pact_engine::generators::Generators;
use pact_engine::json_codec::parse_json;
use pact_engine::matching_rules::{Category, MatchingRule, MatchingRuleCategory};
use pact_engine::path_exp::PathExpression;
use pact_engine::xml::{duplicate_element, generate_xml_body, XmlBodyError, XmlElement, XmlNode};

fn synthesize(tree: &str) -> (Vec<u8>, MatchingRuleCategory, Generators) {
    let doc = parse_json(tree).expect("the test tree must parse");
    let mut rules = MatchingRuleCategory::empty(Category::Body);
    let mut gens = Generators::empty();
    let bytes = generate_xml_body(&doc, &mut rules, &mut gens).expect("the tree must synthesize");
    (bytes, rules, gens)
}

#[test]
fn plain_element_with_attribute() {
    let (bytes, rules, gens) = synthesize(r#"{"root":{"name":"foo","attributes":{"id":"1"}}}"#);
    let text = String::from_utf8(bytes).unwrap();
    assert_eq!(text, "<?xml version='1.0'?><foo id='1'/>");
    assert!(rules.is_empty());
    assert!(gens.is_empty());
}

#[test]
fn matcher_node_records_a_type_rule() {
    let (bytes, rules, _gens) = synthesize(
        r#"{"root":{"pact:matcher:type":"type","value":{"name":"alice"}}}"#,
    );
    let text = String::from_utf8(bytes).unwrap();
    assert_eq!(text, "<?xml version='1.0'?><alice/>");
    assert_eq!(rules.entries.len(), 1);
    let path = PathExpression::root().pushed_field("alice");
    let group = rules.resolve_matchers(&path).expect("the rule must sit at $.alice");
    assert_eq!(group.len(), 1);
    assert!(matches!(group[0].0, MatchingRule::Type));
}

#[test]
fn children_are_repeated_by_examples() {
    let (bytes, _rules, _gens) = synthesize(
        r#"{"root":{"name":"list","children":[{"name":"item","examples":3}]}}"#,
    );
    let text = String::from_utf8(bytes).unwrap();
    assert_eq!(text, "<?xml version='1.0'?><list><item/><item/><item/></list>");
}

#[test]
fn content_nodes_become_text_and_record_text_rules() {
    let (bytes, rules, _gens) = synthesize(
        r#"{"root":{"name":"msg","children":[
            {"content":"hi","matcher":{"pact:matcher:type":"regex","regex":"^h"}}
        ]}}"#,
    );
    let text = String::from_utf8(bytes).unwrap();
    assert_eq!(text, "<?xml version='1.0'?><msg>hi</msg>");
    let path = PathExpression::root().pushed_field("msg").pushed_field("#text");
    let group = rules.resolve_matchers(&path).expect("the text rule must sit at #text");
    assert!(matches!(&group[0].0, MatchingRule::Regex(r) if r == "^h"));
}

#[test]
fn attribute_matchers_record_rules_at_attribute_paths() {
    let (bytes, rules, gens) = synthesize(
        r#"{"root":{"name":"u","attributes":{"id":{
            "pact:matcher:type":"integer",
            "pact:generator:type":"RandomInt",
            "min":1, "max":9,
            "value":"5"
        }}}}"#,
    );
    let text = String::from_utf8(bytes).unwrap();
    assert_eq!(text, "<?xml version='1.0'?><u id='5'/>");
    let path = PathExpression::root().pushed_field("u").pushed_field("@id");
    let group = rules.resolve_matchers(&path).expect("the rule must sit at $.u['@id']");
    assert!(matches!(group[0].0, MatchingRule::Integer));
    assert_eq!(gens.entries.len(), 1);
    assert!(matches!(
        gens.entries[0].2,
        pact_engine::generators::Generator::RandomInt(1, 9)
    ));
}

#[test]
fn malformed_trees_are_rejected_outright() {
    let doc = parse_json(r#"{"root":{"name":"a","children":{"not":"an array"}}}"#).unwrap();
    let mut rules = MatchingRuleCategory::empty(Category::Body);
    let mut gens = Generators::empty();
    assert!(matches!(
        generate_xml_body(&doc, &mut rules, &mut gens),
        Err(XmlBodyError::ChildrenNotArray)
    ));
    assert!(rules.is_empty());

    let doc = parse_json(r#"{"root":{"name":"a","children":[1]}}"#).unwrap();
    assert!(matches!(
        generate_xml_body(&doc, &mut rules, &mut gens),
        Err(XmlBodyError::ChildNotObject)
    ));

    let doc = parse_json(r#"{"root":{"pact:matcher:type":"type"}}"#).unwrap();
    assert!(matches!(
        generate_xml_body(&doc, &mut rules, &mut gens),
        Err(XmlBodyError::ValueMissing)
    ));

    let doc = parse_json(r#"{"root":{"pact:matcher:type":"type","value":3}}"#).unwrap();
    assert!(matches!(
        generate_xml_body(&doc, &mut rules, &mut gens),
        Err(XmlBodyError::ValueNotObject)
    ));

    let doc = parse_json(r#"{"root":{"nothing":"usable"}}"#).unwrap();
    assert!(matches!(
        generate_xml_body(&doc, &mut rules, &mut gens),
        Err(XmlBodyError::InvalidNode)
    ));
}

#[test]
fn a_tree_without_a_usable_root_yields_an_empty_document() {
    let (bytes, rules, _gens) = synthesize(r#"{"root":"not an object"}"#);
    let text = String::from_utf8(bytes).unwrap();
    assert_eq!(text, "<?xml version='1.0'?>");
    assert!(rules.is_empty());

    let (bytes, _rules, _gens) = synthesize(r#"{}"#);
    assert_eq!(String::from_utf8(bytes).unwrap(), "<?xml version='1.0'?>");
}

#[test]
fn duplicate_element_copies_the_whole_tree() {
    let el = XmlElement {
        name: "a".to_owned(),
        attributes: vec![("k".to_owned(), "v".to_owned())],
        children: vec![XmlNode::Text("t".to_owned())],
    };
    let copy = duplicate_element(&el);
    assert_eq!(copy.name, "a");
    assert_eq!(copy.attributes.len(), 1);
    assert!(matches!(&copy.children[0], XmlNode::Text(t) if t == "t"));
}
