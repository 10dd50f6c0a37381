//! JSON patterns: values that can emit a concrete example, emit it as
//! bytes, and extract the matching rules they imply into a category rooted
//! at a given path.

use vstd::prelude::*;
use vstd::string::StrSliceExecFns;
use vstd::utf8::encode_utf8;
use crate::json::{jdata_of, JsonData, JsonValue};
use crate::json_codec::{json_text, json_text_of, serde_canon};
use crate::matching_rules::{add_rule_data, MatchingRule, MatchingRuleCategory, RuleData, RuleLogic};
use crate::path_exp::{PathExpression, TokenData};
use crate::xml::{apply_rule_adds, rule_pairs_data, RuleAdds};

verus! {

/// A capability: something that can emit a concrete example value, emit
/// that example serialized to bytes, and extract its matching rules into a
/// category rooted at a given path.
pub trait Pattern {
    /// The example value this pattern stands for, match rules stripped.
    spec fn example_data(&self) -> JsonData;

    /// The rules this pattern records under a base path, in order.
    spec fn pattern_rules(&self, path: Seq<TokenData>) -> RuleAdds;

    /// Emits the concrete example value, stripping out any match rules.
    fn to_example(&self) -> (r: JsonValue)
        ensures
            r@ == self.example_data(),
    ;

    /// Emits the example serialized to bytes.
    fn to_example_bytes(&self) -> (r: Vec<u8>)
        ensures
            r@ == encode_utf8(json_text_of(serde_canon(self.example_data()))),
    ;

    /// Extracts this pattern's matching rules into `rules_out`, rooted at
    /// `path`.
    fn extract_matching_rules(
        &self,
        path: &PathExpression,
        rules_out: &mut MatchingRuleCategory,
    )
        ensures
            final(rules_out).name == old(rules_out).name,
            final(rules_out)@ == apply_rule_adds(old(rules_out)@, self.pattern_rules(path@)),
    ;
}

/// A pattern over JSON documents: a literal, a type-alike, a regular
/// expression term, or a composite of nested patterns.
#[derive(Debug)]
pub enum JsonPattern {
    /// A literal value, matched by equality.
    Literal(JsonValue),
    /// Anything with the example's type.
    Like(Box<JsonPattern>),
    /// A string matching the regular expression, with a concrete example.
    Term(String, String),
    /// An array of nested patterns.
    Array(Vec<JsonPattern>),
    /// An object of nested patterns.
    Object(Vec<(String, JsonPattern)>),
}

/// The example a JSON pattern emits.
pub open spec fn jp_example(p: JsonPattern) -> JsonData
    decreases p,
{
    match p {
        JsonPattern::Literal(v) => jdata_of(v),
        JsonPattern::Like(inner) => jp_example(*inner),
        JsonPattern::Term(_, example) => JsonData::Str(example@),
        JsonPattern::Array(items) => JsonData::Arr(
            Seq::new(
                items@.len(),
                |i: int|
                    if 0 <= i < items@.len() {
                        jp_example(items@[i])
                    } else {
                        JsonData::Null
                    },
            ),
        ),
        JsonPattern::Object(es) => JsonData::Obj(
            Seq::new(
                es@.len(),
                |i: int|
                    if 0 <= i < es@.len() {
                        (es@[i].0@, jp_example(es@[i].1))
                    } else {
                        (Seq::<char>::empty(), JsonData::Null)
                    },
            ),
        ),
    }
}

/// The rules a JSON pattern records under a base path: a type rule for a
/// like, a regex rule for a term, and the children's rules below the
/// matching segment.
pub open spec fn jp_rules(p: JsonPattern, path: Seq<TokenData>) -> RuleAdds
    decreases p, 0int, 0int,
{
    match p {
        JsonPattern::Literal(_) => Seq::empty(),
        JsonPattern::Like(inner) => seq![(path, RuleData::Type)] + jp_rules(*inner, path),
        JsonPattern::Term(regex, _) => seq![(path, RuleData::Regex(regex@))],
        JsonPattern::Array(items) => jp_rules_arr(items@, path, 0),
        JsonPattern::Object(es) => jp_rules_obj(es@, path, 0),
    }
}

/// The rules an array of patterns records, scanning from `i`.
pub open spec fn jp_rules_arr(items: Seq<JsonPattern>, path: Seq<TokenData>, i: int) -> RuleAdds
    decreases items, 1int, items.len() - i,
{
    if i < 0 || i >= items.len() {
        Seq::empty()
    } else {
        jp_rules(items[i], path.push(TokenData::Index(i as usize))) + jp_rules_arr(
            items,
            path,
            i + 1,
        )
    }
}

/// The rules an object of patterns records, scanning from `i`.
pub open spec fn jp_rules_obj(
    es: Seq<(String, JsonPattern)>,
    path: Seq<TokenData>,
    i: int,
) -> RuleAdds
    decreases es, 1int, es.len() - i,
{
    if i < 0 || i >= es.len() {
        Seq::empty()
    } else {
        jp_rules(es[i].1, path.push(TokenData::Field(es[i].0@))) + jp_rules_obj(es, path, i + 1)
    }
}

impl JsonPattern {
    /// Collects this pattern's rules with their paths, in recording order.
    fn collect_rules(&self, path: &PathExpression) -> (r: Vec<(PathExpression, MatchingRule)>)
        ensures
            rule_pairs_data(r@) == jp_rules(*self, path@),
        decreases *self, 0int, 0int,
    {
        match self {
            JsonPattern::Literal(_) => {
                let r: Vec<(PathExpression, MatchingRule)> = Vec::new();
                proof {
                    assert(rule_pairs_data(r@) =~= jp_rules(*self, path@));
                }
                r
            },
            JsonPattern::Like(inner) => {
                let mut r: Vec<(PathExpression, MatchingRule)> = Vec::new();
                r.push((path.clone(), MatchingRule::Type));
                let mut rest = (&**inner).collect_rules(path);
                r.append(&mut rest);
                proof {
                    assert(rule_pairs_data(r@) =~= jp_rules(*self, path@));
                }
                r
            },
            JsonPattern::Term(regex, _) => {
                let mut r: Vec<(PathExpression, MatchingRule)> = Vec::new();
                r.push((path.clone(), MatchingRule::Regex(regex.clone())));
                proof {
                    assert(rule_pairs_data(r@) =~= jp_rules(*self, path@));
                }
                r
            },
            JsonPattern::Array(items) => self.collect_rules_arr(items, path, 0),
            JsonPattern::Object(es) => self.collect_rules_obj(es, path, 0),
        }
    }

    /// Collects the rules of array elements from `i` on.
    fn collect_rules_arr(
        &self,
        items: &Vec<JsonPattern>,
        path: &PathExpression,
        i: usize,
    ) -> (r: Vec<(PathExpression, MatchingRule)>)
        requires
            *self == JsonPattern::Array(*items),
            i <= items@.len(),
        ensures
            rule_pairs_data(r@) == jp_rules_arr(items@, path@, i as int),
        decreases *items, 1int, items@.len() - i,
    {
        if i == items.len() {
            let r: Vec<(PathExpression, MatchingRule)> = Vec::new();
            proof {
                assert(rule_pairs_data(r@) =~= jp_rules_arr(items@, path@, i as int));
            }
            return r;
        }
        proof {
            assert(decreases_to!(*items => items@[i as int]));
        }
        let sub_path = path.pushed_index(i);
        let mut head = (&items[i]).collect_rules(&sub_path);
        let mut rest = self.collect_rules_arr(items, path, i + 1);
        head.append(&mut rest);
        proof {
            assert(sub_path@ =~= path@.push(TokenData::Index(i as usize)));
            assert(rule_pairs_data(head@) =~= jp_rules_arr(items@, path@, i as int));
        }
        head
    }

    /// Collects the rules of object fields from `i` on.
    fn collect_rules_obj(
        &self,
        es: &Vec<(String, JsonPattern)>,
        path: &PathExpression,
        i: usize,
    ) -> (r: Vec<(PathExpression, MatchingRule)>)
        requires
            *self == JsonPattern::Object(*es),
            i <= es@.len(),
        ensures
            rule_pairs_data(r@) == jp_rules_obj(es@, path@, i as int),
        decreases *es, 1int, es@.len() - i,
    {
        if i == es.len() {
            let r: Vec<(PathExpression, MatchingRule)> = Vec::new();
            proof {
                assert(rule_pairs_data(r@) =~= jp_rules_obj(es@, path@, i as int));
            }
            return r;
        }
        proof {
            assert(decreases_to!(*es => es@[i as int]));
            assert(decreases_to!(es@[i as int] => es@[i as int].1));
        }
        let entry = &es[i];
        let sub_path = path.pushed_field(entry.0.as_str());
        let mut head = (&entry.1).collect_rules(&sub_path);
        let mut rest = self.collect_rules_obj(es, path, i + 1);
        head.append(&mut rest);
        proof {
            assert(sub_path@ =~= path@.push(TokenData::Field(es@[i as int].0@)));
            assert(rule_pairs_data(head@) =~= jp_rules_obj(es@, path@, i as int));
        }
        head
    }
}

impl Pattern for JsonPattern {
    open spec fn example_data(&self) -> JsonData {
        jp_example(*self)
    }

    open spec fn pattern_rules(&self, path: Seq<TokenData>) -> RuleAdds {
        jp_rules(*self, path)
    }

    fn to_example(&self) -> (r: JsonValue)
        decreases *self,
    {
        match self {
            JsonPattern::Literal(v) => v.clone(),
            JsonPattern::Like(inner) => (&**inner).to_example(),
            JsonPattern::Term(_, example) => JsonValue::Str(example.clone()),
            JsonPattern::Array(items) => {
                let mut out: Vec<JsonValue> = Vec::new();
                let mut i: usize = 0;
                while i < items.len()
                    invariant
                        *self == JsonPattern::Array(*items),
                        i <= items@.len(),
                        out@.len() == i,
                        forall|j: int| 0 <= j < i ==> jdata_of(out@[j]) == jp_example(items@[j]),
                    decreases items@.len() - i,
                {
                    proof {
                        assert((*self)->Array_0 == *items);
                        assert(decreases_to!(*self => (*self)->Array_0));
                        assert(decreases_to!(*items => items@[i as int]));
                    }
                    out.push((&items[i]).to_example());
                    i = i + 1;
                }
                let r = JsonValue::Arr(out);
                proof {
                    assert(r@->Arr_0 =~= jp_example(*self)->Arr_0);
                }
                r
            },
            JsonPattern::Object(es) => {
                let mut out: Vec<(String, JsonValue)> = Vec::new();
                let mut i: usize = 0;
                while i < es.len()
                    invariant
                        *self == JsonPattern::Object(*es),
                        i <= es@.len(),
                        out@.len() == i,
                        forall|j: int|
                            0 <= j < i ==> out@[j].0@ == es@[j].0@ && jdata_of(out@[j].1)
                                == jp_example(es@[j].1),
                    decreases es@.len() - i,
                {
                    proof {
                        assert((*self)->Object_0 == *es);
                        assert(decreases_to!(*self => (*self)->Object_0));
                        assert(decreases_to!(*es => es@[i as int]));
                        assert(decreases_to!(es@[i as int] => es@[i as int].1));
                    }
                    let entry = &es[i];
                    out.push((entry.0.clone(), (&entry.1).to_example()));
                    i = i + 1;
                }
                let r = JsonValue::Obj(out);
                proof {
                    assert(r@->Obj_0 =~= jp_example(*self)->Obj_0);
                }
                r
            },
        }
    }

    fn to_example_bytes(&self) -> (r: Vec<u8>) {
        let example = self.to_example();
        let text = json_text(&example);
        text.as_str().as_bytes_vec()
    }

    fn extract_matching_rules(
        &self,
        path: &PathExpression,
        rules_out: &mut MatchingRuleCategory,
    ) {
        let ghost radds = self.pattern_rules(path@);
        let mut pairs = self.collect_rules(path);
        while pairs.len() > 0
            invariant
                rules_out.name == old(rules_out).name,
                apply_rule_adds(old(rules_out)@, radds) == apply_rule_adds(
                    rules_out@,
                    rule_pairs_data(pairs@),
                ),
            decreases pairs@.len(),
        {
            let ghost pre = pairs@;
            let pair = pairs.remove(0);
            rules_out.add_rule(&pair.0, pair.1, RuleLogic::And);
            proof {
                assert(rule_pairs_data(pairs@) =~= rule_pairs_data(pre).drop_first());
            }
        }
        proof {
            assert(rule_pairs_data(pairs@) =~= Seq::<(Seq<TokenData>, RuleData)>::empty());
        }
    }
}

/// Law (the structural half of the example round trip): the example a
/// pattern emits is its matching-rule-free structure. Wrapping a pattern in
/// a type-alike, or changing which regular expression a term matches with,
/// changes the rules it records but never the example it emits. The
/// serialize-and-reparse half of the round trip goes through the JSON codec,
/// whose parse and print the library only names, so it is exercised by tests
/// rather than proved.
pub proof fn lemma_example_free_of_match_rules(p: JsonPattern, q: JsonPattern)
    ensures
        p matches JsonPattern::Like(inner) ==> jp_example(p) == jp_example(*inner),
        (p matches JsonPattern::Term(r1, ex1) && q matches JsonPattern::Term(r2, ex2) && ex1@
            == ex2@) ==> jp_example(p) == jp_example(q),
{
}

/// A pattern over plain strings: a concrete example, optionally matched by
/// a regular expression instead of equality.
#[derive(Debug)]
pub struct StringPattern {
    /// The concrete example value.
    pub example: String,
    /// The regular expression actual values must match, when given.
    pub regex: Option<String>,
}

impl Pattern for StringPattern {
    open spec fn example_data(&self) -> JsonData {
        JsonData::Str(self.example@)
    }

    open spec fn pattern_rules(&self, path: Seq<TokenData>) -> RuleAdds {
        match self.regex {
            Some(r) => seq![(path, RuleData::Regex(r@))],
            None => Seq::empty(),
        }
    }

    fn to_example(&self) -> (r: JsonValue) {
        JsonValue::Str(self.example.clone())
    }

    fn to_example_bytes(&self) -> (r: Vec<u8>) {
        let example = self.to_example();
        let text = json_text(&example);
        text.as_str().as_bytes_vec()
    }

    fn extract_matching_rules(
        &self,
        path: &PathExpression,
        rules_out: &mut MatchingRuleCategory,
    ) {
        match &self.regex {
            Some(r) => {
                rules_out.add_rule(path, MatchingRule::Regex(r.clone()), RuleLogic::And);
                proof {
                    let adds = self.pattern_rules(path@);
                    assert(adds == seq![(path@, RuleData::Regex(r@))]);
                    assert(adds[0] == (path@, RuleData::Regex(r@)));
                    assert(adds.drop_first().len() == 0);
                    let x = add_rule_data(
                        old(rules_out)@,
                        path@,
                        (RuleData::Regex(r@), RuleLogic::And),
                    );
                    assert(apply_rule_adds(x, adds.drop_first()) == x);
                }
            },
            None => (),
        }
    }
}

} // verus!
