//! The matching-rule engine: whether one rule, or a group of rules under
//! AND/OR logic, accepts an actual value against an expected one, and the
//! walk that decides, path by path inside a body, whether an actual tree
//! satisfies an expected one under a rule category.

use vstd::prelude::*;
use crate::json::{json_eq, key_idx, key_idx_from, jdata_of, JsonData, JsonNum, JsonValue, NumData};
use crate::json_codec::{json_string_data, json_to_string};
use crate::matching_rules::{
    resolve_data,
    rules_data,
    EntryData,
    MatchingRule,
    MatchingRuleCategory,
    RuleData,
    RuleLogic,
};
use crate::models::HttpStatus;
use crate::path_exp::{PathExpression, TokenData};
use crate::provider_states::params_equiv;
use crate::strings::{contains_seq, str_contains, str_eq};

verus! {

#[verifier::external_type_specification]
#[verifier::external_body]
pub struct ExRegex(regex::Regex);

/// Whether a pattern is a valid regular expression.
pub uninterp spec fn regex_ok_of(pattern: Seq<char>) -> bool;

/// The pattern a compiled regular expression was built from.
pub uninterp spec fn regex_pattern_of(re: regex::Regex) -> Seq<char>;

/// Whether a pattern finds a match in a text; a function of both alone.
pub uninterp spec fn regex_match_of(pattern: Seq<char>, text: Seq<char>) -> bool;

/// Relies on regex::Regex::new: compiles the pattern, deterministic in it;
/// `Err` exactly on an invalid pattern.
#[verifier::external_body]
fn regex_compile(pattern: &str) -> (r: Option<regex::Regex>)
    ensures
        r is Some <==> regex_ok_of(pattern@),
        r matches Some(re) ==> regex_pattern_of(re) == pattern@,
{
    regex::Regex::new(pattern).ok()
}

/// Relies on regex::Regex::is_match: deterministic in the pattern and the
/// text.
#[verifier::external_body]
fn regex_is_match(re: &regex::Regex, text: &str) -> (r: bool)
    ensures
        r == regex_match_of(regex_pattern_of(*re), text@),
{
    re.is_match(text)
}

/// Matches a text against a pattern; an invalid pattern matches nothing.
pub fn regex_matches(pattern: &str, text: &str) -> (r: bool)
    ensures
        r == (regex_ok_of(pattern@) && regex_match_of(pattern@, text@)),
{
    match regex_compile(pattern) {
        Some(re) => regex_is_match(&re, text),
        None => false,
    }
}

/// The kind of a JSON value, for type matching.
pub open spec fn json_kind(d: JsonData) -> int {
    match d {
        JsonData::Null => 0,
        JsonData::Bool(_) => 1,
        JsonData::Num(_) => 2,
        JsonData::Str(_) => 3,
        JsonData::Arr(_) => 4,
        JsonData::Obj(_) => 5,
    }
}

/// The kind of a JSON value.
fn json_kind_exec(v: &JsonValue) -> (r: u8)
    ensures
        r as int == json_kind(v@),
{
    match v {
        JsonValue::Null => 0,
        JsonValue::Bool(_) => 1,
        JsonValue::Num(_) => 2,
        JsonValue::Str(_) => 3,
        JsonValue::Arr(_) => 4,
        JsonValue::Obj(_) => 5,
    }
}

/// Does every rule of the run accept the value, scanning from `j`?
pub open spec fn all_rules_allow(rs: Seq<RuleData>, expected: JsonData, v: JsonData, j: int) -> bool
    decreases rs, 0int, rs.len() - j,
{
    if j < 0 || j >= rs.len() {
        true
    } else {
        rule_allows(rs[j], expected, v) && all_rules_allow(rs, expected, v, j + 1)
    }
}

/// Does every key of the object satisfy every nested rule, scanning from `i`?
pub open spec fn each_key_allows(
    rs: Seq<RuleData>,
    expected: JsonData,
    es: Seq<(Seq<char>, JsonData)>,
    i: int,
) -> bool
    decreases rs, 1int, es.len() - i,
{
    if i < 0 || i >= es.len() {
        true
    } else {
        all_rules_allow(rs, expected, JsonData::Str(es[i].0), 0) && each_key_allows(
            rs,
            expected,
            es,
            i + 1,
        )
    }
}

/// Does every value of the object satisfy every nested rule, scanning from
/// `i`?
pub open spec fn each_value_allows(
    rs: Seq<RuleData>,
    expected: JsonData,
    es: Seq<(Seq<char>, JsonData)>,
    i: int,
) -> bool
    decreases rs, 1int, es.len() - i,
{
    if i < 0 || i >= es.len() {
        true
    } else {
        all_rules_allow(rs, expected, es[i].1, 0) && each_value_allows(rs, expected, es, i + 1)
    }
}

/// Does a single rule accept the actual value against the expected one?
/// Date, time and timestamp rules accept any string here: their format
/// vocabulary is validated at pattern-build time, not at match time.
pub open spec fn rule_allows(rule: RuleData, expected: JsonData, actual: JsonData) -> bool
    decreases rule, 0int, 0int,
{
    match rule {
        RuleData::Equality => actual == expected,
        RuleData::Regex(p) => regex_ok_of(p) && regex_match_of(p, json_string_data(actual)),
        RuleData::Type => json_kind(actual) == json_kind(expected),
        RuleData::MinType(n) => json_kind(actual) == json_kind(expected) && (actual matches
            JsonData::Arr(items) ==> items.len() >= n),
        RuleData::MaxType(n) => json_kind(actual) == json_kind(expected) && (actual matches
            JsonData::Arr(items) ==> items.len() <= n),
        RuleData::Include(s) => contains_seq(json_string_data(actual), s),
        RuleData::Integer => actual matches JsonData::Num(NumData::U(_)) || actual matches
            JsonData::Num(NumData::I(_)),
        RuleData::Decimal => actual matches JsonData::Num(NumData::Dec(_)),
        RuleData::Number => actual is Num,
        RuleData::Boolean => actual is Bool || (actual matches JsonData::Str(s) && (s == "true"@
            || s == "false"@)),
        RuleData::Date(_) => actual is Str,
        RuleData::Time(_) => actual is Str,
        RuleData::Timestamp(_) => actual is Str,
        RuleData::ContentType(_) => actual is Str,
        RuleData::NullValue => actual is Null,
        RuleData::StatusCode(st) => actual matches JsonData::Num(NumData::U(u)) && u <= 65535
            && HttpStatus::spec_matches_status(st, u as u16),
        RuleData::EachKey(rs) => actual matches JsonData::Obj(es) && each_key_allows(
            rs,
            expected,
            es,
            0,
        ),
        RuleData::EachValue(rs) => actual matches JsonData::Obj(es) && each_value_allows(
            rs,
            expected,
            es,
            0,
        ),
        RuleData::Values => expected matches JsonData::Obj(ee) && actual matches JsonData::Obj(ae)
            && params_equiv(ee, ae),
    }
}

/// A rule group's joint outcome: every AND rule must pass, and where OR rules
/// exist, at least one of them.
pub open spec fn rules_allow(
    rules: Seq<(RuleData, RuleLogic)>,
    expected: JsonData,
    actual: JsonData,
) -> bool {
    (forall|i: int|
        0 <= i < rules.len() && rules[i].1 == RuleLogic::And ==> rule_allows(
            rules[i].0,
            expected,
            actual,
        )) && ((forall|i: int| 0 <= i < rules.len() ==> rules[i].1 != RuleLogic::Or) || (
    exists|i: int|
        0 <= i < rules.len() && rules[i].1 == RuleLogic::Or && rule_allows(
            rules[i].0,
            expected,
            actual,
        )))
}

/// Applies one rule to an actual value against an expected one.
pub fn rule_matches(rule: &MatchingRule, expected: &JsonValue, actual: &JsonValue) -> (r: bool)
    ensures
        r == rule_allows(rule@, expected@, actual@),
    decreases *rule,
{
    match rule {
        MatchingRule::Equality => json_eq(actual, expected),
        MatchingRule::Regex(p) => {
            let text = json_to_string(actual);
            regex_matches(p.as_str(), text.as_str())
        },
        MatchingRule::Type => json_kind_exec(actual) == json_kind_exec(expected),
        MatchingRule::MinType(n) => {
            let kinds = json_kind_exec(actual) == json_kind_exec(expected);
            match actual {
                JsonValue::Arr(items) => kinds && items.len() as u64 >= *n,
                _ => kinds,
            }
        },
        MatchingRule::MaxType(n) => {
            let kinds = json_kind_exec(actual) == json_kind_exec(expected);
            match actual {
                JsonValue::Arr(items) => kinds && items.len() as u64 <= *n,
                _ => kinds,
            }
        },
        MatchingRule::Include(s) => {
            let text = json_to_string(actual);
            str_contains(text.as_str(), s.as_str())
        },
        MatchingRule::Integer => match actual {
            JsonValue::Num(JsonNum::U(_)) => true,
            JsonValue::Num(JsonNum::I(_)) => true,
            _ => false,
        },
        MatchingRule::Decimal => match actual {
            JsonValue::Num(JsonNum::Dec(_)) => true,
            _ => false,
        },
        MatchingRule::Number => match actual {
            JsonValue::Num(_) => true,
            _ => false,
        },
        MatchingRule::Boolean => match actual {
            JsonValue::Bool(_) => true,
            JsonValue::Str(s) => str_eq(s.as_str(), "true") || str_eq(s.as_str(), "false"),
            _ => false,
        },
        MatchingRule::Date(_) => match actual {
            JsonValue::Str(_) => true,
            _ => false,
        },
        MatchingRule::Time(_) => match actual {
            JsonValue::Str(_) => true,
            _ => false,
        },
        MatchingRule::Timestamp(_) => match actual {
            JsonValue::Str(_) => true,
            _ => false,
        },
        MatchingRule::ContentType(_) => match actual {
            JsonValue::Str(_) => true,
            _ => false,
        },
        MatchingRule::NullValue => match actual {
            JsonValue::Null => true,
            _ => false,
        },
        MatchingRule::StatusCode(st) => match actual {
            JsonValue::Num(JsonNum::U(u)) => *u <= 65535 && st.matches_status(*u as u16),
            _ => false,
        },
        MatchingRule::EachKey(rs) => match actual {
            JsonValue::Obj(es) => {
                let ghost esd = actual@->Obj_0;
                let ghost rsd = rule@->EachKey_0;
                let mut i: usize = 0;
                while i < es.len()
                    invariant
                        *rule == MatchingRule::EachKey(*rs),
                        *actual == JsonValue::Obj(*es),
                        esd == actual@->Obj_0,
                        rsd == rule@->EachKey_0,
                        esd.len() == es@.len(),
                        rsd.len() == rs@.len(),
                        i <= es@.len(),
                        each_key_allows(rsd, expected@, esd, 0) == each_key_allows(
                            rsd,
                            expected@,
                            esd,
                            i as int,
                        ),
                    decreases es@.len() - i,
                {
                    let keyval = JsonValue::Str(es[i].0.clone());
                    proof {
                        assert(esd[i as int].0 == es@[i as int].0@);
                    }
                    let mut j: usize = 0;
                    while j < rs.len()
                        invariant
                            *rule == MatchingRule::EachKey(*rs),
                            *actual == JsonValue::Obj(*es),
                            esd == actual@->Obj_0,
                            rsd == rule@->EachKey_0,
                            esd.len() == es@.len(),
                            rsd.len() == rs@.len(),
                            i < es@.len(),
                            keyval@ == JsonData::Str(esd[i as int].0),
                            j <= rs@.len(),
                            each_key_allows(rsd, expected@, esd, 0) == each_key_allows(
                                rsd,
                                expected@,
                                esd,
                                i as int,
                            ),
                            all_rules_allow(rsd, expected@, JsonData::Str(esd[i as int].0), 0)
                                == all_rules_allow(
                                rsd,
                                expected@,
                                JsonData::Str(esd[i as int].0),
                                j as int,
                            ),
                        decreases rs@.len() - j,
                    {
                        proof {
                            assert(decreases_to!(*rule => *rs));
                            assert(decreases_to!(*rs => rs@[j as int]));
                            assert(rsd[j as int] == crate::matching_rules::rule_data(
                                rs@[j as int],
                            ));
                        }
                        if !rule_matches(&rs[j], expected, &keyval) {
                            proof {
                                assert(!all_rules_allow(
                                    rsd,
                                    expected@,
                                    JsonData::Str(esd[i as int].0),
                                    0,
                                ));
                                assert(!each_key_allows(rsd, expected@, esd, i as int));
                            }
                            return false;
                        }
                        j = j + 1;
                    }
                    proof {
                        assert(each_key_allows(rsd, expected@, esd, i as int) == each_key_allows(
                            rsd,
                            expected@,
                            esd,
                            i as int + 1,
                        ));
                    }
                    i = i + 1;
                }
                true
            },
            _ => false,
        },
        MatchingRule::EachValue(rs) => match actual {
            JsonValue::Obj(es) => {
                let ghost esd = actual@->Obj_0;
                let ghost rsd = rule@->EachValue_0;
                let mut i: usize = 0;
                while i < es.len()
                    invariant
                        *rule == MatchingRule::EachValue(*rs),
                        *actual == JsonValue::Obj(*es),
                        esd == actual@->Obj_0,
                        rsd == rule@->EachValue_0,
                        esd.len() == es@.len(),
                        rsd.len() == rs@.len(),
                        i <= es@.len(),
                        each_value_allows(rsd, expected@, esd, 0) == each_value_allows(
                            rsd,
                            expected@,
                            esd,
                            i as int,
                        ),
                    decreases es@.len() - i,
                {
                    proof {
                        assert(esd[i as int].1 == crate::json::jdata_of(es@[i as int].1));
                    }
                    let mut j: usize = 0;
                    while j < rs.len()
                        invariant
                            *rule == MatchingRule::EachValue(*rs),
                            *actual == JsonValue::Obj(*es),
                            esd == actual@->Obj_0,
                            rsd == rule@->EachValue_0,
                            esd.len() == es@.len(),
                            rsd.len() == rs@.len(),
                            i < es@.len(),
                            esd[i as int].1 == crate::json::jdata_of(es@[i as int].1),
                            j <= rs@.len(),
                            each_value_allows(rsd, expected@, esd, 0) == each_value_allows(
                                rsd,
                                expected@,
                                esd,
                                i as int,
                            ),
                            all_rules_allow(rsd, expected@, esd[i as int].1, 0)
                                == all_rules_allow(rsd, expected@, esd[i as int].1, j as int),
                        decreases rs@.len() - j,
                    {
                        proof {
                            assert(decreases_to!(*rule => *rs));
                            assert(decreases_to!(*rs => rs@[j as int]));
                            assert(rsd[j as int] == crate::matching_rules::rule_data(
                                rs@[j as int],
                            ));
                        }
                        if !rule_matches(&rs[j], expected, &es[i].1) {
                            proof {
                                assert(!all_rules_allow(rsd, expected@, esd[i as int].1, 0));
                                assert(!each_value_allows(rsd, expected@, esd, i as int));
                            }
                            return false;
                        }
                        j = j + 1;
                    }
                    proof {
                        assert(each_value_allows(rsd, expected@, esd, i as int)
                            == each_value_allows(rsd, expected@, esd, i as int + 1));
                    }
                    i = i + 1;
                }
                true
            },
            _ => false,
        },
        MatchingRule::Values => match (expected, actual) {
            (JsonValue::Obj(ee), JsonValue::Obj(ae)) => {
                proof {
                    assert(crate::json::obj_entries_data(ee@) =~= expected@->Obj_0);
                    assert(crate::json::obj_entries_data(ae@) =~= actual@->Obj_0);
                }
                let fwd = crate::provider_states::submap_exec(ee, ae);
                let bwd = crate::provider_states::submap_exec(ae, ee);
                ee.len() == ae.len() && fwd && bwd
            },
            _ => false,
        },
    }
}

/// Applies a rule group under its AND/OR logic.
pub fn rules_match(
    rules: &Vec<(MatchingRule, RuleLogic)>,
    expected: &JsonValue,
    actual: &JsonValue,
) -> (r: bool)
    ensures
        r == rules_allow(crate::matching_rules::rules_data(rules@), expected@, actual@),
{
    let ghost rsd = crate::matching_rules::rules_data(rules@);
    let mut all_and = true;
    let mut has_or = false;
    let mut any_or = false;
    let mut i: usize = 0;
    while i < rules.len()
        invariant
            rsd == crate::matching_rules::rules_data(rules@),
            rsd.len() == rules@.len(),
            i <= rules@.len(),
            all_and == (forall|j: int|
                0 <= j < i && rsd[j].1 == RuleLogic::And ==> rule_allows(
                    rsd[j].0,
                    expected@,
                    actual@,
                )),
            has_or == (exists|j: int| 0 <= j < i && rsd[j].1 == RuleLogic::Or),
            any_or == (exists|j: int|
                0 <= j < i && rsd[j].1 == RuleLogic::Or && rule_allows(
                    rsd[j].0,
                    expected@,
                    actual@,
                )),
        decreases rules@.len() - i,
    {
        proof {
            assert(rsd[i as int] == (
                crate::matching_rules::rule_data(rules@[i as int].0),
                rules@[i as int].1,
            ));
        }
        let entry = &rules[i];
        let passes = rule_matches(&entry.0, expected, actual);
        match entry.1 {
            RuleLogic::And => {
                if !passes {
                    all_and = false;
                }
            },
            RuleLogic::Or => {
                has_or = true;
                if passes {
                    any_or = true;
                }
            },
        }
        i = i + 1;
    }
    all_and && (!has_or || any_or)
}


/// Does the actual body tree satisfy the expected one under the category's
/// rules? At each path the exact rule group decides first, then a wildcard
/// group covering the path; without rules, plain equality guides the walk:
/// scalars must be equal, arrays compare element by element, and objects
/// must bind the same keys to matching values.
pub open spec fn tree_matches(
    es: Seq<EntryData>,
    path: Seq<TokenData>,
    expected: JsonData,
    actual: JsonData,
) -> bool
    decreases expected, 0int, 0int,
{
    match resolve_data(es, path) {
        Some(rs) => rules_allow(rs, expected, actual),
        None => match expected {
            JsonData::Arr(ee) => actual matches JsonData::Arr(ae) && ee.len() == ae.len()
                && arr_items_match(es, path, ee, ae, 0),
            JsonData::Obj(ee) => actual matches JsonData::Obj(ae) && ee.len() == ae.len()
                && obj_entries_match(es, path, ee, ae, 0) && obj_keys_covered(ee, ae, 0),
            _ => actual == expected,
        },
    }
}

/// Do the array elements match pairwise below their indices, from `i` on?
pub open spec fn arr_items_match(
    es: Seq<EntryData>,
    path: Seq<TokenData>,
    ee: Seq<JsonData>,
    ae: Seq<JsonData>,
    i: int,
) -> bool
    decreases ee, 1int, ee.len() - i,
{
    if i < 0 || i >= ee.len() || ee.len() != ae.len() {
        true
    } else {
        tree_matches(es, path.push(TokenData::Index(i as usize)), ee[i], ae[i])
            && arr_items_match(es, path, ee, ae, i + 1)
    }
}

/// Is each expected entry, from `i` on, bound in the actual object to a
/// matching value below its field segment?
pub open spec fn obj_entries_match(
    es: Seq<EntryData>,
    path: Seq<TokenData>,
    ee: Seq<(Seq<char>, JsonData)>,
    ae: Seq<(Seq<char>, JsonData)>,
    i: int,
) -> bool
    decreases ee, 1int, ee.len() - i,
{
    if i < 0 || i >= ee.len() {
        true
    } else {
        ({
            let j = key_idx(ae, ee[i].0);
            0 <= j < ae.len() && tree_matches(
                es,
                path.push(TokenData::Field(ee[i].0)),
                ee[i].1,
                ae[j].1,
            )
        }) && obj_entries_match(es, path, ee, ae, i + 1)
    }
}

/// Does every actual key, from `i` on, occur among the expected keys?
pub open spec fn obj_keys_covered(
    ee: Seq<(Seq<char>, JsonData)>,
    ae: Seq<(Seq<char>, JsonData)>,
    i: int,
) -> bool
    decreases ae.len() - i,
{
    if i < 0 || i >= ae.len() {
        true
    } else {
        key_idx(ee, ae[i].0) >= 0 && obj_keys_covered(ee, ae, i + 1)
    }
}

/// The index of the first actual entry bound to `key`; `None` when absent.
fn find_key(entries: &Vec<(String, JsonValue)>, key: &str) -> (r: Option<usize>)
    ensures
        match r {
            Some(j) => key_idx(crate::json::obj_entries_data(entries@), key@) == j as int && j
                < entries@.len(),
            None => key_idx(crate::json::obj_entries_data(entries@), key@) < 0,
        },
{
    let ghost data = crate::json::obj_entries_data(entries@);
    let mut j: usize = 0;
    while j < entries.len()
        invariant
            data == crate::json::obj_entries_data(entries@),
            data.len() == entries@.len(),
            j <= entries@.len(),
            key_idx_from(data, key@, 0) == key_idx_from(data, key@, j as int),
        decreases entries@.len() - j,
    {
        if str_eq(entries[j].0.as_str(), key) {
            return Some(j);
        }
        j = j + 1;
    }
    None
}

/// Walks the expected and actual trees together below `path` and decides
/// whether the actual satisfies the expected under the category's rules.
pub fn match_json_tree(
    rules: &MatchingRuleCategory,
    path: &PathExpression,
    expected: &JsonValue,
    actual: &JsonValue,
) -> (r: bool)
    ensures
        r == tree_matches(rules@, path@, expected@, actual@),
    decreases *expected, 0int, 0int,
{
    match rules.resolve_matchers(path) {
        Some(group) => rules_match(group, expected, actual),
        None => match (expected, actual) {
            (JsonValue::Arr(ee), JsonValue::Arr(ae)) => {
                if ee.len() != ae.len() {
                    return false;
                }
                let ghost eed = expected@->Arr_0;
                let ghost aed = actual@->Arr_0;
                let mut i: usize = 0;
                while i < ee.len()
                    invariant
                        resolve_data(rules@, path@) is None,
                        *expected == JsonValue::Arr(*ee),
                        *actual == JsonValue::Arr(*ae),
                        eed == expected@->Arr_0,
                        aed == actual@->Arr_0,
                        eed.len() == ee@.len(),
                        aed.len() == ae@.len(),
                        ee@.len() == ae@.len(),
                        i <= ee@.len(),
                        arr_items_match(rules@, path@, eed, aed, 0) == arr_items_match(
                            rules@,
                            path@,
                            eed,
                            aed,
                            i as int,
                        ),
                    decreases ee@.len() - i,
                {
                    proof {
                        assert(eed[i as int] == jdata_of(ee@[i as int]));
                        assert(aed[i as int] == jdata_of(ae@[i as int]));
                        assert(decreases_to!(*expected => (*expected)->Arr_0));
                        assert(decreases_to!(*ee => ee@[i as int]));
                    }
                    let sub_path = path.pushed_index(i);
                    if !match_json_tree(rules, &sub_path, &ee[i], &ae[i]) {
                        proof {
                            assert(sub_path@ =~= path@.push(TokenData::Index(i as usize)));
                            assert(!arr_items_match(rules@, path@, eed, aed, i as int));
                        }
                        return false;
                    }
                    proof {
                        assert(sub_path@ =~= path@.push(TokenData::Index(i as usize)));
                        assert(arr_items_match(rules@, path@, eed, aed, i as int)
                            == arr_items_match(rules@, path@, eed, aed, i as int + 1));
                    }
                    i = i + 1;
                }
                true
            },
            (JsonValue::Obj(ee), JsonValue::Obj(ae)) => {
                if ee.len() != ae.len() {
                    return false;
                }
                let ghost eed = expected@->Obj_0;
                let ghost aed = actual@->Obj_0;
                proof {
                    assert(eed =~= crate::json::obj_entries_data(ee@));
                    assert(aed =~= crate::json::obj_entries_data(ae@));
                }
                let mut i: usize = 0;
                while i < ee.len()
                    invariant
                        resolve_data(rules@, path@) is None,
                        *expected == JsonValue::Obj(*ee),
                        *actual == JsonValue::Obj(*ae),
                        eed == expected@->Obj_0,
                        aed == actual@->Obj_0,
                        aed == crate::json::obj_entries_data(ae@),
                        eed.len() == ee@.len(),
                        aed.len() == ae@.len(),
                        ee@.len() == ae@.len(),
                        i <= ee@.len(),
                        obj_entries_match(rules@, path@, eed, aed, 0) == obj_entries_match(
                            rules@,
                            path@,
                            eed,
                            aed,
                            i as int,
                        ),
                    decreases ee@.len() - i,
                {
                    proof {
                        assert(eed[i as int] == (ee@[i as int].0@, jdata_of(ee@[i as int].1)));
                    }
                    let entry = &ee[i];
                    let j = match find_key(ae, entry.0.as_str()) {
                        Some(j) => j,
                        None => {
                            proof {
                                assert(!obj_entries_match(rules@, path@, eed, aed, i as int));
                            }
                            return false;
                        },
                    };
                    proof {
                        assert(aed[j as int] == (ae@[j as int].0@, jdata_of(ae@[j as int].1)));
                        assert(decreases_to!(*ee => ee@[i as int]));
                        assert(decreases_to!(ee@[i as int] => ee@[i as int].1));
                    }
                    let sub_path = path.pushed_field(entry.0.as_str());
                    if !match_json_tree(rules, &sub_path, &entry.1, &ae[j].1) {
                        proof {
                            assert(sub_path@ =~= path@.push(TokenData::Field(eed[i as int].0)));
                            assert(!obj_entries_match(rules@, path@, eed, aed, i as int));
                        }
                        return false;
                    }
                    proof {
                        assert(sub_path@ =~= path@.push(TokenData::Field(eed[i as int].0)));
                        assert(obj_entries_match(rules@, path@, eed, aed, i as int)
                            == obj_entries_match(rules@, path@, eed, aed, i as int + 1));
                    }
                    i = i + 1;
                }
                let mut k: usize = 0;
                while k < ae.len()
                    invariant
                        resolve_data(rules@, path@) is None,
                        *expected == JsonValue::Obj(*ee),
                        *actual == JsonValue::Obj(*ae),
                        eed == expected@->Obj_0,
                        aed == actual@->Obj_0,
                        eed == crate::json::obj_entries_data(ee@),
                        eed.len() == ee@.len(),
                        aed.len() == ae@.len(),
                        ee@.len() == ae@.len(),
                        obj_entries_match(rules@, path@, eed, aed, 0),
                        k <= ae@.len(),
                        obj_keys_covered(eed, aed, 0) == obj_keys_covered(eed, aed, k as int),
                    decreases ae@.len() - k,
                {
                    proof {
                        assert(aed[k as int] == (ae@[k as int].0@, jdata_of(ae@[k as int].1)));
                    }
                    match find_key(ee, ae[k].0.as_str()) {
                        Some(_) => (),
                        None => {
                            proof {
                                assert(!obj_keys_covered(eed, aed, k as int));
                            }
                            return false;
                        },
                    }
                    k = k + 1;
                }
                true
            },
            _ => json_eq(actual, expected),
        },
    }
}

} // verus!
