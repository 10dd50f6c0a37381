//! Matching rules and the per-category map from path expressions to ordered
//! rule groups with AND/OR composition.

use vstd::prelude::*;
use crate::models::{HttpStatus, StatusData};
use crate::path_exp::{path_covers, PathExpression, TokenData};

verus! {

/// How several rules attached to one path combine.
#[derive(PartialEq, Eq, Structural, Debug, Clone, Copy)]
pub enum RuleLogic {
    /// The path passes only if every rule passes.
    And,
    /// Any single rule passing suffices.
    Or,
}

/// A matching rule: a predicate family applied at a path to decide
/// actual-vs-expected equivalence more loosely than strict equality.
#[derive(Debug)]
pub enum MatchingRule {
    /// The actual value must equal the expected one.
    Equality,
    /// A string value must match the regular expression.
    Regex(String),
    /// The actual value must have the expected value's type.
    Type,
    /// Type matching with a minimum length for arrays.
    MinType(u64),
    /// Type matching with a maximum length for arrays.
    MaxType(u64),
    /// A string value must include the given string.
    Include(String),
    /// The value must be an integer.
    Integer,
    /// The value must be a non-integral number.
    Decimal,
    /// The value must be a number.
    Number,
    /// The value must be a boolean.
    Boolean,
    /// A string value must be a date in the given format.
    Date(String),
    /// A string value must be a time in the given format.
    Time(String),
    /// A string value must be a date-time in the given format.
    Timestamp(String),
    /// The value's content type must be the given one.
    ContentType(String),
    /// The value must be JSON null.
    NullValue,
    /// A response status must fall in the given class.
    StatusCode(HttpStatus),
    /// Every key of an object must satisfy the nested rules.
    EachKey(Vec<MatchingRule>),
    /// Every value of an object must satisfy the nested rules.
    EachValue(Vec<MatchingRule>),
    /// Objects compare by semantic equality, ignoring key order.
    Values,
}

/// Spec-level mirror of `MatchingRule`.
pub enum RuleData {
    /// The actual value must equal the expected one.
    Equality,
    /// A string value must match the regular expression.
    Regex(Seq<char>),
    /// The actual value must have the expected value's type.
    Type,
    /// Type matching with a minimum length for arrays.
    MinType(u64),
    /// Type matching with a maximum length for arrays.
    MaxType(u64),
    /// A string value must include the given string.
    Include(Seq<char>),
    /// The value must be an integer.
    Integer,
    /// The value must be a non-integral number.
    Decimal,
    /// The value must be a number.
    Number,
    /// The value must be a boolean.
    Boolean,
    /// A string value must be a date in the given format.
    Date(Seq<char>),
    /// A string value must be a time in the given format.
    Time(Seq<char>),
    /// A string value must be a date-time in the given format.
    Timestamp(Seq<char>),
    /// The value's content type must be the given one.
    ContentType(Seq<char>),
    /// The value must be JSON null.
    NullValue,
    /// A response status must fall in the given class.
    StatusCode(StatusData),
    /// Every key of an object must satisfy the nested rules.
    EachKey(Seq<RuleData>),
    /// Every value of an object must satisfy the nested rules.
    EachValue(Seq<RuleData>),
    /// Objects compare by semantic equality, ignoring key order.
    Values,
}

/// The mathematical value of a matching rule.
pub open spec fn rule_data(r: MatchingRule) -> RuleData
    decreases r,
{
    match r {
        MatchingRule::Equality => RuleData::Equality,
        MatchingRule::Regex(s) => RuleData::Regex(s@),
        MatchingRule::Type => RuleData::Type,
        MatchingRule::MinType(n) => RuleData::MinType(n),
        MatchingRule::MaxType(n) => RuleData::MaxType(n),
        MatchingRule::Include(s) => RuleData::Include(s@),
        MatchingRule::Integer => RuleData::Integer,
        MatchingRule::Decimal => RuleData::Decimal,
        MatchingRule::Number => RuleData::Number,
        MatchingRule::Boolean => RuleData::Boolean,
        MatchingRule::Date(s) => RuleData::Date(s@),
        MatchingRule::Time(s) => RuleData::Time(s@),
        MatchingRule::Timestamp(s) => RuleData::Timestamp(s@),
        MatchingRule::ContentType(s) => RuleData::ContentType(s@),
        MatchingRule::NullValue => RuleData::NullValue,
        MatchingRule::StatusCode(st) => RuleData::StatusCode(st@),
        MatchingRule::EachKey(rs) => RuleData::EachKey(
            Seq::new(
                rs@.len(),
                |i: int|
                    if 0 <= i < rs@.len() {
                        rule_data(rs@[i])
                    } else {
                        RuleData::Type
                    },
            ),
        ),
        MatchingRule::EachValue(rs) => RuleData::EachValue(
            Seq::new(
                rs@.len(),
                |i: int|
                    if 0 <= i < rs@.len() {
                        rule_data(rs@[i])
                    } else {
                        RuleData::Type
                    },
            ),
        ),
        MatchingRule::Values => RuleData::Values,
    }
}

impl View for MatchingRule {
    type V = RuleData;

    open spec fn view(&self) -> RuleData {
        rule_data(*self)
    }
}

/// The six rule categories.
#[derive(PartialEq, Eq, Structural, Debug, Clone, Copy)]
pub enum Category {
    /// Rules on the body.
    Body,
    /// Rules on headers.
    Header,
    /// Rules on the request path.
    Path,
    /// Rules on query parameters.
    Query,
    /// Rules on the response status.
    Status,
    /// Rules on message metadata.
    Metadata,
}

/// One rule with the logic it joins under.
pub type RuleEntry = (MatchingRule, RuleLogic);

/// Spec-level mirror of one category entry: a path and its rule group.
pub type EntryData = (Seq<TokenData>, Seq<(RuleData, RuleLogic)>);

/// The mathematical value of a rule group.
pub open spec fn rules_data(rs: Seq<RuleEntry>) -> Seq<(RuleData, RuleLogic)> {
    Seq::new(
        rs.len(),
        |i: int|
            if 0 <= i < rs.len() {
                (rule_data(rs[i].0), rs[i].1)
            } else {
                (RuleData::Type, RuleLogic::And)
            },
    )
}

/// Per-category mapping from path expression to an ordered group of matching
/// rules. A path's group is never empty once added; adding to an existing
/// path appends, preserving prior rules.
#[derive(Debug)]
pub struct MatchingRuleCategory {
    /// The category these rules apply to.
    pub name: Category,
    /// Rule groups by path.
    pub entries: Vec<(PathExpression, Vec<RuleEntry>)>,
}

impl View for MatchingRuleCategory {
    type V = Seq<EntryData>;

    open spec fn view(&self) -> Seq<EntryData> {
        Seq::new(
            self.entries@.len(),
            |i: int|
                if 0 <= i < self.entries@.len() {
                    (self.entries@[i].0@, rules_data(self.entries@[i].1@))
                } else {
                    (Seq::empty(), Seq::empty())
                },
        )
    }
}

/// The first entry at exactly `key`, scanning from `i`.
pub open spec fn find_exact_from(es: Seq<EntryData>, key: Seq<TokenData>, i: int) -> Option<int>
    decreases es.len() - i,
{
    if i < 0 || i >= es.len() {
        None
    } else if es[i].0 == key {
        Some(i)
    } else {
        find_exact_from(es, key, i + 1)
    }
}

/// The first entry whose path covers the concrete `key`, scanning from `i`.
pub open spec fn find_covering_from(es: Seq<EntryData>, key: Seq<TokenData>, i: int) -> Option<
    int,
>
    decreases es.len() - i,
{
    if i < 0 || i >= es.len() {
        None
    } else if path_covers(es[i].0, key) {
        Some(i)
    } else {
        find_covering_from(es, key, i + 1)
    }
}

/// The rule group resolution for a path: its exact entry first, then any
/// wildcard entry covering it, else nothing (plain equality applies).
pub open spec fn resolve_data(es: Seq<EntryData>, key: Seq<TokenData>) -> Option<
    Seq<(RuleData, RuleLogic)>,
> {
    match find_exact_from(es, key, 0) {
        Some(j) => Some(es[j].1),
        None => match find_covering_from(es, key, 0) {
            Some(j) => Some(es[j].1),
            None => None,
        },
    }
}

/// What adding one rule does to the entries: appended to the first entry at
/// exactly that path, or a fresh singleton entry at the end.
pub open spec fn add_rule_data(
    es: Seq<EntryData>,
    path: Seq<TokenData>,
    r: (RuleData, RuleLogic),
) -> Seq<EntryData> {
    match find_exact_from(es, path, 0) {
        Some(j) => es.update(j, (es[j].0, es[j].1.push(r))),
        None => es.push((path, seq![r])),
    }
}

impl MatchingRuleCategory {
    /// An empty category of the given name.
    pub fn empty(name: Category) -> (r: MatchingRuleCategory)
        ensures
            r.name == name,
            r@ =~= Seq::<EntryData>::empty(),
    {
        MatchingRuleCategory { name, entries: Vec::new() }
    }

    /// True when no rules are recorded.
    pub fn is_empty(&self) -> (r: bool)
        ensures
            r == (self@.len() == 0),
    {
        self.entries.len() == 0
    }

    /// Adds a rule at a path: appended to the path's existing group, or
    /// starting a fresh group.
    pub fn add_rule(&mut self, path: &PathExpression, rule: MatchingRule, logic: RuleLogic)
        ensures
            final(self).name == old(self).name,
            final(self)@ =~= add_rule_data(old(self)@, path@, (rule@, logic)),
    {
        let ghost es = self@;
        let mut i: usize = 0;
        while i < self.entries.len()
            invariant
                *self == *old(self),
                es == self@,
                es.len() == self.entries@.len(),
                i <= self.entries@.len(),
                find_exact_from(es, path@, 0) == find_exact_from(es, path@, i as int),
            decreases self.entries@.len() - i,
        {
            if self.entries[i].0.path_eq(path) {
                let entry = &mut self.entries[i];
                entry.1.push((rule, logic));
                proof {
                    assert(self@ =~= add_rule_data(es, path@, (rule@, logic))) by {
                        assert(rules_data(self.entries@[i as int].1@) =~= es[i as int].1.push(
                            (rule@, logic),
                        ));
                        assert(forall|k: int|
                            0 <= k < es.len() && k != i ==> self@[k] == es[k]);
                    }
                }
                return;
            }
            i = i + 1;
        }
        let new_path = path.clone();
        let mut group: Vec<RuleEntry> = Vec::new();
        group.push((rule, logic));
        self.entries.push((new_path, group));
        proof {
            assert(self@ =~= add_rule_data(es, path@, (rule@, logic))) by {
                assert(rules_data(self.entries@[es.len() as int].1@) =~= seq![(rule@, logic)]);
                assert(self.entries@[es.len() as int].0@ == path@);
                assert(forall|k: int| 0 <= k < es.len() ==> self@[k] == es[k]);
            }
        }
    }

    /// The rule group for a path: its exact entry first, then any wildcard
    /// entry covering it; `None` means plain equality applies.
    pub fn resolve_matchers<'a>(&'a self, path: &PathExpression) -> (r: Option<
        &'a Vec<RuleEntry>,
    >)
        ensures
            match r {
                Some(group) => resolve_data(self@, path@) == Some(rules_data(group@)),
                None => resolve_data(self@, path@) is None,
            },
    {
        let ghost es = self@;
        let mut i: usize = 0;
        while i < self.entries.len()
            invariant
                es == self@,
                es.len() == self.entries@.len(),
                i <= self.entries@.len(),
                find_exact_from(es, path@, 0) == find_exact_from(es, path@, i as int),
            decreases self.entries@.len() - i,
        {
            if self.entries[i].0.path_eq(path) {
                return Some(&self.entries[i].1);
            }
            i = i + 1;
        }
        let mut j: usize = 0;
        while j < self.entries.len()
            invariant
                es == self@,
                es.len() == self.entries@.len(),
                j <= self.entries@.len(),
                find_exact_from(es, path@, 0) is None,
                find_covering_from(es, path@, 0) == find_covering_from(es, path@, j as int),
            decreases self.entries@.len() - j,
        {
            if self.entries[j].0.covers(path) {
                return Some(&self.entries[j].1);
            }
            j = j + 1;
        }
        None
    }
}

/// Law: a rule registered at a path is found by resolving that very path,
/// appended after any rules already there.
pub proof fn lemma_registered_rule_found(
    es: Seq<EntryData>,
    p: Seq<TokenData>,
    r: (RuleData, RuleLogic),
)
    ensures
        ({
            let es2 = add_rule_data(es, p, r);
            match find_exact_from(es, p, 0) {
                Some(j) => resolve_data(es2, p) == Some(es[j].1.push(r)),
                None => resolve_data(es2, p) == Some(seq![r]),
            }
        }),
{
    let es2 = add_rule_data(es, p, r);
    match find_exact_from(es, p, 0) {
        Some(j) => {
            lemma_find_exact_bounds(es, p, 0);
            lemma_find_exact_update(es, p, j, (es[j].0, es[j].1.push(r)), 0);
        },
        None => {
            lemma_find_exact_push(es, p, (p, seq![r]), 0);
        },
    }
}

/// Law: a wildcard rule registered at a pattern applies to every concrete
/// path the pattern covers: resolution there finds a rule group.
pub proof fn lemma_wildcard_rule_applies(es: Seq<EntryData>, p: Seq<TokenData>, q: Seq<TokenData>)
    requires
        find_exact_from(es, p, 0) is Some,
        path_covers(p, q),
    ensures
        resolve_data(es, q) is Some,
{
    match find_exact_from(es, q, 0) {
        Some(_) => {},
        None => {
            let j = find_exact_from(es, p, 0).unwrap();
            lemma_find_exact_bounds(es, p, 0);
            assert(path_covers(es[j].0, q));
            lemma_find_covering_finds(es, q, j, 0);
        },
    }
}

/// A found exact index lies in bounds and carries the key.
proof fn lemma_find_exact_bounds(es: Seq<EntryData>, key: Seq<TokenData>, i: int)
    requires
        find_exact_from(es, key, i) is Some,
    ensures
        ({
            let j = find_exact_from(es, key, i).unwrap();
            i <= j < es.len() && es[j].0 == key
        }),
    decreases es.len() - i,
{
    if !(i < 0 || i >= es.len()) && !(es[i].0 == key) {
        lemma_find_exact_bounds(es, key, i + 1);
    }
}

/// Updating an entry without changing its path keeps the exact search's
/// result.
proof fn lemma_find_exact_update(
    es: Seq<EntryData>,
    key: Seq<TokenData>,
    j: int,
    v: EntryData,
    i: int,
)
    requires
        0 <= j < es.len(),
        v.0 == es[j].0,
        0 <= i <= es.len(),
    ensures
        find_exact_from(es.update(j, v), key, i) == find_exact_from(es, key, i),
    decreases es.len() - i,
{
    if i < es.len() {
        lemma_find_exact_update(es, key, j, v, i + 1);
    }
}

/// A fresh entry at the end is found exactly when the search reaches it.
proof fn lemma_find_exact_push(es: Seq<EntryData>, key: Seq<TokenData>, v: EntryData, i: int)
    requires
        find_exact_from(es, key, 0) is None,
        v.0 == key,
        0 <= i <= es.len(),
        find_exact_from(es, key, i) is None,
    ensures
        find_exact_from(es.push(v), key, i) == Some(es.len() as int),
    decreases es.len() - i,
{
    if i < es.len() {
        lemma_find_exact_push(es, key, v, i + 1);
    }
}

/// When some entry at or after `i` covers the key, the covering search
/// succeeds.
proof fn lemma_find_covering_finds(es: Seq<EntryData>, key: Seq<TokenData>, j: int, i: int)
    requires
        0 <= i <= j < es.len(),
        path_covers(es[j].0, key),
    ensures
        find_covering_from(es, key, i) is Some,
    decreases es.len() - i,
{
    if i < j && !path_covers(es[i].0, key) {
        lemma_find_covering_finds(es, key, j, i + 1);
    }
}

} // verus!
