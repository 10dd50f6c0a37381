//! Provider states: named preconditions, with parameters, that a provider
//! must establish before an interaction is replayed against it.

use vstd::prelude::*;
use crate::json::{
    clone_entries,
    jdata_get,
    json_eq,
    obj_entries_data,
    obj_get_data,
    obj_get_from,
    JsonData,
    JsonValue,
};
use crate::json_codec::{json_string_data, json_to_string};
use crate::models::PactSpecification;
use crate::strings::{str_concat, str_eq};
use crate::verify_json::{
    json_type_name,
    json_type_of,
    strict_level,
    FindingData,
    PactFileVerificationResult,
    ResultLevel,
};

verus! {

/// Spec-level mirror of `ProviderState`.
#[verifier::ext_equal]
pub struct StateData {
    /// Description of this provider state.
    pub name: Seq<char>,
    /// Provider state parameters as key value pairs.
    pub params: Seq<(Seq<char>, JsonData)>,
}

/// Struct that encapsulates all the info about a provider state.
#[derive(Debug)]
pub struct ProviderState {
    /// Description of this provider state.
    pub name: String,
    /// Provider state parameters as key value pairs.
    pub params: Vec<(String, JsonValue)>,
}

impl View for ProviderState {
    type V = StateData;

    open spec fn view(&self) -> StateData {
        StateData { name: self.name@, params: obj_entries_data(self.params@) }
    }
}

impl Clone for ProviderState {
    /// A copy with the same model value.
    fn clone(&self) -> (r: Self)
        ensures
            r@ == self@,
    {
        let r = ProviderState { name: self.name.clone(), params: clone_entries(&self.params) };
        proof {
            assert(obj_entries_data(r.params@) =~= obj_entries_data(self.params@));
        }
        r
    }
}

/// The state one JSON object of a V3 `providerStates` array describes.
pub open spec fn v3_state_data(d: JsonData) -> StateData {
    StateData {
        name: match jdata_get(d, "name"@) {
            Some(v) => json_string_data(v),
            None => "unknown provider states"@,
        },
        params: match jdata_get(d, "params"@) {
            Some(JsonData::Obj(es)) => es,
            _ => Seq::empty(),
        },
    }
}

/// The states a legacy scalar `providerState` value describes.
pub open spec fn legacy_states_data(v: JsonData) -> Seq<StateData> {
    match v {
        JsonData::Str(s) => if s.len() == 0 {
            Seq::empty()
        } else {
            seq![StateData { name: s, params: Seq::empty() }]
        },
        JsonData::Null => Seq::empty(),
        _ => seq![StateData { name: json_string_data(v), params: Seq::empty() }],
    }
}

/// The states an interaction's JSON describes: a V3+ `providerStates` array,
/// or the legacy scalar `providerState` / `provider_state` field.
pub open spec fn states_from_data(d: JsonData) -> Seq<StateData> {
    match jdata_get(d, "providerStates"@) {
        Some(JsonData::Arr(a)) => Seq::new(
            a.len(),
            |i: int|
                if 0 <= i < a.len() {
                    v3_state_data(a[i])
                } else {
                    v3_state_data(JsonData::Null)
                },
        ),
        Some(_) => Seq::empty(),
        None => match jdata_get(d, "providerState"@) {
            Some(v) => legacy_states_data(v),
            None => match jdata_get(d, "provider_state"@) {
                Some(v) => legacy_states_data(v),
                None => Seq::empty(),
            },
        },
    }
}

impl ProviderState {
    /// Creates a default state with the given name.
    pub fn default(name: &str) -> (r: ProviderState)
        ensures
            r@.name == name@,
            r@.params.len() == 0,
    {
        ProviderState { name: name.to_owned(), params: Vec::new() }
    }

    /// Constructs a provider state from one JSON object.
    pub fn from_json_v3(pact_json: &JsonValue) -> (r: ProviderState)
        ensures
            r@ == v3_state_data(pact_json@),
    {
        let name = match pact_json.get("name") {
            Some(v) => json_to_string(v),
            None => "unknown provider states".to_owned(),
        };
        let params = match pact_json.get("params") {
            Some(v) => match v {
                JsonValue::Obj(m) => {
                    let ghost es = v@->Obj_0;
                    let cloned = clone_entries(m);
                    proof {
                        assert(obj_entries_data(cloned@) =~= es);
                    }
                    cloned
                },
                _ => Vec::new(),
            },
            None => Vec::new(),
        };
        let r = ProviderState { name, params };
        proof {
            assert(r@.params =~= v3_state_data(pact_json@).params);
        }
        r
    }

    /// Constructs a list of provider states from an interaction's JSON.
    pub fn from_json(pact_json: &JsonValue) -> (r: Vec<ProviderState>)
        ensures
            r@.map_values(|s: ProviderState| s@) =~= states_from_data(pact_json@),
    {
        let ghost spec_states = states_from_data(pact_json@);
        match pact_json.get("providerStates") {
            Some(v) => match v {
                JsonValue::Arr(items) => {
                    let ghost a = v@->Arr_0;
                    let mut out: Vec<ProviderState> = Vec::new();
                    let mut i: usize = 0;
                    while i < items.len()
                        invariant
                            *v == JsonValue::Arr(*items),
                            a == v@->Arr_0,
                            a.len() == items@.len(),
                            forall|j: int|
                                0 <= j < a.len() ==> a[j] == crate::json::jdata_of(items@[j]),
                            i <= items@.len(),
                            out@.len() == i,
                            forall|j: int| 0 <= j < i ==> out@[j]@ == v3_state_data(a[j]),
                        decreases items@.len() - i,
                    {
                        proof {
                            crate::json::lemma_arr_elem_smaller(*v, i as int);
                        }
                        out.push(ProviderState::from_json_v3(&items[i]));
                        i = i + 1;
                    }
                    proof {
                        assert(out@.map_values(|s: ProviderState| s@) =~= spec_states);
                    }
                    out
                },
                _ => Vec::new(),
            },
            None => {
                let legacy = match pact_json.get("providerState") {
                    Some(v) => Some(v),
                    None => pact_json.get("provider_state"),
                };
                match legacy {
                    Some(v) => match v {
                        JsonValue::Str(s) => {
                            if s.as_str().unicode_len() == 0 {
                                Vec::new()
                            } else {
                                let mut out: Vec<ProviderState> = Vec::new();
                                out.push(
                                    ProviderState { name: s.clone(), params: Vec::new() },
                                );
                                proof {
                                    assert(out@.map_values(|st: ProviderState| st@)
                                        =~~= spec_states);
                                }
                                out
                            }
                        },
                        JsonValue::Null => Vec::new(),
                        _ => {
                            let mut out: Vec<ProviderState> = Vec::new();
                            out.push(
                                ProviderState { name: json_to_string(v), params: Vec::new() },
                            );
                            proof {
                                assert(out@.map_values(|st: ProviderState| st@) =~~= spec_states);
                            }
                            out
                        },
                    },
                    None => Vec::new(),
                }
            },
        }
    }

    /// Converts this provider state into a JSON object: the name, and the
    /// parameters when there are any.
    pub fn to_json(&self) -> (r: JsonValue)
        ensures
            r@ == JsonData::Obj(
                if self@.params.len() == 0 {
                    seq![("name"@, JsonData::Str(self@.name))]
                } else {
                    seq![
                        ("name"@, JsonData::Str(self@.name)),
                        ("params"@, JsonData::Obj(self@.params)),
                    ]
                },
            ),
    {
        let mut fields: Vec<(String, JsonValue)> = Vec::new();
        fields.push(("name".to_owned(), JsonValue::Str(self.name.clone())));
        if self.params.len() > 0 {
            let cloned = clone_entries(&self.params);
            proof {
                assert(obj_entries_data(cloned@) =~= obj_entries_data(self.params@));
            }
            fields.push(("params".to_owned(), JsonValue::Obj(cloned)));
            let r = JsonValue::Obj(fields);
            proof {
                assert((r->Obj_0)@[0].0@ == "name"@);
                assert(crate::json::jdata_of((r->Obj_0)@[0].1) == JsonData::Str(self@.name));
                assert((r->Obj_0)@[1].0@ == "params"@);
                assert(crate::json::jdata_of((r->Obj_0)@[1].1)->Obj_0 =~= self@.params);
                assert(crate::json::jdata_of((r->Obj_0)@[1].1) == JsonData::Obj(self@.params));
                assert(r@->Obj_0 =~= seq![
                    ("name"@, JsonData::Str(self@.name)),
                    ("params"@, JsonData::Obj(self@.params)),
                ]);
            }
            r
        } else {
            let r = JsonValue::Obj(fields);
            proof {
                assert((r->Obj_0)@[0].0@ == "name"@);
                assert(crate::json::jdata_of((r->Obj_0)@[0].1) == JsonData::Str(self@.name));
                assert(r@->Obj_0 =~= seq![("name"@, JsonData::Str(self@.name))]);
            }
            r
        }
    }
}

/// Findings for attributes other than `name` and `params`, scanning entries
/// from `i`.
pub open spec fn state_unknown_from(
    path: Seq<char>,
    es: Seq<(Seq<char>, JsonData)>,
    strict: bool,
    i: int,
) -> Seq<FindingData>
    decreases es.len() - i,
{
    if i < 0 || i >= es.len() {
        Seq::empty()
    } else {
        (if es[i].0 == "name"@ || es[i].0 == "params"@ {
            Seq::empty()
        } else {
            seq![
                FindingData {
                    path,
                    level: strict_level(strict),
                    message: "Unknown attribute '"@ + es[i].0 + "'"@,
                },
            ]
        }) + state_unknown_from(path, es, strict, i + 1)
    }
}

/// All findings for a provider-state document.
pub open spec fn state_findings(path: Seq<char>, d: JsonData, strict: bool) -> Seq<FindingData> {
    match d {
        JsonData::Str(_) => Seq::empty(),
        JsonData::Obj(es) => (match obj_get_data(es, "name"@) {
            None => seq![
                FindingData {
                    path,
                    level: ResultLevel::Error,
                    message: "Provider state 'name' is required"@,
                },
            ],
            Some(v) => if v is Str {
                Seq::empty()
            } else {
                seq![
                    FindingData {
                        path,
                        level: ResultLevel::Error,
                        message: "Provider state 'name' must be a String, got "@ + json_type_name(
                            d,
                        ),
                    },
                ]
            },
        }) + (match obj_get_data(es, "params"@) {
            Some(v) => if v is Obj {
                Seq::empty()
            } else {
                seq![
                    FindingData {
                        path,
                        level: ResultLevel::Error,
                        message: "Provider state 'params' must be an Object, got "@
                            + json_type_name(d),
                    },
                ]
            },
            None => Seq::empty(),
        }) + state_unknown_from(path, es, strict, 0),
        _ => seq![
            FindingData {
                path,
                level: ResultLevel::Error,
                message: "Must be a String or Object, got "@ + json_type_name(d),
            },
        ],
    }
}

impl ProviderState {
    /// Verifies a provider-state document's shape.
    pub fn verify_json(
        path: &str,
        pact_json: &JsonValue,
        strict: bool,
        _spec_version: PactSpecification,
    ) -> (r: Vec<PactFileVerificationResult>)
        ensures
            r@.len() == state_findings(path@, pact_json@, strict).len(),
            forall|i: int|
                0 <= i < r@.len() ==> r@[i]@ == state_findings(path@, pact_json@, strict)[i],
    {
        let ghost spec_all = state_findings(path@, pact_json@, strict);
        let mut out: Vec<PactFileVerificationResult> = Vec::new();
        match pact_json {
            JsonValue::Str(_) => (),
            JsonValue::Obj(m) => {
                let ghost es = pact_json@->Obj_0;
                match pact_json.get("name") {
                    None => {
                        out.push(
                            PactFileVerificationResult::new(
                                path,
                                ResultLevel::Error,
                                "Provider state 'name' is required".to_owned(),
                            ),
                        );
                    },
                    Some(v) => {
                        match v {
                            JsonValue::Str(_) => (),
                            _ => {
                                let msg = str_concat(
                                    "Provider state 'name' must be a String, got ",
                                    json_type_of(pact_json).as_str(),
                                );
                                out.push(
                                    PactFileVerificationResult::new(
                                        path,
                                        ResultLevel::Error,
                                        msg,
                                    ),
                                );
                            },
                        }
                    },
                }
                match pact_json.get("params") {
                    Some(v) => {
                        match v {
                            JsonValue::Obj(_) => (),
                            _ => {
                                let msg = str_concat(
                                    "Provider state 'params' must be an Object, got ",
                                    json_type_of(pact_json).as_str(),
                                );
                                out.push(
                                    PactFileVerificationResult::new(
                                        path,
                                        ResultLevel::Error,
                                        msg,
                                    ),
                                );
                            },
                        }
                    },
                    None => (),
                }
                let ghost head = out@.map_values(|f: PactFileVerificationResult| f@);
                proof {
                    assert(spec_all =~= head + state_unknown_from(path@, es, strict, 0));
                }
                let mut i: usize = 0;
                while i < m.len()
                    invariant
                        *pact_json == JsonValue::Obj(*m),
                        es == pact_json@->Obj_0,
                        es.len() == m@.len(),
                        forall|j: int| 0 <= j < m@.len() ==> es[j].0 == m@[j].0@,
                        i <= m@.len(),
                        out@.map_values(|f: PactFileVerificationResult| f@)
                            + state_unknown_from(path@, es, strict, i as int) =~= spec_all,
                    decreases m@.len() - i,
                {
                    if !str_eq(m[i].0.as_str(), "name") && !str_eq(m[i].0.as_str(), "params") {
                        let msg_head = str_concat("Unknown attribute '", m[i].0.as_str());
                        let msg = str_concat(msg_head.as_str(), "'");
                        let level = if strict {
                            ResultLevel::Error
                        } else {
                            ResultLevel::Warning
                        };
                        let ghost pre = out@;
                        out.push(PactFileVerificationResult::new(path, level, msg));
                        proof {
                            assert(out@.map_values(|f: PactFileVerificationResult| f@) =~= pre
                                .map_values(|f: PactFileVerificationResult| f@) + seq![
                                FindingData {
                                    path: path@,
                                    level: strict_level(strict),
                                    message: "Unknown attribute '"@ + es[i as int].0 + "'"@,
                                },
                            ]);
                            assert(out@.map_values(|f: PactFileVerificationResult| f@)
                                + state_unknown_from(path@, es, strict, i as int + 1)
                                =~= spec_all);
                        }
                    } else {
                        proof {
                            assert(out@.map_values(|f: PactFileVerificationResult| f@)
                                + state_unknown_from(path@, es, strict, i as int + 1)
                                =~= spec_all);
                        }
                    }
                    i = i + 1;
                }
                proof {
                    assert(out@.map_values(|f: PactFileVerificationResult| f@) =~= spec_all);
                }
            },
            _ => {
                let msg = str_concat(
                    "Must be a String or Object, got ",
                    json_type_of(pact_json).as_str(),
                );
                out.push(PactFileVerificationResult::new(path, ResultLevel::Error, msg));
            },
        }
        proof {
            assert(forall|i: int|
                0 <= i < out@.len() ==> out@[i]@ == out@.map_values(
                    |f: PactFileVerificationResult| f@,
                )[i]);
        }
        out
    }
}

/// Is every entry of `a` bound to an equal value in `b`?
pub open spec fn params_submap(
    a: Seq<(Seq<char>, JsonData)>,
    b: Seq<(Seq<char>, JsonData)>,
) -> bool {
    forall|i: int| 0 <= i < a.len() ==> obj_get_data(b, a[i].0) == Some(a[i].1)
}

/// Equality of parameter maps: same size, each side contained in the other.
pub open spec fn params_equiv(
    a: Seq<(Seq<char>, JsonData)>,
    b: Seq<(Seq<char>, JsonData)>,
) -> bool {
    a.len() == b.len() && params_submap(a, b) && params_submap(b, a)
}

/// Does `b` bind `a`'s entry `i` to an equal value?
fn entry_in(a: &Vec<(String, JsonValue)>, i: usize, b: &Vec<(String, JsonValue)>) -> (r: bool)
    requires
        i < a@.len(),
    ensures
        r == (obj_get_data(obj_entries_data(b@), obj_entries_data(a@)[i as int].0) == Some(
            obj_entries_data(a@)[i as int].1,
        )),
{
    let ghost bd = obj_entries_data(b@);
    let ghost key = obj_entries_data(a@)[i as int].0;
    let mut j: usize = 0;
    while j < b.len()
        invariant
            i < a@.len(),
            bd == obj_entries_data(b@),
            key == obj_entries_data(a@)[i as int].0,
            j <= b@.len(),
            obj_get_from(bd, key, 0) == obj_get_from(bd, key, j as int),
        decreases b@.len() - j,
    {
        if str_eq(b[j].0.as_str(), a[i].0.as_str()) {
            return json_eq(&b[j].1, &a[i].1);
        }
        j = j + 1;
    }
    false
}

/// Is every entry of `a` bound to an equal value in `b`?
pub fn submap_exec(a: &Vec<(String, JsonValue)>, b: &Vec<(String, JsonValue)>) -> (r: bool)
    ensures
        r == params_submap(obj_entries_data(a@), obj_entries_data(b@)),
{
    let mut i: usize = 0;
    while i < a.len()
        invariant
            i <= a@.len(),
            forall|k: int|
                0 <= k < i ==> obj_get_data(obj_entries_data(b@), obj_entries_data(a@)[k].0)
                    == Some(obj_entries_data(a@)[k].1),
        decreases a@.len() - i,
    {
        if !entry_in(a, i, b) {
            return false;
        }
        i = i + 1;
    }
    true
}

impl PartialEq for ProviderState {
    /// States are equal when their names agree and their parameters agree as
    /// maps, in any order.
    fn eq(&self, other: &Self) -> (r: bool) {
        str_eq(self.name.as_str(), other.name.as_str()) && self.params.len()
            == other.params.len() && submap_exec(&self.params, &other.params) && submap_exec(
            &other.params,
            &self.params,
        )
    }
}

impl Eq for ProviderState {

}

impl vstd::std_specs::cmp::PartialEqSpecImpl for ProviderState {
    open spec fn obeys_eq_spec() -> bool {
        true
    }

    open spec fn eq_spec(&self, other: &Self) -> bool {
        self@.name == other@.name && params_equiv(self@.params, other@.params)
    }
}

} // verus!
