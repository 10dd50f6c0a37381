//! Verification of pact JSON documents against the model's expected shape:
//! findings with a path, a severity and a message.

use vstd::prelude::*;
use crate::json::{jdata_get, obj_get_data, JsonData, JsonValue};
use crate::models::PactSpecification;
use crate::strings::{str_concat, str_eq};

verus! {

/// Level of a verification finding.
#[derive(PartialEq, Eq, Structural, Debug, Clone, Copy)]
pub enum ResultLevel {
    /// The document cannot be used.
    Error,
    /// The document is usable but questionable.
    Warning,
}

/// Spec-level mirror of a verification finding.
pub struct FindingData {
    /// Where in the document the finding points.
    pub path: Seq<char>,
    /// Its severity.
    pub level: ResultLevel,
    /// The message.
    pub message: Seq<char>,
}

/// One finding from verifying pact JSON against the model's shape.
#[derive(Debug)]
pub struct PactFileVerificationResult {
    /// Where in the document the finding points.
    pub path: String,
    /// Its severity.
    pub level: ResultLevel,
    /// The message.
    pub message: String,
}

impl View for PactFileVerificationResult {
    type V = FindingData;

    open spec fn view(&self) -> FindingData {
        FindingData { path: self.path@, level: self.level, message: self.message@ }
    }
}

impl PactFileVerificationResult {
    /// A new finding.
    pub fn new(path: &str, level: ResultLevel, message: String) -> (r: Self)
        ensures
            r@ == (FindingData { path: path@, level, message: message@ }),
    {
        PactFileVerificationResult { path: path.to_owned(), level, message }
    }
}

/// The name of a JSON value's type, as findings report it.
pub open spec fn json_type_name(d: JsonData) -> Seq<char> {
    match d {
        JsonData::Obj(_) => "Object"@,
        JsonData::Arr(_) => "Array"@,
        JsonData::Str(_) => "String"@,
        JsonData::Num(_) => "Number"@,
        JsonData::Bool(_) => "Boolean"@,
        JsonData::Null => "Null"@,
    }
}

/// The name of a JSON value's type.
pub fn json_type_of(v: &JsonValue) -> (r: String)
    ensures
        r@ == json_type_name(v@),
{
    match v {
        JsonValue::Obj(_) => "Object".to_owned(),
        JsonValue::Arr(_) => "Array".to_owned(),
        JsonValue::Str(_) => "String".to_owned(),
        JsonValue::Num(_) => "Number".to_owned(),
        JsonValue::Bool(_) => "Boolean".to_owned(),
        JsonValue::Null => "Null".to_owned(),
    }
}

/// The severity unknown attributes and missing names get.
pub open spec fn strict_level(strict: bool) -> ResultLevel {
    if strict {
        ResultLevel::Error
    } else {
        ResultLevel::Warning
    }
}

/// Findings for attributes other than `name`, scanning entries from `i`.
pub open spec fn party_unknown_from(
    path: Seq<char>,
    es: Seq<(Seq<char>, JsonData)>,
    strict: bool,
    i: int,
) -> Seq<FindingData>
    decreases es.len() - i,
{
    if i < 0 || i >= es.len() {
        Seq::empty()
    } else {
        (if es[i].0 == "name"@ {
            Seq::empty()
        } else {
            seq![
                FindingData {
                    path,
                    level: strict_level(strict),
                    message: "Unknown attribute '"@ + es[i].0 + "'"@,
                },
            ]
        }) + party_unknown_from(path, es, strict, i + 1)
    }
}

/// All findings for a consumer or provider document.
pub open spec fn party_findings(path: Seq<char>, d: JsonData, strict: bool) -> Seq<FindingData> {
    match d {
        JsonData::Obj(es) => (match obj_get_data(es, "name"@) {
            Some(v) => if v is Str {
                Seq::empty()
            } else {
                seq![
                    FindingData {
                        path: path + "/name"@,
                        level: ResultLevel::Error,
                        message: "Must be a String, got "@ + json_type_name(d),
                    },
                ]
            },
            None => seq![
                FindingData {
                    path: path + "/name"@,
                    level: strict_level(strict),
                    message: "Missing name"@,
                },
            ],
        }) + party_unknown_from(path, es, strict, 0),
        _ => seq![
            FindingData {
                path,
                level: ResultLevel::Error,
                message: "Must be an Object, got "@ + json_type_name(d),
            },
        ],
    }
}

/// Verifies one consumer or provider document; both share one shape.
pub fn verify_party_json(path: &str, pact_json: &JsonValue, strict: bool, _spec_version:
    PactSpecification) -> (r: Vec<PactFileVerificationResult>)
    ensures
        r@.len() == party_findings(path@, pact_json@, strict).len(),
        forall|i: int|
            0 <= i < r@.len() ==> r@[i]@ == party_findings(path@, pact_json@, strict)[i],
{
    let ghost spec_all = party_findings(path@, pact_json@, strict);
    let mut out: Vec<PactFileVerificationResult> = Vec::new();
    match pact_json {
        JsonValue::Obj(m) => {
            let ghost es = pact_json@->Obj_0;
            match pact_json.get("name") {
                Some(v) => {
                    match v {
                        JsonValue::Str(_) => (),
                        _ => {
                            let p = str_concat(path, "/name");
                            let msg = str_concat(
                                "Must be a String, got ",
                                json_type_of(pact_json).as_str(),
                            );
                            out.push(
                                PactFileVerificationResult::new(
                                    p.as_str(),
                                    ResultLevel::Error,
                                    msg,
                                ),
                            );
                        },
                    }
                },
                None => {
                    let p = str_concat(path, "/name");
                    let level = if strict {
                        ResultLevel::Error
                    } else {
                        ResultLevel::Warning
                    };
                    out.push(
                        PactFileVerificationResult::new(
                            p.as_str(),
                            level,
                            "Missing name".to_owned(),
                        ),
                    );
                },
            }
            let ghost head = out@.map_values(|f: PactFileVerificationResult| f@);
            proof {
                assert(spec_all =~= head + party_unknown_from(path@, es, strict, 0));
            }
            let mut i: usize = 0;
            while i < m.len()
                invariant
                    *pact_json == JsonValue::Obj(*m),
                    es == pact_json@->Obj_0,
                    es.len() == m@.len(),
                    forall|j: int| 0 <= j < m@.len() ==> es[j].0 == m@[j].0@,
                    i <= m@.len(),
                    spec_all =~= head + party_unknown_from(path@, es, strict, 0),
                    out@.map_values(|f: PactFileVerificationResult| f@) + party_unknown_from(
                        path@,
                        es,
                        strict,
                        i as int,
                    ) =~= spec_all,
                decreases m@.len() - i,
            {
                if !str_eq(m[i].0.as_str(), "name") {
                    let msg_head = str_concat("Unknown attribute '", m[i].0.as_str());
                    let msg = str_concat(msg_head.as_str(), "'");
                    let level = if strict {
                        ResultLevel::Error
                    } else {
                        ResultLevel::Warning
                    };
                    let ghost pre = out@;
                    out.push(PactFileVerificationResult::new(path, level, msg));
                    proof {
                        assert(out@.map_values(|f: PactFileVerificationResult| f@) =~= pre
                            .map_values(|f: PactFileVerificationResult| f@) + seq![
                            FindingData {
                                path: path@,
                                level: strict_level(strict),
                                message: "Unknown attribute '"@ + es[i as int].0 + "'"@,
                            },
                        ]);
                        assert(out@.map_values(|f: PactFileVerificationResult| f@)
                            + party_unknown_from(path@, es, strict, i as int + 1) =~= spec_all);
                    }
                } else {
                    proof {
                        assert(out@.map_values(|f: PactFileVerificationResult| f@)
                            + party_unknown_from(path@, es, strict, i as int + 1) =~= spec_all);
                    }
                }
                i = i + 1;
            }
            proof {
                assert(out@.map_values(|f: PactFileVerificationResult| f@) =~= spec_all);
            }
        },
        _ => {
            let msg = str_concat("Must be an Object, got ", json_type_of(pact_json).as_str());
            out.push(PactFileVerificationResult::new(path, ResultLevel::Error, msg));
            proof {
                assert(out@.map_values(|f: PactFileVerificationResult| f@) =~= spec_all);
            }
        },
    }
    proof {
        assert(forall|i: int|
            0 <= i < out@.len() ==> out@[i]@ == out@.map_values(
                |f: PactFileVerificationResult| f@,
            )[i]);
    }
    out
}

} // verus!
