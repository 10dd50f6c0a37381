//! The pact artifact: consumer, provider, the expected interactions, the
//! specification version — and the merge rule for writing a pact file out
//! beside one already on disk.

use vstd::prelude::*;
use crate::generators::Generators;
use crate::json::{
    arr_elems_data,
    jdata_get,
    json_eq,
    JsonData,
    JsonNum,
    JsonValue,
    NumData,
};
use crate::matching_rules::MatchingRuleCategory;
use crate::models::{Consumer, PactSpecification, Provider};
use crate::provider_states::ProviderState;
use crate::strings::str_concat;

verus! {

/// One expected request/response exchange, with everything it owns.
#[derive(Debug)]
pub struct Interaction {
    /// A unique description of the exchange.
    pub description: String,
    /// The provider states the exchange depends on.
    pub provider_states: Vec<ProviderState>,
    /// The request method.
    pub request_method: String,
    /// The request path.
    pub request_path: String,
    /// The expected query parameters, as a JSON object (`Null` for none).
    pub request_query: JsonValue,
    /// The expected headers, as a JSON object (`Null` for none).
    pub request_headers: JsonValue,
    /// The expected request body.
    pub request_body: JsonValue,
    /// The response status.
    pub response_status: u16,
    /// The response body to replay.
    pub response_body: JsonValue,
    /// The matching rules on the request body.
    pub matching_rules: MatchingRuleCategory,
    /// The matching rules on the query parameters.
    pub query_rules: MatchingRuleCategory,
    /// The matching rules on the headers.
    pub header_rules: MatchingRuleCategory,
    /// The generators the exchange owns.
    pub generators: Generators,
}

/// The pact artifact.
#[derive(Debug)]
pub struct Pact {
    /// The consumer of the contract.
    pub consumer: Consumer,
    /// The provider of the contract.
    pub provider: Provider,
    /// The expected interactions, in order.
    pub interactions: Vec<Interaction>,
    /// The specification version, fixed at construction.
    pub spec_version: PactSpecification,
}

impl Pact {
    /// The default file name a pact is written to:
    /// `consumer-provider.json`.
    pub fn default_file_name(&self) -> (r: String)
        ensures
            r@ == self.consumer.name@ + "-"@ + self.provider.name@ + ".json"@,
    {
        let head = str_concat(self.consumer.name.as_str(), "-");
        let with_provider = str_concat(head.as_str(), self.provider.name.as_str());
        str_concat(with_provider.as_str(), ".json")
    }
}

/// The JSON an interaction serializes to: its description, its provider
/// states (when any), its request and its response.
pub open spec fn interaction_json_data(i: Interaction) -> JsonData {
    JsonData::Obj(
        seq![("description"@, JsonData::Str(i.description@))] + (if i.provider_states@.len() > 0 {
            seq![
                (
                    "providerStates"@,
                    JsonData::Arr(
                        Seq::new(
                            i.provider_states@.len(),
                            |k: int|
                                if 0 <= k < i.provider_states@.len() {
                                    state_json_data(i.provider_states@[k]@)
                                } else {
                                    JsonData::Null
                                },
                        ),
                    ),
                ),
            ]
        } else {
            Seq::empty()
        }) + seq![
            (
                "request"@,
                JsonData::Obj(
                    seq![
                        ("method"@, JsonData::Str(i.request_method@)),
                        ("path"@, JsonData::Str(i.request_path@)),
                        ("body"@, i.request_body@),
                    ] + (if !(i.request_query@ is Null) {
                        seq![("query"@, i.request_query@)]
                    } else {
                        Seq::empty()
                    }) + (if !(i.request_headers@ is Null) {
                        seq![("headers"@, i.request_headers@)]
                    } else {
                        Seq::empty()
                    }),
                ),
            ),
            (
                "response"@,
                JsonData::Obj(
                    seq![
                        ("status"@, JsonData::Num(NumData::U(i.response_status as u64))),
                        ("body"@, i.response_body@),
                    ],
                ),
            ),
        ],
    )
}

/// The JSON a provider state serializes to (the shape `ProviderState::to_json`
/// gives it).
pub open spec fn state_json_data(s: crate::provider_states::StateData) -> JsonData {
    JsonData::Obj(
        if s.params.len() == 0 {
            seq![("name"@, JsonData::Str(s.name))]
        } else {
            seq![("name"@, JsonData::Str(s.name)), ("params"@, JsonData::Obj(s.params))]
        },
    )
}

impl Interaction {
    /// Serializes this interaction.
    pub fn to_json(&self) -> (r: JsonValue)
        ensures
            r@ == interaction_json_data(*self),
    {
        let mut fields: Vec<(String, JsonValue)> = Vec::new();
        fields.push(("description".to_owned(), JsonValue::Str(self.description.clone())));
        if self.provider_states.len() > 0 {
            let mut states: Vec<JsonValue> = Vec::new();
            let mut k: usize = 0;
            while k < self.provider_states.len()
                invariant
                    k <= self.provider_states@.len(),
                    states@.len() == k,
                    forall|j: int|
                        0 <= j < k ==> crate::json::jdata_of(states@[j]) == state_json_data(
                            self.provider_states@[j]@,
                        ),
                decreases self.provider_states@.len() - k,
            {
                states.push(self.provider_states[k].to_json());
                k = k + 1;
            }
            fields.push(("providerStates".to_owned(), JsonValue::Arr(states)));
        }
        let mut request: Vec<(String, JsonValue)> = Vec::new();
        request.push(("method".to_owned(), JsonValue::Str(self.request_method.clone())));
        request.push(("path".to_owned(), JsonValue::Str(self.request_path.clone())));
        request.push(("body".to_owned(), self.request_body.clone()));
        match &self.request_query {
            JsonValue::Null => (),
            q => request.push(("query".to_owned(), q.clone())),
        }
        match &self.request_headers {
            JsonValue::Null => (),
            h => request.push(("headers".to_owned(), h.clone())),
        }
        let ghost reqv = request@;
        fields.push(("request".to_owned(), JsonValue::Obj(request)));
        let mut response: Vec<(String, JsonValue)> = Vec::new();
        response.push(
            ("status".to_owned(), JsonValue::Num(JsonNum::U(self.response_status as u64))),
        );
        response.push(("body".to_owned(), self.response_body.clone()));
        let ghost respv = response@;
        fields.push(("response".to_owned(), JsonValue::Obj(response)));
        let r = JsonValue::Obj(fields);
        proof {
            let spec_entries = interaction_json_data(*self)->Obj_0;
            let got = (r->Obj_0)@;
            let ri: int = if self.provider_states@.len() > 0 {
                2
            } else {
                1
            };
            assert(crate::json::jdata_of(got[0].1) == JsonData::Str(self.description@));
            assert(got[0].0@ == "description"@);
            if self.provider_states@.len() > 0 {
                assert(crate::json::jdata_of(got[1].1)->Arr_0 =~= spec_entries[1].1->Arr_0);
                assert(got[1].0@ == "providerStates"@);
            }
            assert(got[ri].0@ == "request"@);
            assert((got[ri].1)->Obj_0@ == reqv);
            assert(crate::json::jdata_of(reqv[0].1) == JsonData::Str(self.request_method@));
            assert(crate::json::jdata_of(reqv[1].1) == JsonData::Str(self.request_path@));
            assert(crate::json::jdata_of(reqv[2].1) == self.request_body@);
            if !(self.request_query@ is Null) {
                assert(reqv[3].0@ == "query"@);
                assert(crate::json::jdata_of(reqv[3].1) == self.request_query@);
            }
            if !(self.request_headers@ is Null) {
                let hi: int = if self.request_query@ is Null {
                    3
                } else {
                    4
                };
                assert(reqv[hi].0@ == "headers"@);
                assert(crate::json::jdata_of(reqv[hi].1) == self.request_headers@);
            }
            assert(crate::json::jdata_of(got[ri].1)->Obj_0 =~= spec_entries[ri].1->Obj_0);
            assert(got[ri + 1].0@ == "response"@);
            assert((got[ri + 1].1)->Obj_0@ == respv);
            assert(crate::json::jdata_of(respv[0].1) == JsonData::Num(
                NumData::U(self.response_status as u64),
            ));
            assert(crate::json::jdata_of(respv[1].1) == self.response_body@);
            assert(crate::json::jdata_of(got[ri + 1].1)->Obj_0 =~= spec_entries[ri + 1].1->Obj_0);
            assert(r@->Obj_0 =~= spec_entries);
        }
        r
    }
}

/// The JSON a whole pact serializes to.
pub open spec fn pact_json_data(p: Pact, interactions: Seq<JsonData>) -> JsonData {
    JsonData::Obj(
        seq![
            ("consumer"@, JsonData::Obj(seq![("name"@, JsonData::Str(p.consumer.name@))])),
            ("provider"@, JsonData::Obj(seq![("name"@, JsonData::Str(p.provider.name@))])),
            ("interactions"@, JsonData::Arr(interactions)),
            (
                "metadata"@,
                JsonData::Obj(
                    seq![
                        (
                            "pactSpecification"@,
                            JsonData::Obj(
                                seq![
                                    ("version"@, JsonData::Str(p.spec_version.spec_version_str())),
                                ],
                            ),
                        ),
                        (
                            "mockserver"@,
                            JsonData::Obj(seq![("version"@, JsonData::Str(tool_version()))]),
                        ),
                    ],
                ),
            ),
        ],
    )
}

/// The tool-version tag written pacts carry under their metadata.
pub open spec fn tool_version() -> Seq<char> {
    "0.1.0"@
}

/// The tool-version tag written pacts carry under their metadata.
pub fn tool_version_str() -> (r: String)
    ensures
        r@ == tool_version(),
{
    "0.1.0".to_owned()
}

/// Does the interaction hold exactly what its pact JSON describes? Missing
/// pieces fall back to a GET of `/` with empty bodies and a 200 response.
pub open spec fn interaction_of_data(ia: Interaction, d: JsonData) -> bool {
    &&& ia.description@ == crate::xml::str_field_or(d, "description"@, Seq::empty())
    &&& ia.provider_states@.map_values(|s: ProviderState| s@)
        == crate::provider_states::states_from_data(d)
    &&& ia.request_method@ == (match jdata_get(d, "request"@) {
        Some(req) => crate::xml::str_field_or(req, "method"@, "GET"@),
        None => "GET"@,
    })
    &&& ia.request_path@ == (match jdata_get(d, "request"@) {
        Some(req) => crate::xml::str_field_or(req, "path"@, "/"@),
        None => "/"@,
    })
    &&& ia.request_query@ == (match jdata_get(d, "request"@) {
        Some(req) => match jdata_get(req, "query"@) {
            Some(q) => q,
            None => JsonData::Null,
        },
        None => JsonData::Null,
    })
    &&& ia.request_headers@ == (match jdata_get(d, "request"@) {
        Some(req) => match jdata_get(req, "headers"@) {
            Some(h) => h,
            None => JsonData::Null,
        },
        None => JsonData::Null,
    })
    &&& ia.request_body@ == (match jdata_get(d, "request"@) {
        Some(req) => match jdata_get(req, "body"@) {
            Some(b) => b,
            None => JsonData::Null,
        },
        None => JsonData::Null,
    })
    &&& ia.response_status == (match jdata_get(d, "response"@) {
        Some(resp) => crate::xml::u16_field(resp, "status"@, 200),
        None => 200u16,
    })
    &&& ia.response_body@ == (match jdata_get(d, "response"@) {
        Some(resp) => match jdata_get(resp, "body"@) {
            Some(b) => b,
            None => JsonData::Null,
        },
        None => JsonData::Null,
    })
    &&& ia.matching_rules@.len() == 0
    &&& ia.query_rules@.len() == 0
    &&& ia.header_rules@.len() == 0
    &&& ia.generators@.len() == 0
}

/// The specification version a pact document's metadata names; `Unknown`
/// when absent or unreadable.
pub open spec fn spec_version_of_doc(d: JsonData) -> PactSpecification {
    match jdata_get(d, "metadata"@) {
        Some(md) => match jdata_get(md, "pactSpecification"@) {
            Some(ps) => match crate::xml::str_field(ps, "version"@) {
                Some(vs) => match crate::models::semver_major_minor_of(vs) {
                    Some(mm) => match PactSpecification::of_major_minor(mm.0, mm.1) {
                        Some(v) => v,
                        None => PactSpecification::Unknown,
                    },
                    None => PactSpecification::Unknown,
                },
                None => PactSpecification::Unknown,
            },
            None => PactSpecification::Unknown,
        },
        None => PactSpecification::Unknown,
    }
}

/// Does the pact hold exactly what its JSON document describes: the parties,
/// the interactions element for element, and the metadata's specification
/// version?
pub open spec fn pact_of_data(p: Pact, d: JsonData) -> bool {
    &&& p.consumer.name@ == (match jdata_get(d, "consumer"@) {
        Some(c) => crate::models::party_name_data(c, "consumer"@),
        None => "consumer"@,
    })
    &&& p.provider.name@ == (match jdata_get(d, "provider"@) {
        Some(pr) => crate::models::party_name_data(pr, "provider"@),
        None => "provider"@,
    })
    &&& match jdata_get(d, "interactions"@) {
        Some(JsonData::Arr(items)) => p.interactions@.len() == items.len() && (forall|i: int|
            0 <= i < items.len() ==> interaction_of_data(p.interactions@[i], items[i])),
        _ => p.interactions@.len() == 0,
    }
    &&& p.spec_version == spec_version_of_doc(d)
}

impl Interaction {
    /// Builds an interaction from its pact JSON: missing pieces fall back to
    /// a GET of `/` with empty bodies and a 200 response.
    pub fn from_json(d: &JsonValue) -> (r: Interaction)
        ensures
            interaction_of_data(r, d@),
    {
        let description = crate::xml::str_field_or_exec(d, "description");
        let provider_states = ProviderState::from_json(d);
        let (request_method, request_path, request_query, request_headers, request_body) = match d
            .get("request") {
            Some(req) => {
                let method = match crate::xml::str_field_exec(req, "method") {
                    Some(s) => s.to_owned(),
                    None => "GET".to_owned(),
                };
                let path = match crate::xml::str_field_exec(req, "path") {
                    Some(s) => s.to_owned(),
                    None => "/".to_owned(),
                };
                let query = match req.get("query") {
                    Some(q) => q.clone(),
                    None => JsonValue::Null,
                };
                let headers = match req.get("headers") {
                    Some(h) => h.clone(),
                    None => JsonValue::Null,
                };
                let body = match req.get("body") {
                    Some(b) => b.clone(),
                    None => JsonValue::Null,
                };
                (method, path, query, headers, body)
            },
            None => (
                "GET".to_owned(),
                "/".to_owned(),
                JsonValue::Null,
                JsonValue::Null,
                JsonValue::Null,
            ),
        };
        let (response_status, response_body) = match d.get("response") {
            Some(resp) => {
                let status = crate::xml::u16_field_exec(resp, "status", 200);
                let body = match resp.get("body") {
                    Some(b) => b.clone(),
                    None => JsonValue::Null,
                };
                (status, body)
            },
            None => (200u16, JsonValue::Null),
        };
        Interaction {
            description,
            provider_states,
            request_method,
            request_path,
            request_query,
            request_headers,
            request_body,
            response_status,
            response_body,
            matching_rules: MatchingRuleCategory::empty(crate::matching_rules::Category::Body),
            query_rules: MatchingRuleCategory::empty(crate::matching_rules::Category::Query),
            header_rules: MatchingRuleCategory::empty(crate::matching_rules::Category::Header),
            generators: Generators::empty(),
        }
    }
}

impl Pact {
    /// Builds a pact from a parsed JSON document: the parties, the
    /// interaction list, and the specification version from the metadata
    /// (`Unknown` when absent or unreadable).
    pub fn from_json(d: &JsonValue) -> (r: Pact)
        ensures
            pact_of_data(r, d@),
    {
        let consumer = match d.get("consumer") {
            Some(c) => Consumer::from_json(c),
            None => Consumer { name: "consumer".to_owned() },
        };
        let provider = match d.get("provider") {
            Some(p) => Provider::from_json(p),
            None => Provider { name: "provider".to_owned() },
        };
        let mut interactions: Vec<Interaction> = Vec::new();
        match d.get("interactions") {
            Some(iv) => match iv {
                JsonValue::Arr(items) => {
                    let ghost idata = crate::json::arr_elems_data(items@);
                    proof {
                        assert(crate::json::jdata_of(*iv)->Arr_0 =~= idata);
                    }
                    let mut i: usize = 0;
                    while i < items.len()
                        invariant
                            idata == crate::json::arr_elems_data(items@),
                            idata.len() == items@.len(),
                            i <= items@.len(),
                            interactions@.len() == i,
                            forall|j: int|
                                0 <= j < i ==> interaction_of_data(interactions@[j], idata[j]),
                        decreases items@.len() - i,
                    {
                        proof {
                            assert(idata[i as int] == crate::json::jdata_of(items@[i as int]));
                        }
                        interactions.push(Interaction::from_json(&items[i]));
                        i = i + 1;
                    }
                },
                _ => (),
            },
            None => (),
        }
        let spec_version = match d.get("metadata") {
            Some(md) => match md.get("pactSpecification") {
                Some(ps) => match crate::xml::str_field_exec(ps, "version") {
                    Some(v) => match PactSpecification::parse_version(v) {
                        Ok(sv) => sv,
                        Err(_) => PactSpecification::Unknown,
                    },
                    None => PactSpecification::Unknown,
                },
                None => PactSpecification::Unknown,
            },
            None => PactSpecification::Unknown,
        };
        Pact { consumer, provider, interactions, spec_version }
    }
}

/// The serialized forms of a run of interactions.
pub open spec fn interactions_json_data(v: Seq<Interaction>) -> Seq<JsonData> {
    Seq::new(
        v.len(),
        |i: int|
            if 0 <= i < v.len() {
                interaction_json_data(v[i])
            } else {
                JsonData::Null
            },
    )
}

/// Assembles the pact document around a ready interaction list.
fn assemble_pact_json(pact: &Pact, interactions: Vec<JsonValue>) -> (r: JsonValue)
    ensures
        r@ == pact_json_data(*pact, arr_elems_data(interactions@)),
{
    let mut fields: Vec<(String, JsonValue)> = Vec::new();
    fields.push(("consumer".to_owned(), pact.consumer.to_json()));
    fields.push(("provider".to_owned(), pact.provider.to_json()));
    fields.push(("interactions".to_owned(), JsonValue::Arr(interactions)));
    let mut version: Vec<(String, JsonValue)> = Vec::new();
    version.push(("version".to_owned(), JsonValue::Str(pact.spec_version.version_str())));
    let ghost versionv = version@;
    let mut tool: Vec<(String, JsonValue)> = Vec::new();
    tool.push(("version".to_owned(), JsonValue::Str(tool_version_str())));
    let ghost toolv = tool@;
    let mut metadata: Vec<(String, JsonValue)> = Vec::new();
    metadata.push(("pactSpecification".to_owned(), JsonValue::Obj(version)));
    metadata.push(("mockserver".to_owned(), JsonValue::Obj(tool)));
    let ghost metadatav = metadata@;
    fields.push(("metadata".to_owned(), JsonValue::Obj(metadata)));
    let r = JsonValue::Obj(fields);
    proof {
        let spec_entries = pact_json_data(*pact, arr_elems_data(interactions@))->Obj_0;
        let got = (r->Obj_0)@;
        assert(got[0].0@ == "consumer"@);
        assert(got[1].0@ == "provider"@);
        assert(got[2].0@ == "interactions"@);
        assert(got[3].0@ == "metadata"@);
        assert(crate::json::jdata_of(got[2].1)->Arr_0 =~= arr_elems_data(interactions@));
        assert((got[3].1)->Obj_0@ == metadatav);
        assert((metadatav[0].1)->Obj_0@ == versionv);
        assert((metadatav[1].1)->Obj_0@ == toolv);
        assert(crate::json::jdata_of(versionv[0].1) == JsonData::Str(
            pact.spec_version.spec_version_str(),
        ));
        assert(crate::json::jdata_of(toolv[0].1) == JsonData::Str(tool_version()));
        assert(crate::json::jdata_of(metadatav[0].1)->Obj_0 =~= spec_entries[3].1->Obj_0[0].1->Obj_0);
        assert(crate::json::jdata_of(metadatav[1].1)->Obj_0 =~= spec_entries[3].1->Obj_0[1].1->Obj_0);
        assert(crate::json::jdata_of(got[3].1)->Obj_0 =~= spec_entries[3].1->Obj_0);
        assert(r@->Obj_0 =~= spec_entries);
    }
    r
}

impl Pact {
    /// Serializes this pact: the parties, the interactions in order, and the
    /// specification version under the metadata.
    pub fn to_json(&self) -> (r: JsonValue)
        ensures
            r@ == pact_json_data(*self, interactions_json_data(self.interactions@)),
    {
        let mut items: Vec<JsonValue> = Vec::new();
        let mut i: usize = 0;
        while i < self.interactions.len()
            invariant
                i <= self.interactions@.len(),
                items@.len() == i,
                forall|j: int|
                    0 <= j < i ==> crate::json::jdata_of(items@[j]) == interaction_json_data(
                        self.interactions@[j],
                    ),
            decreases self.interactions@.len() - i,
        {
            items.push(self.interactions[i].to_json());
            i = i + 1;
        }
        proof {
            assert(arr_elems_data(items@) =~= interactions_json_data(self.interactions@));
        }
        assemble_pact_json(self, items)
    }
}

/// The identity two interaction JSON documents are merged under: the
/// description, and the provider states subtree.
pub open spec fn json_identity_eq(a: JsonData, b: JsonData) -> bool {
    jdata_get(a, "description"@) == jdata_get(b, "description"@) && jdata_get(
        a,
        "providerStates"@,
    ) == jdata_get(b, "providerStates"@)
}

/// Does some document in `s` share `x`'s identity?
pub open spec fn has_identity(s: Seq<JsonData>, x: JsonData) -> bool {
    exists|i: int| 0 <= i < s.len() && json_identity_eq(s[i], x)
}

/// The existing documents kept by a merge, scanning from `i`: those whose
/// identity no current interaction replaces.
pub open spec fn merge_keep(a: Seq<JsonData>, b: Seq<JsonData>, i: int) -> Seq<JsonData>
    decreases a.len() - i,
{
    if i < 0 || i >= a.len() {
        Seq::empty()
    } else {
        (if has_identity(b, a[i]) {
            Seq::empty()
        } else {
            seq![a[i]]
        }) + merge_keep(a, b, i + 1)
    }
}

/// The interaction list a merge produces: the existing documents whose
/// identity survives, then the current session's, in order.
pub open spec fn merge_data(a: Seq<JsonData>, b: Seq<JsonData>) -> Seq<JsonData> {
    merge_keep(a, b, 0) + b
}

/// Do the two interaction documents share their identity (description and
/// provider states)?
pub fn json_identity_eq_exec(a: &JsonValue, b: &JsonValue) -> (r: bool)
    ensures
        r == json_identity_eq(a@, b@),
{
    let desc_eq = match (a.get("description"), b.get("description")) {
        (Some(x), Some(y)) => json_eq(x, y),
        (None, None) => true,
        _ => false,
    };
    if !desc_eq {
        return false;
    }
    match (a.get("providerStates"), b.get("providerStates")) {
        (Some(x), Some(y)) => json_eq(x, y),
        (None, None) => true,
        _ => false,
    }
}

/// Does some document in `items` share `x`'s identity?
fn has_identity_exec(items: &Vec<JsonValue>, x: &JsonValue) -> (r: bool)
    ensures
        r == has_identity(arr_elems_data(items@), x@),
{
    let ghost data = arr_elems_data(items@);
    let mut i: usize = 0;
    while i < items.len()
        invariant
            data == arr_elems_data(items@),
            data.len() == items@.len(),
            i <= items@.len(),
            forall|j: int| 0 <= j < i ==> !json_identity_eq(data[j], x@),
        decreases items@.len() - i,
    {
        if json_identity_eq_exec(&items[i], x) {
            proof {
                assert(json_identity_eq(data[i as int], x@));
            }
            return true;
        }
        i = i + 1;
    }
    false
}

/// The JSON document a write-out produces: with `overwrite`, exactly the
/// current session's pact; otherwise the union with the document already on
/// disk, the current session's interactions replacing same-identity ones.
pub open spec fn write_contents_data(p: Pact, existing: Option<JsonData>, overwrite: bool) -> JsonData {
    let cur = interactions_json_data(p.interactions@);
    if overwrite {
        pact_json_data(p, cur)
    } else {
        match existing {
            Some(doc) => match jdata_get(doc, "interactions"@) {
                Some(JsonData::Arr(old_list)) => pact_json_data(p, merge_data(old_list, cur)),
                _ => pact_json_data(p, cur),
            },
            None => pact_json_data(p, cur),
        }
    }
}

/// Computes the document a pact write-out stores: the current session's
/// pact when overwriting, else the merge with what is on disk.
pub fn write_pact_contents(pact: &Pact, existing: Option<&JsonValue>, overwrite: bool) -> (r:
    JsonValue)
    ensures
        r@ == write_contents_data(
            *pact,
            match existing {
                Some(v) => Some(v@),
                None => None,
            },
            overwrite,
        ),
{
    let mut current: Vec<JsonValue> = Vec::new();
    let mut i: usize = 0;
    while i < pact.interactions.len()
        invariant
            i <= pact.interactions@.len(),
            current@.len() == i,
            forall|j: int|
                0 <= j < i ==> crate::json::jdata_of(current@[j]) == interaction_json_data(
                    pact.interactions@[j],
                ),
        decreases pact.interactions@.len() - i,
    {
        current.push(pact.interactions[i].to_json());
        i = i + 1;
    }
    proof {
        assert(arr_elems_data(current@) =~= interactions_json_data(pact.interactions@));
    }
    if overwrite {
        return assemble_pact_json(pact, current);
    }
    let old_items: &Vec<JsonValue> = match existing {
        Some(doc) => match doc.get("interactions") {
            Some(iv) => match iv {
                JsonValue::Arr(items) => {
                    proof {
                        assert(crate::json::jdata_of(*iv)->Arr_0 =~= arr_elems_data(items@));
                    }
                    items
                },
                _ => {
                    return assemble_pact_json(pact, current);
                },
            },
            None => {
                return assemble_pact_json(pact, current);
            },
        },
        None => {
            return assemble_pact_json(pact, current);
        },
    };
    let ghost old_data = arr_elems_data(old_items@);
    let ghost cur_data = arr_elems_data(current@);
    let mut merged: Vec<JsonValue> = Vec::new();
    let mut k: usize = 0;
    while k < old_items.len()
        invariant
            old_data == arr_elems_data(old_items@),
            cur_data == arr_elems_data(current@),
            old_data.len() == old_items@.len(),
            k <= old_items@.len(),
            arr_elems_data(merged@) + merge_keep(old_data, cur_data, k as int) =~= merge_keep(
                old_data,
                cur_data,
                0,
            ),
        decreases old_items@.len() - k,
    {
        let ghost pre = merged@;
        if !has_identity_exec(&current, &old_items[k]) {
            merged.push(old_items[k].clone());
            proof {
                assert(arr_elems_data(merged@) =~= arr_elems_data(pre) + seq![
                    old_data[k as int],
                ]);
                assert(arr_elems_data(merged@) + merge_keep(old_data, cur_data, k as int + 1)
                    =~= merge_keep(old_data, cur_data, 0));
            }
        } else {
            proof {
                assert(arr_elems_data(merged@) + merge_keep(old_data, cur_data, k as int + 1)
                    =~= merge_keep(old_data, cur_data, 0));
            }
        }
        k = k + 1;
    }
    let mut current = current;
    let ghost merged_pre = merged@;
    merged.append(&mut current);
    proof {
        assert(arr_elems_data(merged@) =~= arr_elems_data(merged_pre) + cur_data);
        assert(arr_elems_data(merged@) =~= merge_data(old_data, cur_data));
    }
    assemble_pact_json(pact, merged)
}

/// Law: writing with overwrite always yields exactly the current session's
/// pact — whatever document is already on disk makes no difference.
pub proof fn lemma_overwrite_writes_current(
    p: Pact,
    existing1: Option<JsonData>,
    existing2: Option<JsonData>,
)
    ensures
        write_contents_data(p, existing1, true) == write_contents_data(p, existing2, true),
        write_contents_data(p, existing1, true) == pact_json_data(
            p,
            interactions_json_data(p.interactions@),
        ),
{
}

/// Law: merging disjoint interaction sets yields their union. When no
/// existing document shares an identity with a current one, the merged list
/// is the existing list followed by the current one — nothing is lost.
pub proof fn lemma_merge_disjoint_union(a: Seq<JsonData>, b: Seq<JsonData>)
    requires
        forall|i: int, j: int|
            0 <= i < a.len() && 0 <= j < b.len() ==> !json_identity_eq(b[j], a[i]),
    ensures
        merge_data(a, b) =~= a + b,
{
    lemma_merge_keep_all(a, b, 0);
    assert(merge_keep(a, b, 0) =~= a.skip(0));
    assert(a.skip(0) =~= a);
}

proof fn lemma_merge_keep_all(a: Seq<JsonData>, b: Seq<JsonData>, i: int)
    requires
        0 <= i <= a.len(),
        forall|x: int, j: int|
            0 <= x < a.len() && 0 <= j < b.len() ==> !json_identity_eq(b[j], a[x]),
    ensures
        merge_keep(a, b, i) =~= a.skip(i),
    decreases a.len() - i,
{
    if i < a.len() {
        assert(!has_identity(b, a[i]));
        lemma_merge_keep_all(a, b, i + 1);
        assert(merge_keep(a, b, i) =~= seq![a[i]] + merge_keep(a, b, i + 1));
        assert(a.skip(i) =~= seq![a[i]] + a.skip(i + 1));
    }
}

} // verus!
