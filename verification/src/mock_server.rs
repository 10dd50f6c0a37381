//! A mock server's state: its expected interactions, its append-only
//! mismatch log, and pact-file write-out. Listening and request transport
//! live with the caller; the state and the decisions live here.

use vstd::prelude::*;
use crate::json::{JsonData, JsonValue};
use crate::json_codec::{json_text, json_text_of, serde_canon};
use crate::pact::{write_contents_data, write_pact_contents, Pact};
use crate::path_exp::PathExpression;
use crate::strings::str_eq;

verus! {

/// One recorded discrepancy between an actual and an expected value.
#[derive(Debug)]
pub struct MismatchEntry {
    /// The expected value, rendered.
    pub expected: String,
    /// The actual value, rendered.
    pub actual: String,
    /// A human-readable description of the discrepancy.
    pub mismatch: String,
    /// The path the discrepancy was found at.
    pub path: String,
    /// An optional textual diff.
    pub diff: Option<String>,
}

/// Spec-level mirror of `MismatchEntry`.
pub struct MismatchData {
    /// The expected value, rendered.
    pub expected: Seq<char>,
    /// The actual value, rendered.
    pub actual: Seq<char>,
    /// A human-readable description of the discrepancy.
    pub mismatch: Seq<char>,
    /// The path the discrepancy was found at.
    pub path: Seq<char>,
    /// An optional textual diff.
    pub diff: Option<Seq<char>>,
}

impl View for MismatchEntry {
    type V = MismatchData;

    open spec fn view(&self) -> MismatchData {
        MismatchData {
            expected: self.expected@,
            actual: self.actual@,
            mismatch: self.mismatch@,
            path: self.path@,
            diff: match &self.diff {
                Some(d) => Some(d@),
                None => None,
            },
        }
    }
}

/// The JSON a mismatch serializes to; a missing diff reads as the empty
/// string.
pub open spec fn mismatch_json_data(m: MismatchData) -> JsonData {
    JsonData::Obj(
        seq![
            ("expected"@, JsonData::Str(m.expected)),
            ("actual"@, JsonData::Str(m.actual)),
            ("mismatch"@, JsonData::Str(m.mismatch)),
            ("path"@, JsonData::Str(m.path)),
            (
                "diff"@,
                JsonData::Str(
                    match m.diff {
                        Some(d) => d,
                        None => Seq::empty(),
                    },
                ),
            ),
        ],
    )
}

impl MismatchEntry {
    /// Serializes this mismatch.
    pub fn to_json(&self) -> (r: JsonValue)
        ensures
            r@ == mismatch_json_data(self@),
    {
        let mut fields: Vec<(String, JsonValue)> = Vec::new();
        fields.push(("expected".to_owned(), JsonValue::Str(self.expected.clone())));
        fields.push(("actual".to_owned(), JsonValue::Str(self.actual.clone())));
        fields.push(("mismatch".to_owned(), JsonValue::Str(self.mismatch.clone())));
        fields.push(("path".to_owned(), JsonValue::Str(self.path.clone())));
        let diff = match &self.diff {
            Some(d) => d.clone(),
            None => String::new(),
        };
        fields.push(("diff".to_owned(), JsonValue::Str(diff)));
        let r = JsonValue::Obj(fields);
        proof {
            let got = (r->Obj_0)@;
            assert(crate::json::jdata_of(got[0].1) == JsonData::Str(self@.expected));
            assert(crate::json::jdata_of(got[1].1) == JsonData::Str(self@.actual));
            assert(crate::json::jdata_of(got[2].1) == JsonData::Str(self@.mismatch));
            assert(crate::json::jdata_of(got[3].1) == JsonData::Str(self@.path));
            assert(crate::json::jdata_of(got[4].1) == JsonData::Str(
                match self@.diff {
                    Some(d) => d,
                    None => Seq::empty(),
                },
            ));
            assert(r@->Obj_0 =~= mismatch_json_data(self@)->Obj_0);
        }
        r
    }
}

/// Configuration for a mock server.
#[derive(Debug, Clone)]
pub struct MockServerConfig {
    /// Answer CORS preflight requests.
    pub cors_preflight: bool,
    /// Serve over a TLS listener.
    pub tls: bool,
}

impl Default for MockServerConfig {
    /// Plain HTTP, no CORS preflight handling.
    fn default() -> (r: Self)
        ensures
            !r.cors_preflight,
            !r.tls,
    {
        MockServerConfig { cors_preflight: false, tls: false }
    }
}

/// One running mock server: its expected interactions, its bound port, and
/// the session's append-only mismatch log.
#[derive(Debug)]
pub struct MockServer {
    /// The unique id the server was registered under.
    pub id: String,
    /// The port the listener is bound to.
    pub port: u16,
    /// The expected interactions.
    pub pact: Pact,
    /// The append-only mismatch log.
    pub mismatches: Vec<MismatchEntry>,
    /// The server's configuration.
    pub config: MockServerConfig,
}

impl MockServer {
    /// A fresh mock server with an empty mismatch log.
    pub fn new(id: String, pact: Pact, port: u16, config: MockServerConfig) -> (r: MockServer)
        ensures
            r.id@ == id@,
            r.port == port,
            r.pact == pact,
            r.mismatches@.len() == 0,
            r.config == config,
    {
        MockServer { id, port, pact, mismatches: Vec::new(), config }
    }

    /// The accumulated mismatch log.
    pub fn mismatches<'a>(&'a self) -> (r: &'a Vec<MismatchEntry>)
        ensures
            r == &self.mismatches,
    {
        &self.mismatches
    }

    /// Appends one mismatch to the session log; nothing is ever removed.
    pub fn add_mismatch(&mut self, m: MismatchEntry)
        ensures
            final(self).mismatches@ == old(self).mismatches@.push(m),
            final(self).id == old(self).id,
            final(self).port == old(self).port,
            final(self).pact == old(self).pact,
            final(self).config == old(self).config,
    {
        self.mismatches.push(m);
    }

    /// True when every request so far has matched: the log is empty.
    pub fn matched(&self) -> (r: bool)
        ensures
            r == (self.mismatches@.len() == 0),
    {
        self.mismatches.len() == 0
    }

    /// The session's mismatches as a JSON array, rendered as text.
    pub fn mismatches_json(&self) -> (r: String)
        ensures
            r@ == json_text_of(
                serde_canon(
                    JsonData::Arr(
                        Seq::new(
                            self.mismatches@.len(),
                            |i: int|
                                if 0 <= i < self.mismatches@.len() {
                                    mismatch_json_data(self.mismatches@[i]@)
                                } else {
                                    JsonData::Null
                                },
                        ),
                    ),
                ),
            ),
    {
        let mut items: Vec<JsonValue> = Vec::new();
        let mut i: usize = 0;
        while i < self.mismatches.len()
            invariant
                i <= self.mismatches@.len(),
                items@.len() == i,
                forall|j: int|
                    0 <= j < i ==> crate::json::jdata_of(items@[j]) == mismatch_json_data(
                        self.mismatches@[j]@,
                    ),
            decreases self.mismatches@.len() - i,
        {
            items.push(self.mismatches[i].to_json());
            i = i + 1;
        }
        let arr = JsonValue::Arr(items);
        proof {
            assert(arr@->Arr_0 =~= Seq::new(
                self.mismatches@.len(),
                |i: int|
                    if 0 <= i < self.mismatches@.len() {
                        mismatch_json_data(self.mismatches@[i]@)
                    } else {
                        JsonData::Null
                    },
            ));
        }
        json_text(&arr)
    }

    /// The write-out plan for this server's pact: the default file name, and
    /// the document to store — the current session's pact when overwriting,
    /// else the merge with the document already on disk.
    pub fn write_pact_plan(&self, existing: Option<&JsonValue>, overwrite: bool) -> (r: (
        String,
        JsonValue,
    ))
        ensures
            r.0@ == self.pact.consumer.name@ + "-"@ + self.pact.provider.name@ + ".json"@,
            r.1@ == write_contents_data(
                self.pact,
                match existing {
                    Some(v) => Some(v@),
                    None => None,
                },
                overwrite,
            ),
    {
        let name = self.pact.default_file_name();
        let contents = write_pact_contents(&self.pact, existing, overwrite);
        (name, contents)
    }

    /// The first expected interaction accepting the request line; `None`
    /// exactly when no interaction does.
    pub fn find_matching_interaction(&self, method: &str, path: &str) -> (r: Option<usize>)
        ensures
            match r {
                Some(i) => accept_idx_from(self.pact.interactions@, method@, path@, 0)
                    == i as int && i < self.pact.interactions@.len(),
                None => accept_idx_from(self.pact.interactions@, method@, path@, 0) < 0,
            },
    {
        let ghost ias = self.pact.interactions@;
        let mut i: usize = 0;
        while i < self.pact.interactions.len()
            invariant
                ias == self.pact.interactions@,
                i <= ias.len(),
                accept_idx_from(ias, method@, path@, 0) == accept_idx_from(
                    ias,
                    method@,
                    path@,
                    i as int,
                ),
            decreases self.pact.interactions@.len() - i,
        {
            let ia = &self.pact.interactions[i];
            if str_eq(ia.request_method.as_str(), method) && str_eq(
                ia.request_path.as_str(),
                path,
            ) {
                return Some(i);
            }
            i = i + 1;
        }
        None
    }
}

/// The index of the first interaction accepting the request line, scanning
/// from `i`; -1 when none does.
pub open spec fn accept_idx_from(
    ias: Seq<crate::pact::Interaction>,
    method: Seq<char>,
    path: Seq<char>,
    i: int,
) -> int
    decreases ias.len() - i,
{
    if i < 0 || i >= ias.len() {
        -1
    } else if interaction_accepts(ias[i], method, path) {
        i
    } else {
        accept_idx_from(ias, method, path, i + 1)
    }
}

/// Does the request satisfy every rule category the interaction owns: the
/// query parameters, the headers and the body, each walked against its
/// expected tree under its own rules?
pub open spec fn request_matches(
    ia: crate::pact::Interaction,
    query: JsonData,
    headers: JsonData,
    body: JsonData,
) -> bool {
    &&& crate::matching::tree_matches(ia.query_rules@, Seq::empty(), ia.request_query@, query)
    &&& crate::matching::tree_matches(
        ia.header_rules@,
        Seq::empty(),
        ia.request_headers@,
        headers,
    )
    &&& crate::matching::tree_matches(ia.matching_rules@, Seq::empty(), ia.request_body@, body)
}

/// The first interaction that both accepts the request line and matches the
/// whole request under its rules, scanning from `i`; -1 when none does.
/// Candidates tying on the request line are narrowed by their rules.
pub open spec fn matching_idx_from(
    ias: Seq<crate::pact::Interaction>,
    method: Seq<char>,
    path: Seq<char>,
    query: JsonData,
    headers: JsonData,
    body: JsonData,
    i: int,
) -> int
    decreases ias.len() - i,
{
    if i < 0 || i >= ias.len() {
        -1
    } else if interaction_accepts(ias[i], method, path) && request_matches(
        ias[i],
        query,
        headers,
        body,
    ) {
        i
    } else {
        matching_idx_from(ias, method, path, query, headers, body, i + 1)
    }
}

impl MockServer {
    /// Handles one inbound request: selects the first expected interaction
    /// that accepts the request line and whose rules match the query, the
    /// headers and the body — candidates tying on the request line are
    /// narrowed by their rules — and appends exactly one mismatch to the
    /// session log when none does. Returns the index of the matched
    /// interaction, whose response the caller replays after applying
    /// generators.
    pub fn check_request(
        &mut self,
        method: &str,
        path: &str,
        query: &JsonValue,
        headers: &JsonValue,
        body: &JsonValue,
    ) -> (r: Option<usize>)
        ensures
            final(self).id == old(self).id,
            final(self).port == old(self).port,
            final(self).pact == old(self).pact,
            final(self).config == old(self).config,
            ({
                let ias = old(self).pact.interactions@;
                let at = matching_idx_from(ias, method@, path@, query@, headers@, body@, 0);
                let fa = accept_idx_from(ias, method@, path@, 0);
                match r {
                    Some(i) => at == i as int && final(self).mismatches@ == old(self).mismatches@,
                    None => {
                        &&& at < 0
                        &&& final(self).mismatches@.len() == old(self).mismatches@.len() + 1
                        &&& final(self).mismatches@.subrange(
                            0,
                            old(self).mismatches@.len() as int,
                        ) == old(self).mismatches@
                        &&& final(self).mismatches@.last()@ == (MismatchData {
                            expected: if fa >= 0 {
                                json_text_of(serde_canon(ias[fa].request_body@))
                            } else {
                                method@ + " "@ + path@
                            },
                            actual: json_text_of(serde_canon(body@)),
                            mismatch: if fa >= 0 {
                                "Request did not match the expected interaction"@
                            } else {
                                "No matching interaction found"@
                            },
                            path: "$"@,
                            diff: None,
                        })
                    },
                }
            }),
    {
        let ghost ias = self.pact.interactions@;
        let root = PathExpression::root();
        proof {
            assert(root@ =~= Seq::<crate::path_exp::TokenData>::empty());
        }
        let mut i: usize = 0;
        while i < self.pact.interactions.len()
            invariant
                *self == *old(self),
                ias == self.pact.interactions@,
                i <= ias.len(),
                root@ == Seq::<crate::path_exp::TokenData>::empty(),
                matching_idx_from(ias, method@, path@, query@, headers@, body@, 0)
                    == matching_idx_from(ias, method@, path@, query@, headers@, body@, i as int),
            decreases ias.len() - i,
        {
            let ia = &self.pact.interactions[i];
            let accepts = str_eq(ia.request_method.as_str(), method) && str_eq(
                ia.request_path.as_str(),
                path,
            );
            if accepts {
                let ok = crate::matching::match_json_tree(
                    &ia.query_rules,
                    &root,
                    &ia.request_query,
                    query,
                ) && crate::matching::match_json_tree(
                    &ia.header_rules,
                    &root,
                    &ia.request_headers,
                    headers,
                ) && crate::matching::match_json_tree(
                    &ia.matching_rules,
                    &root,
                    &ia.request_body,
                    body,
                );
                if ok {
                    return Some(i);
                }
            }
            i = i + 1;
        }
        let expected = match self.find_matching_interaction(method, path) {
            Some(fa) => crate::json_codec::json_text(&self.pact.interactions[fa].request_body),
            None => request_line_text(method, path),
        };
        let message = match self.find_matching_interaction(method, path) {
            Some(_) => "Request did not match the expected interaction".to_owned(),
            None => "No matching interaction found".to_owned(),
        };
        let entry = MismatchEntry {
            expected,
            actual: crate::json_codec::json_text(body),
            mismatch: message,
            path: "$".to_owned(),
            diff: None,
        };
        let ghost pre = self.mismatches@;
        self.add_mismatch(entry);
        proof {
            assert(self.mismatches@.subrange(0, pre.len() as int) =~= pre);
        }
        None
    }
}

/// The request line a mismatch reports as expected.
fn request_line_text(method: &str, path: &str) -> (r: String)
    ensures
        r@ == method@ + " "@ + path@,
{
    let head = crate::strings::str_concat(method, " ");
    crate::strings::str_concat(head.as_str(), path)
}

/// Does an interaction accept a request line: the method equal, and the
/// path equal.
pub open spec fn interaction_accepts(
    ia: crate::pact::Interaction,
    method: Seq<char>,
    path: Seq<char>,
) -> bool {
    ia.request_method@ == method && ia.request_path@ == path
}

} // verus!
