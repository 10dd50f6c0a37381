//! Core pact model types: the specification version, the consumer and
//! provider identities, and HTTP status classes.

use vstd::prelude::*;
use crate::json::{jdata_of, JsonData, JsonNum, JsonValue, NumData};
use crate::json_codec::{json_string_data, json_text, json_text_of, json_to_string, serde_canon};
use crate::strings::{dec_digits, parse_u16, str_as_u16, str_concat, str_eq, u64_to_dec};

verus! {

/// Enumeration of the types of differences between requests and responses.
#[derive(PartialEq, Eq, Structural, Debug, Clone)]
pub enum DifferenceType {
    /// Methods differ
    Method,
    /// Paths differ
    Path,
    /// Headers differ
    Headers,
    /// Query parameters differ
    QueryParameters,
    /// Bodies differ
    Body,
    /// Matching rules differ
    MatchingRules,
    /// Response status differ
    Status,
}

/// Pact specification versions supported by the library.
#[derive(PartialEq, Eq, Structural, Debug, Clone, Copy)]
pub enum PactSpecification {
    /// Unknown or unsupported specification version
    Unknown,
    /// First version of the pact specification
    V1,
    /// Specification version 1.1
    V1_1,
    /// Specification version 2
    V2,
    /// Specification version 3
    V3,
    /// Specification version 4
    V4,
}

impl Default for PactSpecification {
    /// The default version is the unknown one.
    fn default() -> (r: Self)
        ensures
            r == PactSpecification::Unknown,
    {
        PactSpecification::Unknown
    }
}

/// The lenient semantic-version reading of a text: its major and minor
/// numbers, `None` where no version can be read at all.
pub uninterp spec fn semver_major_minor_of(s: Seq<char>) -> Option<(u64, u64)>;

/// Relies on lenient_semver::parse: a lenient parse of a semantic version,
/// deterministic in the text; `Err` exactly where no version can be read.
#[verifier::external_body]
fn semver_major_minor(input: &str) -> (r: Option<(u64, u64)>)
    ensures
        r == semver_major_minor_of(input@),
{
    lenient_semver::parse(input).ok().map(|v| (v.major, v.minor))
}

/// Why a specification-version string was rejected.
#[derive(Debug)]
pub enum SpecVersionError {
    /// No version at all, or a major version outside the specification family.
    Invalid(String),
    /// A known major version with an unsupported minor version.
    Unsupported(String),
}

impl PactSpecification {
    /// The semantic version string of the specification version.
    pub open spec fn spec_version_str(self) -> Seq<char> {
        match self {
            PactSpecification::V1 => "1.0.0"@,
            PactSpecification::V1_1 => "1.1.0"@,
            PactSpecification::V2 => "2.0.0"@,
            PactSpecification::V3 => "3.0.0"@,
            PactSpecification::V4 => "4.0"@,
            PactSpecification::Unknown => "unknown"@,
        }
    }

    /// Returns the semantic version string of the specification version.
    pub fn version_str(&self) -> (r: String)
        ensures
            r@ == self.spec_version_str(),
    {
        match self {
            PactSpecification::V1 => "1.0.0".to_owned(),
            PactSpecification::V1_1 => "1.1.0".to_owned(),
            PactSpecification::V2 => "2.0.0".to_owned(),
            PactSpecification::V3 => "3.0.0".to_owned(),
            PactSpecification::V4 => "4.0".to_owned(),
            PactSpecification::Unknown => "unknown".to_owned(),
        }
    }

    /// The specification version a parsed (major, minor) pair denotes.
    pub open spec fn of_major_minor(m: u64, n: u64) -> Option<PactSpecification> {
        if m == 1 && n == 0 {
            Some(PactSpecification::V1)
        } else if m == 1 && n == 1 {
            Some(PactSpecification::V1_1)
        } else if m == 2 && n == 0 {
            Some(PactSpecification::V2)
        } else if m == 3 && n == 0 {
            Some(PactSpecification::V3)
        } else if m == 4 && n == 0 {
            Some(PactSpecification::V4)
        } else {
            None
        }
    }

    /// Parse a version string into a PactSpecification.
    ///
    /// Fails with `Invalid` where no version can be read or the major version
    /// is out of range, and with `Unsupported` where a known major version
    /// carries an unsupported minor version.
    pub fn parse_version(input: &str) -> (r: Result<PactSpecification, SpecVersionError>)
        ensures
            match r {
                Ok(v) => semver_major_minor_of(input@) matches Some(mm)
                    && PactSpecification::of_major_minor(mm.0, mm.1) == Some(v),
                Err(SpecVersionError::Unsupported(s)) => s@ == input@ && (
                semver_major_minor_of(input@) matches Some(mm) && 1 <= mm.0 <= 4
                    && PactSpecification::of_major_minor(mm.0, mm.1) is None),
                Err(SpecVersionError::Invalid(s)) => s@ == input@ && (match semver_major_minor_of(
                    input@,
                ) {
                    Some(mm) => !(1 <= mm.0 <= 4),
                    None => true,
                }),
            },
    {
        match semver_major_minor(input) {
            Some((major, minor)) => {
                if major >= 1 && major <= 4 {
                    match (major, minor) {
                        (1, 0) => Ok(PactSpecification::V1),
                        (1, 1) => Ok(PactSpecification::V1_1),
                        (2, 0) => Ok(PactSpecification::V2),
                        (3, 0) => Ok(PactSpecification::V3),
                        (4, 0) => Ok(PactSpecification::V4),
                        _ => Err(SpecVersionError::Unsupported(input.to_owned())),
                    }
                } else {
                    Err(SpecVersionError::Invalid(input.to_owned()))
                }
            },
            None => Err(SpecVersionError::Invalid(input.to_owned())),
        }
    }
}

impl PactSpecification {
    /// The version a tag such as `V3` or `v1.1` names, ignoring ASCII case;
    /// anything else is unknown.
    pub open spec fn spec_of_tag(s: Seq<char>) -> PactSpecification {
        if crate::strings::ascii_caseless_eq(s, "v1"@) {
            PactSpecification::V1
        } else if crate::strings::ascii_caseless_eq(s, "v1.1"@) {
            PactSpecification::V1_1
        } else if crate::strings::ascii_caseless_eq(s, "v2"@) {
            PactSpecification::V2
        } else if crate::strings::ascii_caseless_eq(s, "v3"@) {
            PactSpecification::V3
        } else if crate::strings::ascii_caseless_eq(s, "v4"@) {
            PactSpecification::V4
        } else {
            PactSpecification::Unknown
        }
    }

    /// The short display tag of the specification version.
    pub fn display_str(&self) -> (r: String)
        ensures
            match self {
                PactSpecification::V1 => r@ == "V1"@,
                PactSpecification::V1_1 => r@ == "V1.1"@,
                PactSpecification::V2 => r@ == "V2"@,
                PactSpecification::V3 => r@ == "V3"@,
                PactSpecification::V4 => r@ == "V4"@,
                PactSpecification::Unknown => r@ == "unknown"@,
            },
    {
        match self {
            PactSpecification::V1 => "V1".to_owned(),
            PactSpecification::V1_1 => "V1.1".to_owned(),
            PactSpecification::V2 => "V2".to_owned(),
            PactSpecification::V3 => "V3".to_owned(),
            PactSpecification::V4 => "V4".to_owned(),
            PactSpecification::Unknown => "unknown".to_owned(),
        }
    }
}

impl From<&str> for PactSpecification {
    /// Reads a version tag such as `V3`, ignoring ASCII case.
    fn from(s: &str) -> (r: Self) {
        if crate::strings::str_caseless_eq(s, "v1") {
            PactSpecification::V1
        } else if crate::strings::str_caseless_eq(s, "v1.1") {
            PactSpecification::V1_1
        } else if crate::strings::str_caseless_eq(s, "v2") {
            PactSpecification::V2
        } else if crate::strings::str_caseless_eq(s, "v3") {
            PactSpecification::V3
        } else if crate::strings::str_caseless_eq(s, "v4") {
            PactSpecification::V4
        } else {
            PactSpecification::Unknown
        }
    }
}

impl vstd::std_specs::convert::FromSpecImpl<&str> for PactSpecification {
    open spec fn obeys_from_spec() -> bool {
        true
    }

    open spec fn from_spec(s: &str) -> Self {
        PactSpecification::spec_of_tag(s@)
    }
}

impl SpecVersionError {
    /// The human-readable message for this rejection.
    pub fn message(&self) -> (r: String)
        ensures
            match self {
                SpecVersionError::Invalid(s) => r@ == "Invalid specification version '"@ + s@
                    + "'"@,
                SpecVersionError::Unsupported(s) => r@ == "Unsupported specification version '"@
                    + s@ + "'"@,
            },
    {
        match self {
            SpecVersionError::Invalid(s) => {
                let head = str_concat("Invalid specification version '", s.as_str());
                str_concat(head.as_str(), "'")
            },
            SpecVersionError::Unsupported(s) => {
                let head = str_concat("Unsupported specification version '", s.as_str());
                str_concat(head.as_str(), "'")
            },
        }
    }
}

/// Enum that defines the different types of HTTP statuses.
#[derive(Debug)]
pub enum HttpStatus {
    /// Informational responses (100-199)
    Information,
    /// Successful responses (200-299)
    Success,
    /// Redirects (300-399)
    Redirect,
    /// Client errors (400-499)
    ClientError,
    /// Server errors (500-599)
    ServerError,
    /// Explicit status codes
    StatusCodes(Vec<u16>),
    /// Non-error response (< 400)
    NonError,
    /// Any error response (>= 400)
    Error,
}

/// Spec-level mirror of `HttpStatus`.
pub enum StatusData {
    /// Informational responses (100-199)
    Information,
    /// Successful responses (200-299)
    Success,
    /// Redirects (300-399)
    Redirect,
    /// Client errors (400-499)
    ClientError,
    /// Server errors (500-599)
    ServerError,
    /// Explicit status codes
    StatusCodes(Seq<u16>),
    /// Non-error response (< 400)
    NonError,
    /// Any error response (>= 400)
    Error,
}

impl View for HttpStatus {
    type V = StatusData;

    open spec fn view(&self) -> StatusData {
        match self {
            HttpStatus::Information => StatusData::Information,
            HttpStatus::Success => StatusData::Success,
            HttpStatus::Redirect => StatusData::Redirect,
            HttpStatus::ClientError => StatusData::ClientError,
            HttpStatus::ServerError => StatusData::ServerError,
            HttpStatus::StatusCodes(cs) => StatusData::StatusCodes(cs@),
            HttpStatus::NonError => StatusData::NonError,
            HttpStatus::Error => StatusData::Error,
        }
    }
}

impl Clone for HttpStatus {
    /// A copy with the same model value.
    fn clone(&self) -> (r: Self)
        ensures
            r@ == self@,
    {
        match self {
            HttpStatus::Information => HttpStatus::Information,
            HttpStatus::Success => HttpStatus::Success,
            HttpStatus::Redirect => HttpStatus::Redirect,
            HttpStatus::ClientError => HttpStatus::ClientError,
            HttpStatus::ServerError => HttpStatus::ServerError,
            HttpStatus::StatusCodes(cs) => {
                let mut out: Vec<u16> = Vec::new();
                let mut i: usize = 0;
                while i < cs.len()
                    invariant
                        i <= cs@.len(),
                        out@ == cs@.subrange(0, i as int),
                    decreases cs@.len() - i,
                {
                    out.push(cs[i]);
                    proof {
                        assert(out@ =~= cs@.subrange(0, i + 1));
                    }
                    i = i + 1;
                }
                proof {
                    assert(cs@.subrange(0, cs@.len() as int) =~= cs@);
                }
                HttpStatus::StatusCodes(out)
            },
            HttpStatus::NonError => HttpStatus::NonError,
            HttpStatus::Error => HttpStatus::Error,
        }
    }
}

/// Why a JSON value does not denote an HTTP status.
#[derive(Debug)]
pub enum HttpStatusError {
    /// A string that names no status class; carries that string.
    InvalidValue(String),
    /// A JSON value of the wrong shape; carries its rendered text.
    InvalidJson(String),
}

/// The status class a label names.
pub open spec fn status_label_of(s: Seq<char>) -> Option<StatusData> {
    if s == "info"@ {
        Some(StatusData::Information)
    } else if s == "success"@ {
        Some(StatusData::Success)
    } else if s == "redirect"@ {
        Some(StatusData::Redirect)
    } else if s == "clientError"@ {
        Some(StatusData::ClientError)
    } else if s == "serverError"@ {
        Some(StatusData::ServerError)
    } else if s == "nonError"@ {
        Some(StatusData::NonError)
    } else if s == "error"@ {
        Some(StatusData::Error)
    } else {
        None
    }
}

/// The status code a JSON array element denotes: integers are truncated to
/// 16 bits, strings are read as decimal.
pub open spec fn code_of_elem(e: JsonData) -> Option<u16> {
    match e {
        JsonData::Num(NumData::U(u)) => Some((u % 0x10000) as u16),
        JsonData::Num(NumData::I(i)) => Some((((i % 0x10000) + 0x10000) % 0x10000) as u16),
        JsonData::Str(s) => str_as_u16(s),
        _ => None,
    }
}

/// The status codes a JSON array denotes, `None` as soon as one element is
/// no status code.
pub open spec fn codes_of_elems(es: Seq<JsonData>) -> Option<Seq<u16>>
    decreases es.len(),
{
    if es.len() == 0 {
        Some(Seq::empty())
    } else {
        match (codes_of_elems(es.drop_last()), code_of_elem(es.last())) {
            (Some(cs), Some(c)) => Some(cs.push(c)),
            _ => None,
        }
    }
}

proof fn lemma_codes_elem_bad(es: Seq<JsonData>, j: int)
    requires
        0 <= j < es.len(),
        code_of_elem(es[j]) is None,
    ensures
        codes_of_elems(es) is None,
    decreases es.len(),
{
    if es.len() > 0 && j < es.len() - 1 {
        assert(es.drop_last()[j] == es[j]);
        lemma_codes_elem_bad(es.drop_last(), j);
    }
}

impl HttpStatus {
    /// Parse a JSON value into an HttpStatus: a label string names a class,
    /// an array lists explicit codes; anything else is rejected.
    pub fn from_json(value: &JsonValue) -> (r: Result<HttpStatus, HttpStatusError>)
        ensures
            match r {
                Ok(st) => match value@ {
                    JsonData::Str(s) => status_label_of(s) == Some(st@),
                    JsonData::Arr(es) => codes_of_elems(es) == Some(st@->StatusCodes_0) && st@
                        is StatusCodes,
                    _ => false,
                },
                Err(HttpStatusError::InvalidValue(p)) => value@ matches JsonData::Str(s) && p@ == s
                    && status_label_of(s) is None,
                Err(HttpStatusError::InvalidJson(p)) => p@ == json_text_of(serde_canon(value@))
                    && (match value@ {
                    JsonData::Str(_) => false,
                    JsonData::Arr(es) => codes_of_elems(es) is None,
                    _ => true,
                }),
            },
    {
        match value {
            JsonValue::Str(s) => {
                if str_eq(s.as_str(), "info") {
                    Ok(HttpStatus::Information)
                } else if str_eq(s.as_str(), "success") {
                    Ok(HttpStatus::Success)
                } else if str_eq(s.as_str(), "redirect") {
                    Ok(HttpStatus::Redirect)
                } else if str_eq(s.as_str(), "clientError") {
                    Ok(HttpStatus::ClientError)
                } else if str_eq(s.as_str(), "serverError") {
                    Ok(HttpStatus::ServerError)
                } else if str_eq(s.as_str(), "nonError") {
                    Ok(HttpStatus::NonError)
                } else if str_eq(s.as_str(), "error") {
                    Ok(HttpStatus::Error)
                } else {
                    Err(HttpStatusError::InvalidValue(s.clone()))
                }
            },
            JsonValue::Arr(elems) => {
                let ghost es = value@->Arr_0;
                let mut codes: Vec<u16> = Vec::new();
                let mut i: usize = 0;
                while i < elems.len()
                    invariant
                        *value == JsonValue::Arr(*elems),
                        es == value@->Arr_0,
                        es.len() == elems@.len(),
                        forall|j: int| 0 <= j < es.len() ==> es[j] == jdata_of(elems@[j]),
                        i <= elems@.len(),
                        codes_of_elems(es.take(i as int)) == Some(codes@),
                    decreases elems@.len() - i,
                {
                    proof {
                        assert(es.take(i as int + 1).drop_last() =~= es.take(i as int));
                        assert(es.take(i as int + 1).last() == es[i as int]);
                    }
                    let code: u16 = match &elems[i] {
                        JsonValue::Num(JsonNum::U(u)) => (*u % 0x10000) as u16,
                        JsonValue::Num(JsonNum::I(v)) => (((*v % 0x10000) + 0x10000)
                            % 0x10000) as u16,
                        JsonValue::Str(s) => {
                            match parse_u16(s.as_str()) {
                                Some(c) => c,
                                None => {
                                    proof {
                                        lemma_codes_elem_bad(es, i as int);
                                    }
                                    return Err(HttpStatusError::InvalidJson(json_text(value)));
                                },
                            }
                        },
                        _ => {
                            proof {
                                lemma_codes_elem_bad(es, i as int);
                            }
                            return Err(HttpStatusError::InvalidJson(json_text(value)));
                        },
                    };
                    codes.push(code);
                    i = i + 1;
                }
                proof {
                    assert(es.take(es.len() as int) =~= es);
                }
                Ok(HttpStatus::StatusCodes(codes))
            },
            _ => Err(HttpStatusError::InvalidJson(json_text(value))),
        }
    }

    /// Generate the JSON value for this status.
    pub fn to_json(&self) -> (r: JsonValue)
        ensures
            match self@ {
                StatusData::StatusCodes(cs) => r@ matches JsonData::Arr(es) && es.len() == cs.len()
                    && (forall|i: int|
                    0 <= i < cs.len() ==> es[i] == JsonData::Num(NumData::U(cs[i] as u64))),
                StatusData::Information => r@ == JsonData::Str("info"@),
                StatusData::Success => r@ == JsonData::Str("success"@),
                StatusData::Redirect => r@ == JsonData::Str("redirect"@),
                StatusData::ClientError => r@ == JsonData::Str("clientError"@),
                StatusData::ServerError => r@ == JsonData::Str("serverError"@),
                StatusData::NonError => r@ == JsonData::Str("nonError"@),
                StatusData::Error => r@ == JsonData::Str("error"@),
            },
    {
        match self {
            HttpStatus::StatusCodes(codes) => {
                let mut elems: Vec<JsonValue> = Vec::new();
                let mut i: usize = 0;
                while i < codes.len()
                    invariant
                        i <= codes@.len(),
                        elems@.len() == i,
                        forall|j: int|
                            0 <= j < i ==> jdata_of(elems@[j]) == JsonData::Num(
                                NumData::U(codes@[j] as u64),
                            ),
                    decreases codes@.len() - i,
                {
                    elems.push(JsonValue::Num(JsonNum::U(codes[i] as u64)));
                    i = i + 1;
                }
                JsonValue::Arr(elems)
            },
            HttpStatus::Information => JsonValue::Str("info".to_owned()),
            HttpStatus::Success => JsonValue::Str("success".to_owned()),
            HttpStatus::Redirect => JsonValue::Str("redirect".to_owned()),
            HttpStatus::ClientError => JsonValue::Str("clientError".to_owned()),
            HttpStatus::ServerError => JsonValue::Str("serverError".to_owned()),
            HttpStatus::NonError => JsonValue::Str("nonError".to_owned()),
            HttpStatus::Error => JsonValue::Str("error".to_owned()),
        }
    }

    /// Does `code` fall in this status class?
    pub open spec fn spec_matches_status(d: StatusData, code: u16) -> bool {
        match d {
            StatusData::Information => 100 <= code <= 199,
            StatusData::Success => 200 <= code <= 299,
            StatusData::Redirect => 300 <= code <= 399,
            StatusData::ClientError => 400 <= code <= 499,
            StatusData::ServerError => 500 <= code <= 599,
            StatusData::StatusCodes(cs) => cs.contains(code),
            StatusData::NonError => code < 400,
            StatusData::Error => code >= 400,
        }
    }

    /// True when `code` falls in this status class.
    pub fn matches_status(&self, code: u16) -> (r: bool)
        ensures
            r == HttpStatus::spec_matches_status(self@, code),
    {
        match self {
            HttpStatus::Information => 100 <= code && code <= 199,
            HttpStatus::Success => 200 <= code && code <= 299,
            HttpStatus::Redirect => 300 <= code && code <= 399,
            HttpStatus::ClientError => 400 <= code && code <= 499,
            HttpStatus::ServerError => 500 <= code && code <= 599,
            HttpStatus::StatusCodes(cs) => {
                let mut i: usize = 0;
                while i < cs.len()
                    invariant
                        *self == HttpStatus::StatusCodes(*cs),
                        i <= cs@.len(),
                        forall|j: int| 0 <= j < i ==> cs@[j] != code,
                    decreases cs@.len() - i,
                {
                    if cs[i] == code {
                        proof {
                            assert(cs@.contains(code)) by {
                                assert(0 <= i < cs@.len() && cs@[i as int] == code);
                            }
                        }
                        return true;
                    }
                    i = i + 1;
                }
                proof {
                    assert(!cs@.contains(code));
                }
                false
            },
            HttpStatus::NonError => code < 400,
            HttpStatus::Error => code >= 400,
        }
    }

    /// The codes joined with a comma, for the textual form.
    pub open spec fn codes_join(cs: Seq<u16>) -> Seq<char>
        decreases cs.len(),
    {
        if cs.len() == 0 {
            Seq::empty()
        } else if cs.len() == 1 {
            dec_digits(cs[0] as nat)
        } else {
            HttpStatus::codes_join(cs.drop_last()) + ", "@ + dec_digits(cs.last() as nat)
        }
    }

    /// The human-readable form of this status class.
    pub fn display_str(&self) -> (r: String)
        ensures
            match self@ {
                StatusData::Information => r@ == "Informational response (100-199)"@,
                StatusData::Success => r@ == "Successful response (200-299)"@,
                StatusData::Redirect => r@ == "Redirect (300-399)"@,
                StatusData::ClientError => r@ == "Client error (400-499)"@,
                StatusData::ServerError => r@ == "Server error (500-599)"@,
                StatusData::StatusCodes(cs) => r@ == HttpStatus::codes_join(cs),
                StatusData::NonError => r@ == "Non-error response (< 400)"@,
                StatusData::Error => r@ == "Error response (>= 400)"@,
            },
    {
        match self {
            HttpStatus::Information => "Informational response (100-199)".to_owned(),
            HttpStatus::Success => "Successful response (200-299)".to_owned(),
            HttpStatus::Redirect => "Redirect (300-399)".to_owned(),
            HttpStatus::ClientError => "Client error (400-499)".to_owned(),
            HttpStatus::ServerError => "Server error (500-599)".to_owned(),
            HttpStatus::StatusCodes(cs) => {
                let mut out = String::new();
                let mut i: usize = 0;
                while i < cs.len()
                    invariant
                        i <= cs@.len(),
                        out@ == HttpStatus::codes_join(cs@.take(i as int)),
                    decreases cs@.len() - i,
                {
                    proof {
                        assert(cs@.take(i as int + 1).drop_last() =~= cs@.take(i as int));
                        assert(cs@.take(i as int + 1).last() == cs@[i as int]);
                    }
                    let num = u64_to_dec(cs[i] as u64);
                    if i == 0 {
                        out = num;
                    } else {
                        let with_sep = str_concat(out.as_str(), ", ");
                        out = str_concat(with_sep.as_str(), num.as_str());
                    }
                    i = i + 1;
                }
                proof {
                    assert(cs@.take(cs@.len() as int) =~= cs@);
                }
                out
            },
            HttpStatus::NonError => "Non-error response (< 400)".to_owned(),
            HttpStatus::Error => "Error response (>= 400)".to_owned(),
        }
    }
}

impl HttpStatusError {
    /// The human-readable message for this rejection.
    pub fn message(&self) -> (r: String)
        ensures
            match self {
                HttpStatusError::InvalidValue(s) => r@ == "'"@ + s@
                    + "' is not a valid value for an HTTP Status"@,
                HttpStatusError::InvalidJson(s) => r@ == "'"@ + s@
                    + "' is not a valid JSON value for an HTTP Status"@,
            },
    {
        match self {
            HttpStatusError::InvalidValue(s) => {
                let head = str_concat("'", s.as_str());
                str_concat(head.as_str(), "' is not a valid value for an HTTP Status")
            },
            HttpStatusError::InvalidJson(s) => {
                let head = str_concat("'", s.as_str());
                str_concat(head.as_str(), "' is not a valid JSON value for an HTTP Status")
            },
        }
    }
}

/// Expectation that a string contains the given substring.
#[derive(Debug)]
pub struct Contains {
    /// The substring expected to occur.
    pub expected: String,
}

/// Builds the expectation that a string contains `expected`.
pub fn contain(expected: &str) -> (r: Contains)
    ensures
        r.expected@ == expected@,
{
    Contains { expected: expected.to_owned() }
}

impl Contains {
    /// True when `actual` contains the expected substring.
    pub fn matches(&self, actual: &str) -> (r: bool)
        ensures
            r == crate::strings::contains_seq(actual@, self.expected@),
    {
        crate::strings::str_contains(actual, self.expected.as_str())
    }

    /// The message reported when `actual` does not contain the substring.
    pub fn failure_message(&self, actual: &str) -> (r: String)
        ensures
            r@ == "expected '"@ + actual@ + "' to contain '"@ + self.expected@ + "'"@,
    {
        let head = str_concat("expected '", actual);
        let mid = str_concat(head.as_str(), "' to contain '");
        let with_expected = str_concat(mid.as_str(), self.expected.as_str());
        str_concat(with_expected.as_str(), "'")
    }
}

/// The name a party reads from pact JSON: the `name` field as a string, or
/// the given fallback when the field is missing.
pub open spec fn party_name_data(d: JsonData, dflt: Seq<char>) -> Seq<char> {
    match crate::json::jdata_get(d, "name"@) {
        Some(v) => json_string_data(v),
        None => dflt,
    }
}

/// The JSON schema shape shared by the consumer and provider documents: an
/// object with a required string `name`.
pub open spec fn party_schema_data() -> JsonData {
    JsonData::Obj(
        seq![
            (
                "properties"@,
                JsonData::Obj(
                    seq![("name"@, JsonData::Obj(seq![("type"@, JsonData::Str("string"@))]))],
                ),
            ),
            ("required"@, JsonData::Arr(seq![JsonData::Str("name"@)])),
            ("type"@, JsonData::Str("object"@)),
        ],
    )
}

/// Builds the schema document for a consumer or provider.
fn build_party_schema() -> (r: JsonValue)
    ensures
        r@ == party_schema_data(),
{
    let mut name_shape: Vec<(String, JsonValue)> = Vec::new();
    name_shape.push(("type".to_owned(), JsonValue::Str("string".to_owned())));
    let ghost name_shapev = name_shape@;
    let mut properties: Vec<(String, JsonValue)> = Vec::new();
    properties.push(("name".to_owned(), JsonValue::Obj(name_shape)));
    let ghost propertiesv = properties@;
    let mut required: Vec<JsonValue> = Vec::new();
    required.push(JsonValue::Str("name".to_owned()));
    let ghost requiredv = required@;
    let mut fields: Vec<(String, JsonValue)> = Vec::new();
    fields.push(("properties".to_owned(), JsonValue::Obj(properties)));
    fields.push(("required".to_owned(), JsonValue::Arr(required)));
    fields.push(("type".to_owned(), JsonValue::Str("object".to_owned())));
    let r = JsonValue::Obj(fields);
    proof {
        let got = (r->Obj_0)@;
        assert((got[0].1)->Obj_0@ == propertiesv);
        assert((propertiesv[0].1)->Obj_0@ == name_shapev);
        assert(jdata_of(name_shapev[0].1) == JsonData::Str("string"@));
        assert(jdata_of(propertiesv[0].1)->Obj_0 =~= party_schema_data()->Obj_0[0].1->Obj_0[0].1->Obj_0);
        assert(jdata_of(got[0].1)->Obj_0 =~= party_schema_data()->Obj_0[0].1->Obj_0);
        assert((got[1].1)->Arr_0@ == requiredv);
        assert(jdata_of(requiredv[0]) == JsonData::Str("name"@));
        assert(jdata_of(got[1].1)->Arr_0 =~= party_schema_data()->Obj_0[1].1->Arr_0);
        assert(jdata_of(got[2].1) == JsonData::Str("object"@));
        assert(r@->Obj_0 =~= party_schema_data()->Obj_0);
    }
    r
}

/// Struct that defines the consumer of the pact.
#[derive(Debug, Clone)]
pub struct Consumer {
    /// Each consumer should have a unique name to identify it.
    pub name: String,
}

impl Consumer {
    /// Builds a `Consumer` from pact JSON; a missing name falls back to
    /// "consumer".
    pub fn from_json(pact_json: &JsonValue) -> (r: Consumer)
        ensures
            r.name@ == party_name_data(pact_json@, "consumer"@),
    {
        match pact_json.get("name") {
            Some(v) => Consumer { name: json_to_string(v) },
            None => Consumer { name: "consumer".to_owned() },
        }
    }

    /// Converts this `Consumer` to a JSON object.
    pub fn to_json(&self) -> (r: JsonValue)
        ensures
            r@ == JsonData::Obj(seq![("name"@, JsonData::Str(self.name@))]),
    {
        let mut fields: Vec<(String, JsonValue)> = Vec::new();
        fields.push(("name".to_owned(), JsonValue::Str(self.name.clone())));
        let r = JsonValue::Obj(fields);
        proof {
            assert((r->Obj_0)@[0].0@ == "name"@);
            assert(jdata_of((r->Obj_0)@[0].1) == JsonData::Str(self.name@));
            assert(r@->Obj_0 =~= seq![("name"@, JsonData::Str(self.name@))]);
        }
        r
    }


    /// Generate the JSON schema properties for the given specification
    /// version.
    pub fn schema(_spec_version: PactSpecification) -> (r: JsonValue)
        ensures
            r@ == party_schema_data(),
    {
        build_party_schema()
    }

    /// Verifies a consumer document's shape.
    pub fn verify_json(
        path: &str,
        pact_json: &JsonValue,
        strict: bool,
        spec_version: PactSpecification,
    ) -> (r: Vec<crate::verify_json::PactFileVerificationResult>)
        ensures
            r@.len() == crate::verify_json::party_findings(path@, pact_json@, strict).len(),
            forall|i: int|
                0 <= i < r@.len() ==> r@[i]@ == crate::verify_json::party_findings(
                    path@,
                    pact_json@,
                    strict,
                )[i],
    {
        crate::verify_json::verify_party_json(path, pact_json, strict, spec_version)
    }
}

/// Struct that defines a provider of a pact.
#[derive(Debug, Clone)]
pub struct Provider {
    /// Each provider should have a unique name to identify it.
    pub name: String,
}

impl Provider {
    /// Builds a `Provider` from pact JSON; a missing name falls back to
    /// "provider".
    pub fn from_json(pact_json: &JsonValue) -> (r: Provider)
        ensures
            r.name@ == party_name_data(pact_json@, "provider"@),
    {
        match pact_json.get("name") {
            Some(v) => Provider { name: json_to_string(v) },
            None => Provider { name: "provider".to_owned() },
        }
    }

    /// Converts this `Provider` to a JSON object.
    pub fn to_json(&self) -> (r: JsonValue)
        ensures
            r@ == JsonData::Obj(seq![("name"@, JsonData::Str(self.name@))]),
    {
        let mut fields: Vec<(String, JsonValue)> = Vec::new();
        fields.push(("name".to_owned(), JsonValue::Str(self.name.clone())));
        let r = JsonValue::Obj(fields);
        proof {
            assert((r->Obj_0)@[0].0@ == "name"@);
            assert(jdata_of((r->Obj_0)@[0].1) == JsonData::Str(self.name@));
            assert(r@->Obj_0 =~= seq![("name"@, JsonData::Str(self.name@))]);
        }
        r
    }


    /// Generate the JSON schema properties for the given specification
    /// version.
    pub fn schema(_spec_version: PactSpecification) -> (r: JsonValue)
        ensures
            r@ == party_schema_data(),
    {
        build_party_schema()
    }

    /// Verifies a provider document's shape.
    pub fn verify_json(
        path: &str,
        pact_json: &JsonValue,
        strict: bool,
        spec_version: PactSpecification,
    ) -> (r: Vec<crate::verify_json::PactFileVerificationResult>)
        ensures
            r@.len() == crate::verify_json::party_findings(path@, pact_json@, strict).len(),
            forall|i: int|
                0 <= i < r@.len() ==> r@[i]@ == crate::verify_json::party_findings(
                    path@,
                    pact_json@,
                    strict,
                )[i],
    {
        crate::verify_json::verify_party_json(path, pact_json, strict, spec_version)
    }
}

} // verus!
