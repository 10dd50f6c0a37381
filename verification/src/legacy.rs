//! The flat mock-server control surface: start servers, query matching,
//! fetch mismatches, plan pact write-out, and shut servers down — each
//! operation against an explicitly passed registry.

use vstd::prelude::*;
use crate::json::{JsonData, JsonValue};
use crate::json_codec::{json_text, json_text_of, parse_json, json_parse_of, serde_canon};
use crate::mock_server::{mismatch_json_data, MockServerConfig};
use crate::pact::{pact_of_data, write_contents_data, Pact};
use crate::server_manager::{
    find_id_from,
    find_port_from,
    native_record_added,
    ServerEntry,
    ServerManager,
};
use crate::strings::dec_digits;

verus! {

/// Errors starting a mock server from raw pact JSON.
#[derive(Debug)]
pub enum MockServerError {
    /// The given pact JSON could not be parsed.
    InvalidPactJson,
    /// The mock server could not be started.
    MockServerFailedToStart,
}

/// Errors writing a pact file out.
#[derive(Debug)]
pub enum WritePactFileErr {
    /// The file could not be written.
    IOError,
    /// No mock server is running on the given port.
    NoMockServer,
}

/// The port a signed port number denotes, reduced to 16 bits.
pub open spec fn port_of_i32(p: i32) -> u16 {
    (((p % 0x10000) + 0x10000) % 0x10000) as u16
}

fn port_to_u16(p: i32) -> (r: u16)
    ensures
        r == port_of_i32(p),
{
    (((p % 0x10000) + 0x10000) % 0x10000) as u16
}

/// The error document reported for a plugin-run server, which this registry
/// cannot ask for its results.
pub open spec fn plugin_results_error_data() -> JsonData {
    JsonData::Obj(
        seq![("error"@, JsonData::Str("Mock server results from plugins are not available"@))],
    )
}

/// Relies on uuid::Uuid::new_v4 and its hyphenated text form; the id is
/// random, so nothing is promised of its value.
#[verifier::external_body]
fn new_uuid_string() -> (r: String)
{
    uuid::Uuid::new_v4().to_string()
}

/// Starts a mock server with the given unique id on an already-bound port,
/// with the default configuration. Returns the port, or a message when the
/// id is taken.
pub fn start_mock_server(
    manager: &mut ServerManager,
    id: String,
    pact: Pact,
    port: u16,
) -> (r: Result<i32, String>)
    ensures
        old(manager).wf() ==> final(manager).wf(),
        match r {
            Ok(p) => {
                &&& p == port as i32
                &&& find_id_from(old(manager).servers@, id@, 0) < 0
                &&& find_port_from(old(manager).servers@, port, 0) < 0
                &&& native_record_added(
                    old(manager).servers@,
                    final(manager).servers@,
                    id@,
                    pact,
                    port,
                    (MockServerConfig { cors_preflight: false, tls: false }),
                )
                &&& find_port_from(final(manager).servers@, port, 0) >= 0
                &&& find_id_from(final(manager).servers@, id@, 0) >= 0
            },
            Err(msg) => {
                &&& *final(manager) == *old(manager)
                &&& ((msg@ == "Mock server with id '"@ + id@ + "' is already running"@
                    && find_id_from(old(manager).servers@, id@, 0) >= 0) || (msg@ == "Port "@
                    + dec_digits(port as nat) + " is already bound by a mock server"@
                    && find_id_from(old(manager).servers@, id@, 0) < 0 && find_port_from(
                    old(manager).servers@,
                    port,
                    0,
                ) >= 0))
            },
        },
{
    start_mock_server_with_config(manager, id, pact, port, MockServerConfig::default())
}

/// Starts a mock server with the given unique id, port and configuration.
pub fn start_mock_server_with_config(
    manager: &mut ServerManager,
    id: String,
    pact: Pact,
    port: u16,
    config: MockServerConfig,
) -> (r: Result<i32, String>)
    ensures
        old(manager).wf() ==> final(manager).wf(),
        match r {
            Ok(p) => {
                &&& p == port as i32
                &&& find_id_from(old(manager).servers@, id@, 0) < 0
                &&& find_port_from(old(manager).servers@, port, 0) < 0
                &&& native_record_added(
                    old(manager).servers@,
                    final(manager).servers@,
                    id@,
                    pact,
                    port,
                    config,
                )
                &&& find_port_from(final(manager).servers@, port, 0) >= 0
                &&& find_id_from(final(manager).servers@, id@, 0) >= 0
            },
            Err(msg) => {
                &&& *final(manager) == *old(manager)
                &&& ((msg@ == "Mock server with id '"@ + id@ + "' is already running"@
                    && find_id_from(old(manager).servers@, id@, 0) >= 0) || (msg@ == "Port "@
                    + dec_digits(port as nat) + " is already bound by a mock server"@
                    && find_id_from(old(manager).servers@, id@, 0) < 0 && find_port_from(
                    old(manager).servers@,
                    port,
                    0,
                ) >= 0))
            },
        },
{
    match manager.start_mock_server_with_addr(id, pact, port, config) {
        Ok(p) => Ok(p as i32),
        Err(e) => Err(e.message()),
    }
}

/// Starts a mock server over a TLS listener, with the default configuration
/// otherwise. The certificate setup belongs to the caller that owns the
/// listener the port came from.
pub fn start_tls_mock_server(
    manager: &mut ServerManager,
    id: String,
    pact: Pact,
    port: u16,
) -> (r: Result<i32, String>)
    ensures
        old(manager).wf() ==> final(manager).wf(),
        match r {
            Ok(p) => {
                &&& p == port as i32
                &&& find_id_from(old(manager).servers@, id@, 0) < 0
                &&& find_port_from(old(manager).servers@, port, 0) < 0
                &&& native_record_added(
                    old(manager).servers@,
                    final(manager).servers@,
                    id@,
                    pact,
                    port,
                    (MockServerConfig { cors_preflight: false, tls: true }),
                )
                &&& find_port_from(final(manager).servers@, port, 0) >= 0
                &&& find_id_from(final(manager).servers@, id@, 0) >= 0
            },
            Err(msg) => {
                &&& *final(manager) == *old(manager)
                &&& ((msg@ == "Mock server with id '"@ + id@ + "' is already running"@
                    && find_id_from(old(manager).servers@, id@, 0) >= 0) || (msg@ == "Port "@
                    + dec_digits(port as nat) + " is already bound by a mock server"@
                    && find_id_from(old(manager).servers@, id@, 0) < 0 && find_port_from(
                    old(manager).servers@,
                    port,
                    0,
                ) >= 0))
            },
        },
{
    start_tls_mock_server_with_config(manager, id, pact, port, MockServerConfig::default())
}

/// Starts a mock server over a TLS listener with the given configuration.
pub fn start_tls_mock_server_with_config(
    manager: &mut ServerManager,
    id: String,
    pact: Pact,
    port: u16,
    config: MockServerConfig,
) -> (r: Result<i32, String>)
    ensures
        old(manager).wf() ==> final(manager).wf(),
        match r {
            Ok(p) => {
                &&& p == port as i32
                &&& find_id_from(old(manager).servers@, id@, 0) < 0
                &&& find_port_from(old(manager).servers@, port, 0) < 0
                &&& native_record_added(
                    old(manager).servers@,
                    final(manager).servers@,
                    id@,
                    pact,
                    port,
                    (MockServerConfig { cors_preflight: config.cors_preflight, tls: true }),
                )
                &&& find_port_from(final(manager).servers@, port, 0) >= 0
                &&& find_id_from(final(manager).servers@, id@, 0) >= 0
            },
            Err(msg) => {
                &&& *final(manager) == *old(manager)
                &&& ((msg@ == "Mock server with id '"@ + id@ + "' is already running"@
                    && find_id_from(old(manager).servers@, id@, 0) >= 0) || (msg@ == "Port "@
                    + dec_digits(port as nat) + " is already bound by a mock server"@
                    && find_id_from(old(manager).servers@, id@, 0) < 0 && find_port_from(
                    old(manager).servers@,
                    port,
                    0,
                ) >= 0))
            },
        },
{
    let tls_config = MockServerConfig { cors_preflight: config.cors_preflight, tls: true };
    start_mock_server_with_config(manager, id, pact, port, tls_config)
}

/// Creates a mock server over a TLS listener from raw pact JSON, under a
/// fresh random id.
pub fn create_tls_mock_server(
    manager: &mut ServerManager,
    pact_json: &str,
    port: u16,
) -> (r: Result<i32, MockServerError>)
    ensures
        old(manager).wf() ==> final(manager).wf(),
        match r {
            Ok(p) => {
                &&& p == port as i32
                &&& json_parse_of(pact_json@) is Some
                &&& find_port_from(old(manager).servers@, port, 0) < 0
                &&& final(manager).servers@.len() == old(manager).servers@.len() + 1
                &&& final(manager).servers@.subrange(0, old(manager).servers@.len() as int) == old(
                    manager,
                ).servers@
                &&& final(manager).servers@.last().1 matches ServerEntry::Native(ms) && ms.port
                    == port && ms.mismatches@.len() == 0 && ms.config == (MockServerConfig { cors_preflight: false, tls: true })
                    && pact_of_data(ms.pact, json_parse_of(pact_json@).unwrap())
                &&& find_port_from(final(manager).servers@, port, 0) >= 0
            },
            Err(MockServerError::InvalidPactJson) => {
                &&& json_parse_of(pact_json@) is None
                &&& *final(manager) == *old(manager)
            },
            Err(MockServerError::MockServerFailedToStart) => {
                &&& json_parse_of(pact_json@) is Some
                &&& *final(manager) == *old(manager)
            },
        },
{
    match parse_json(pact_json) {
        None => Err(MockServerError::InvalidPactJson),
        Some(doc) => {
            let pact = Pact::from_json(&doc);
            let id = new_uuid_string();
            let config = MockServerConfig { cors_preflight: false, tls: true };
            match manager.start_mock_server_with_addr(id, pact, port, config) {
                Ok(p) => Ok(p as i32),
                Err(_) => Err(MockServerError::MockServerFailedToStart),
            }
        },
    }
}

/// Creates a mock server from raw pact JSON under a fresh random id. Fails
/// with `InvalidPactJson` exactly when the text does not parse; a collision
/// of the random id fails the start.
pub fn create_mock_server(
    manager: &mut ServerManager,
    pact_json: &str,
    port: u16,
) -> (r: Result<i32, MockServerError>)
    ensures
        old(manager).wf() ==> final(manager).wf(),
        match r {
            Ok(p) => {
                &&& p == port as i32
                &&& json_parse_of(pact_json@) is Some
                &&& find_port_from(old(manager).servers@, port, 0) < 0
                &&& final(manager).servers@.len() == old(manager).servers@.len() + 1
                &&& final(manager).servers@.subrange(0, old(manager).servers@.len() as int) == old(
                    manager,
                ).servers@
                &&& final(manager).servers@.last().1 matches ServerEntry::Native(ms) && ms.port
                    == port && ms.mismatches@.len() == 0 && ms.config == (MockServerConfig { cors_preflight: false, tls: false })
                    && pact_of_data(ms.pact, json_parse_of(pact_json@).unwrap())
                &&& find_port_from(final(manager).servers@, port, 0) >= 0
            },
            Err(MockServerError::InvalidPactJson) => {
                &&& json_parse_of(pact_json@) is None
                &&& *final(manager) == *old(manager)
            },
            Err(MockServerError::MockServerFailedToStart) => {
                &&& json_parse_of(pact_json@) is Some
                &&& *final(manager) == *old(manager)
            },
        },
{
    match parse_json(pact_json) {
        None => Err(MockServerError::InvalidPactJson),
        Some(doc) => {
            let pact = Pact::from_json(&doc);
            let id = new_uuid_string();
            match manager.start_mock_server_with_addr(
                id,
                pact,
                port,
                MockServerConfig::default(),
            ) {
                Ok(p) => Ok(p as i32),
                Err(_) => Err(MockServerError::MockServerFailedToStart),
            }
        },
    }
}

/// True when the mock server on the port has matched all its requests:
/// false when no server runs there, when any request mismatched, or for a
/// plugin-run server, whose results this registry cannot ask for.
pub fn mock_server_matched(manager: &ServerManager, mock_server_port: i32) -> (r: bool)
    ensures
        r == ({
            let at = find_port_from(manager.servers@, port_of_i32(mock_server_port), 0);
            &&& at >= 0
            &&& manager.servers@[at].1 matches ServerEntry::Native(ms)
                && ms.mismatches@.len() == 0
        }),
{
    let port = port_to_u16(mock_server_port);
    match manager.find_mock_server_by_port(port) {
        Some(entry) => match entry {
            ServerEntry::Native(ms) => ms.mismatches().len() == 0,
            ServerEntry::Plugin(_) => false,
        },
        None => false,
    }
}

/// The mismatches of the mock server on the port, as JSON text: `None` when
/// no server runs there; an error document for a plugin-run server.
pub fn mock_server_mismatches(manager: &ServerManager, mock_server_port: i32) -> (r: Option<
    String,
>)
    ensures
        ({
            let at = find_port_from(manager.servers@, port_of_i32(mock_server_port), 0);
            match r {
                Some(s) => at >= 0 && (match manager.servers@[at].1 {
                    ServerEntry::Native(ms) => s@ == json_text_of(
                        serde_canon(
                            JsonData::Arr(
                                Seq::new(
                                    ms.mismatches@.len(),
                                    |i: int|
                                        if 0 <= i < ms.mismatches@.len() {
                                            mismatch_json_data(ms.mismatches@[i]@)
                                        } else {
                                            JsonData::Null
                                        },
                                ),
                            ),
                        ),
                    ),
                    ServerEntry::Plugin(_) => s@ == json_text_of(
                        serde_canon(plugin_results_error_data()),
                    ),
                }),
                None => at < 0,
            }
        }),
{
    let port = port_to_u16(mock_server_port);
    match manager.find_mock_server_by_port(port) {
        Some(entry) => match entry {
            ServerEntry::Native(ms) => Some(ms.mismatches_json()),
            ServerEntry::Plugin(_) => {
                let mut fields: Vec<(String, JsonValue)> = Vec::new();
                fields.push(
                    (
                        "error".to_owned(),
                        JsonValue::Str(
                            "Mock server results from plugins are not available".to_owned(),
                        ),
                    ),
                );
                let doc = JsonValue::Obj(fields);
                proof {
                    assert((doc->Obj_0)@[0].0@ == "error"@);
                    assert(crate::json::jdata_of((doc->Obj_0)@[0].1) == JsonData::Str(
                        "Mock server results from plugins are not available"@,
                    ));
                    assert(doc@->Obj_0 =~= plugin_results_error_data()->Obj_0);
                }
                Some(json_text(&doc))
            },
        },
        None => None,
    }
}

/// Plans the pact write-out for the mock server on the port: the file name
/// and the document to store, merged with what is on disk unless
/// overwriting. Fails with `NoMockServer` when no native server runs there;
/// a plugin-run server's pact is written by its plugin, not here.
pub fn write_pact_file_plan(
    manager: &ServerManager,
    mock_server_port: i32,
    existing: Option<&JsonValue>,
    overwrite: bool,
) -> (r: Result<(String, JsonValue), WritePactFileErr>)
    ensures
        ({
            let at = find_port_from(manager.servers@, port_of_i32(mock_server_port), 0);
            match r {
                Ok(plan) => at >= 0 && (manager.servers@[at].1 matches ServerEntry::Native(ms)
                    && plan.0@ == ms.pact.consumer.name@ + "-"@ + ms.pact.provider.name@
                    + ".json"@ && plan.1@ == write_contents_data(
                    ms.pact,
                    match existing {
                        Some(v) => Some(v@),
                        None => None,
                    },
                    overwrite,
                )),
                Err(WritePactFileErr::NoMockServer) => at < 0 || !(manager.servers@[at].1
                    is Native),
                Err(WritePactFileErr::IOError) => false,
            }
        }),
{
    let port = port_to_u16(mock_server_port);
    match manager.find_mock_server_by_port(port) {
        Some(entry) => match entry {
            ServerEntry::Native(ms) => Ok(ms.write_pact_plan(existing, overwrite)),
            ServerEntry::Plugin(_) => Err(WritePactFileErr::NoMockServer),
        },
        None => Err(WritePactFileErr::NoMockServer),
    }
}

/// Shuts down the mock server with the provided port. Returns whether a
/// server was actually found and stopped.
pub fn shutdown_mock_server(manager: &mut ServerManager, mock_server_port: i32) -> (r: bool)
    ensures
        ({
            let at = find_port_from(old(manager).servers@, port_of_i32(mock_server_port), 0);
            if at >= 0 {
                r && final(manager).servers@ == old(manager).servers@.remove(at)
            } else {
                !r && *final(manager) == *old(manager)
            }
        }),
        old(manager).wf() ==> final(manager).wf(),
        old(manager).wf() && r ==> find_port_from(
            final(manager).servers@,
            port_of_i32(mock_server_port),
            0,
        ) < 0,
{
    let port = port_to_u16(mock_server_port);
    manager.shutdown_mock_server_by_port(port)
}

/// Shuts down the mock server with the provided id. Returns whether a
/// server was actually found and stopped.
pub fn shutdown_mock_server_by_id(manager: &mut ServerManager, id: &str) -> (r: bool)
    ensures
        ({
            let at = find_id_from(old(manager).servers@, id@, 0);
            if at >= 0 {
                r && final(manager).servers@ == old(manager).servers@.remove(at)
            } else {
                !r && *final(manager) == *old(manager)
            }
        }),
        old(manager).wf() ==> final(manager).wf(),
        old(manager).wf() && r ==> find_id_from(final(manager).servers@, id@, 0) < 0,
{
    manager.shutdown_mock_server_by_id(id)
}

/// Finds a mock server by port number: the registered entry, `None` exactly
/// when no server is bound to the port.
pub fn find_mock_server_by_port<'a>(manager: &'a ServerManager, port: u16) -> (r: Option<
    &'a ServerEntry,
>)
    ensures
        match r {
            Some(e) => find_port_from(manager.servers@, port, 0) >= 0 && *e == manager.servers@[
                find_port_from(manager.servers@, port, 0)].1,
            None => find_port_from(manager.servers@, port, 0) < 0,
        },
{
    manager.find_mock_server_by_port(port)
}

} // verus!
