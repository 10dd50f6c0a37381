//! The registry of running mock servers, keyed by id and queried by port:
//! start, find, and shutdown. The registry is an explicitly constructed
//! value its owner passes around; listening itself lives with the caller.

use vstd::prelude::*;
use crate::mock_server::{MockServer, MockServerConfig};
use crate::pact::Pact;
use crate::strings::{dec_digits, str_concat, str_eq, u64_to_dec};

verus! {

/// A plugin-run mock server's handle: what the registry knows about a
/// server an external plugin process operates.
#[derive(Debug)]
pub struct PluginMockServer {
    /// The port the plugin's listener reports.
    pub port: u16,
    /// The transport the plugin provides.
    pub transport: String,
    /// The pact the plugin serves.
    pub pact: Pact,
}

/// A registered server: a native mock server, or a plugin-delegated one.
/// The registry only ever works through this sum; it never downcasts.
#[derive(Debug)]
pub enum ServerEntry {
    /// A native HTTP/TLS mock server.
    Native(MockServer),
    /// A plugin-run server for a non-HTTP transport.
    Plugin(PluginMockServer),
}

/// The port an entry is bound to.
pub open spec fn entry_port(e: ServerEntry) -> u16 {
    match e {
        ServerEntry::Native(ms) => ms.port,
        ServerEntry::Plugin(p) => p.port,
    }
}

impl ServerEntry {
    /// The port this entry is bound to.
    pub fn port(&self) -> (r: u16)
        ensures
            r == entry_port(*self),
    {
        match self {
            ServerEntry::Native(ms) => ms.port,
            ServerEntry::Plugin(p) => p.port,
        }
    }
}

/// The first registered entry under `id`, scanning from `i`; -1 when absent.
pub open spec fn find_id_from(s: Seq<(String, ServerEntry)>, id: Seq<char>, i: int) -> int
    decreases s.len() - i,
{
    if i < 0 || i >= s.len() {
        -1
    } else if s[i].0@ == id {
        i
    } else {
        find_id_from(s, id, i + 1)
    }
}

/// The first registered entry bound to `port`, scanning from `i`; -1 when
/// absent.
pub open spec fn find_port_from(s: Seq<(String, ServerEntry)>, port: u16, i: int) -> int
    decreases s.len() - i,
{
    if i < 0 || i >= s.len() {
        -1
    } else if entry_port(s[i].1) == port {
        i
    } else {
        find_port_from(s, port, i + 1)
    }
}

/// A well-formed registry: records carry pairwise distinct ids and pairwise
/// distinct ports. Every operation of the registry preserves this.
pub open spec fn manager_wf(s: Seq<(String, ServerEntry)>) -> bool {
    forall|i: int, j: int|
        0 <= i < j < s.len() ==> s[i].0@ != s[j].0@ && entry_port(s[i].1) != entry_port(s[j].1)
}

/// An unsuccessful id search means no record carries the id, from `i` on.
proof fn lemma_id_absent(s: Seq<(String, ServerEntry)>, id: Seq<char>, i: int)
    requires
        0 <= i <= s.len(),
        find_id_from(s, id, i) < 0,
    ensures
        forall|k: int| i <= k < s.len() ==> s[k].0@ != id,
    decreases s.len() - i,
{
    if i < s.len() {
        lemma_id_absent(s, id, i + 1);
    }
}

/// An unsuccessful port search means no record holds the port, from `i` on.
proof fn lemma_port_absent(s: Seq<(String, ServerEntry)>, port: u16, i: int)
    requires
        0 <= i <= s.len(),
        find_port_from(s, port, i) < 0,
    ensures
        forall|k: int| i <= k < s.len() ==> entry_port(s[k].1) != port,
    decreases s.len() - i,
{
    if i < s.len() {
        lemma_port_absent(s, port, i + 1);
    }
}

/// When no record holds the port from `i` on, the search fails.
proof fn lemma_no_port_no_find(s: Seq<(String, ServerEntry)>, port: u16, i: int)
    requires
        0 <= i <= s.len(),
        forall|k: int| i <= k < s.len() ==> entry_port(s[k].1) != port,
    ensures
        find_port_from(s, port, i) < 0,
    decreases s.len() - i,
{
    if i < s.len() {
        lemma_no_port_no_find(s, port, i + 1);
    }
}

/// When no record carries the id from `i` on, the search fails.
proof fn lemma_no_id_no_find(s: Seq<(String, ServerEntry)>, id: Seq<char>, i: int)
    requires
        0 <= i <= s.len(),
        forall|k: int| i <= k < s.len() ==> s[k].0@ != id,
    ensures
        find_id_from(s, id, i) < 0,
    decreases s.len() - i,
{
    if i < s.len() {
        lemma_no_id_no_find(s, id, i + 1);
    }
}

/// A found index lies in bounds and holds what was searched for.
proof fn lemma_find_port_bounds(s: Seq<(String, ServerEntry)>, port: u16, i: int)
    requires
        0 <= i <= s.len(),
        find_port_from(s, port, i) >= 0,
    ensures
        i <= find_port_from(s, port, i) < s.len(),
        entry_port(s[find_port_from(s, port, i)].1) == port,
    decreases s.len() - i,
{
    if i < s.len() && entry_port(s[i].1) != port {
        lemma_find_port_bounds(s, port, i + 1);
    }
}

/// A found index lies in bounds and carries the id searched for.
proof fn lemma_find_id_bounds(s: Seq<(String, ServerEntry)>, id: Seq<char>, i: int)
    requires
        0 <= i <= s.len(),
        find_id_from(s, id, i) >= 0,
    ensures
        i <= find_id_from(s, id, i) < s.len(),
        s[find_id_from(s, id, i)].0@ == id,
    decreases s.len() - i,
{
    if i < s.len() && s[i].0@ != id {
        lemma_find_id_bounds(s, id, i + 1);
    }
}

/// Appending a record makes its port findable when it was not before.
proof fn lemma_find_port_push(s: Seq<(String, ServerEntry)>, rec: (String, ServerEntry), i: int)
    requires
        0 <= i <= s.len(),
        find_port_from(s, entry_port(rec.1), i) < 0,
    ensures
        find_port_from(s.push(rec), entry_port(rec.1), i) == s.len(),
    decreases s.len() - i,
{
    if i < s.len() {
        assert(s.push(rec)[i] == s[i]);
        lemma_find_port_push(s, rec, i + 1);
    } else {
        assert(s.push(rec)[i] == rec);
    }
}

/// Appending a record makes its id findable when it was not before.
proof fn lemma_find_id_push(s: Seq<(String, ServerEntry)>, rec: (String, ServerEntry), i: int)
    requires
        0 <= i <= s.len(),
        find_id_from(s, rec.0@, i) < 0,
    ensures
        find_id_from(s.push(rec), rec.0@, i) == s.len(),
    decreases s.len() - i,
{
    if i < s.len() {
        assert(s.push(rec)[i] == s[i]);
        lemma_find_id_push(s, rec, i + 1);
    } else {
        assert(s.push(rec)[i] == rec);
    }
}

/// Removing a record from a well-formed registry keeps it well-formed.
proof fn lemma_wf_remove(s: Seq<(String, ServerEntry)>, at: int)
    requires
        manager_wf(s),
        0 <= at < s.len(),
    ensures
        manager_wf(s.remove(at)),
{
    assert forall|i: int, j: int| 0 <= i < j < s.remove(at).len() implies s.remove(at)[i].0@
        != s.remove(at)[j].0@ && entry_port(s.remove(at)[i].1) != entry_port(
        s.remove(at)[j].1,
    ) by {
        let oi: int = if i < at {
            i
        } else {
            i + 1
        };
        let oj: int = if j < at {
            j
        } else {
            j + 1
        };
        assert(s.remove(at)[i] == s[oi]);
        assert(s.remove(at)[j] == s[oj]);
    }
}

/// In a well-formed registry, removing the record on a port leaves no
/// record on that port.
proof fn lemma_remove_clears_port(s: Seq<(String, ServerEntry)>, port: u16)
    requires
        manager_wf(s),
        find_port_from(s, port, 0) >= 0,
    ensures
        find_port_from(s.remove(find_port_from(s, port, 0)), port, 0) < 0,
{
    let at = find_port_from(s, port, 0);
    lemma_find_port_bounds(s, port, 0);
    let removed = s.remove(at);
    assert forall|k: int| 0 <= k < removed.len() implies entry_port(removed[k].1) != port by {
        let ok: int = if k < at {
            k
        } else {
            k + 1
        };
        assert(removed[k] == s[ok]);
    }
    lemma_no_port_no_find(removed, port, 0);
}

/// In a well-formed registry, removing the record under an id leaves no
/// record under that id.
proof fn lemma_remove_clears_id(s: Seq<(String, ServerEntry)>, id: Seq<char>)
    requires
        manager_wf(s),
        find_id_from(s, id, 0) >= 0,
    ensures
        find_id_from(s.remove(find_id_from(s, id, 0)), id, 0) < 0,
{
    let at = find_id_from(s, id, 0);
    lemma_find_id_bounds(s, id, 0);
    let removed = s.remove(at);
    assert forall|k: int| 0 <= k < removed.len() implies removed[k].0@ != id by {
        let ok: int = if k < at {
            k
        } else {
            k + 1
        };
        assert(removed[k] == s[ok]);
    }
    lemma_no_id_no_find(removed, id, 0);
}

/// Appending a record with a fresh id and a fresh port keeps a well-formed
/// registry well-formed.
proof fn lemma_wf_push(s: Seq<(String, ServerEntry)>, rec: (String, ServerEntry))
    requires
        manager_wf(s),
        find_id_from(s, rec.0@, 0) < 0,
        find_port_from(s, entry_port(rec.1), 0) < 0,
    ensures
        manager_wf(s.push(rec)),
{
    lemma_id_absent(s, rec.0@, 0);
    lemma_port_absent(s, entry_port(rec.1), 0);
    let pushed = s.push(rec);
    assert forall|i: int, j: int| 0 <= i < j < pushed.len() implies pushed[i].0@ != pushed[j].0@
        && entry_port(pushed[i].1) != entry_port(pushed[j].1) by {
        if j < s.len() {
            assert(pushed[i] == s[i]);
            assert(pushed[j] == s[j]);
        } else {
            assert(pushed[i] == s[i]);
            assert(pushed[j] == rec);
        }
    }
}

/// Did a start append exactly one native record with these parts, keeping
/// everything already registered?
pub open spec fn native_record_added(
    pre: Seq<(String, ServerEntry)>,
    post: Seq<(String, ServerEntry)>,
    id: Seq<char>,
    pact: Pact,
    port: u16,
    config: MockServerConfig,
) -> bool {
    &&& post.len() == pre.len() + 1
    &&& post.subrange(0, pre.len() as int) == pre
    &&& post.last().0@ == id
    &&& post.last().1 matches ServerEntry::Native(ms) && ms.id@ == id && ms.port == port
        && ms.pact == pact && ms.config == config && ms.mismatches@.len() == 0
}

/// Why a mock server could not be started.
#[derive(Debug)]
pub enum StartError {
    /// The id is already registered.
    DuplicateId(String),
    /// The port is already bound by a registered server.
    PortTaken(u16),
    /// The transport is not in the capability catalogue.
    UnknownTransport(String),
}

impl StartError {
    /// The human-readable message for this failure.
    pub fn message(&self) -> (r: String)
        ensures
            match self {
                StartError::DuplicateId(id) => r@ == "Mock server with id '"@ + id@
                    + "' is already running"@,
                StartError::PortTaken(p) => r@ == "Port "@ + dec_digits(*p as nat)
                    + " is already bound by a mock server"@,
                StartError::UnknownTransport(t) => r@ == "Transport '"@ + t@
                    + "' is not a known transport"@,
            },
    {
        match self {
            StartError::DuplicateId(id) => {
                let head = str_concat("Mock server with id '", id.as_str());
                str_concat(head.as_str(), "' is already running")
            },
            StartError::PortTaken(p) => {
                let num = u64_to_dec(*p as u64);
                let head = str_concat("Port ", num.as_str());
                str_concat(head.as_str(), " is already bound by a mock server")
            },
            StartError::UnknownTransport(t) => {
                let head = str_concat("Transport '", t.as_str());
                str_concat(head.as_str(), "' is not a known transport")
            },
        }
    }
}

/// The registry of running mock servers. Starting checks that both the id
/// and the port are free, so a well-formed registry stays well-formed;
/// records live here from start until explicit shutdown.
#[derive(Debug)]
pub struct ServerManager {
    /// The registered servers, in start order.
    pub servers: Vec<(String, ServerEntry)>,
}

impl ServerManager {
    /// Ids pairwise distinct and ports pairwise distinct.
    pub open spec fn wf(&self) -> bool {
        manager_wf(self.servers@)
    }

    /// An empty registry.
    pub fn new() -> (r: ServerManager)
        ensures
            r.servers@.len() == 0,
            r.wf(),
    {
        ServerManager { servers: Vec::new() }
    }

    /// Is an entry registered under this id?
    pub fn id_registered(&self, id: &str) -> (r: bool)
        ensures
            r == (find_id_from(self.servers@, id@, 0) >= 0),
    {
        let mut i: usize = 0;
        while i < self.servers.len()
            invariant
                i <= self.servers@.len(),
                find_id_from(self.servers@, id@, 0) == find_id_from(self.servers@, id@, i as int),
            decreases self.servers@.len() - i,
        {
            if str_eq(self.servers[i].0.as_str(), id) {
                return true;
            }
            i = i + 1;
        }
        false
    }

    /// Is a registered server bound to this port?
    pub fn port_registered(&self, port: u16) -> (r: bool)
        ensures
            r == (find_port_from(self.servers@, port, 0) >= 0),
    {
        let mut i: usize = 0;
        while i < self.servers.len()
            invariant
                i <= self.servers@.len(),
                find_port_from(self.servers@, port, 0) == find_port_from(
                    self.servers@,
                    port,
                    i as int,
                ),
            decreases self.servers@.len() - i,
        {
            if self.servers[i].1.port() == port {
                return true;
            }
            i = i + 1;
        }
        false
    }

    /// Registers a native mock server on an already-bound port. Fails
    /// exactly when the id is already registered or another server already
    /// holds the port; the OS-level bind belongs to the caller that obtained
    /// `port`.
    pub fn start_mock_server_with_addr(
        &mut self,
        id: String,
        pact: Pact,
        port: u16,
        config: MockServerConfig,
    ) -> (r: Result<u16, StartError>)
        ensures
            match r {
                Ok(p) => {
                    &&& p == port
                    &&& find_id_from(old(self).servers@, id@, 0) < 0
                    &&& find_port_from(old(self).servers@, port, 0) < 0
                    &&& final(self).servers@.len() == old(self).servers@.len() + 1
                    &&& final(self).servers@.subrange(0, old(self).servers@.len() as int) == old(
                        self,
                    ).servers@
                    &&& final(self).servers@.last().0@ == id@
                    &&& final(self).servers@.last().1 matches ServerEntry::Native(ms) && ms.id@
                        == id@ && ms.port == port && ms.pact == pact && ms.config == config
                        && ms.mismatches@.len() == 0
                    &&& find_port_from(final(self).servers@, port, 0) >= 0
                    &&& find_id_from(final(self).servers@, id@, 0) >= 0
                    &&& old(self).wf() ==> final(self).wf()
                },
                Err(StartError::DuplicateId(eid)) => {
                    &&& eid@ == id@
                    &&& find_id_from(old(self).servers@, id@, 0) >= 0
                    &&& *final(self) == *old(self)
                },
                Err(StartError::PortTaken(tp)) => {
                    &&& tp == port
                    &&& find_id_from(old(self).servers@, id@, 0) < 0
                    &&& find_port_from(old(self).servers@, port, 0) >= 0
                    &&& *final(self) == *old(self)
                },
                Err(StartError::UnknownTransport(_)) => false,
            },
    {
        if self.id_registered(id.as_str()) {
            return Err(StartError::DuplicateId(id));
        }
        if self.port_registered(port) {
            return Err(StartError::PortTaken(port));
        }
        let server = MockServer::new(id.clone(), pact, port, config);
        let ghost pre = self.servers@;
        self.servers.push((id, ServerEntry::Native(server)));
        proof {
            assert(self.servers@.subrange(0, pre.len() as int) =~= pre);
            assert(self.servers@ =~= pre.push(self.servers@.last()));
            lemma_find_port_push(pre, self.servers@.last(), 0);
            lemma_find_id_push(pre, self.servers@.last(), 0);
            if manager_wf(pre) {
                lemma_wf_push(pre, self.servers@.last());
            }
        }
        Ok(port)
    }

    /// Registers a plugin-delegated mock server for a transport, looked up
    /// in the capability catalogue the caller supplies. Fails on an unknown
    /// transport, a duplicate id, or a taken port.
    pub fn start_mock_server_for_transport(
        &mut self,
        id: String,
        pact: Pact,
        port: u16,
        transport: &str,
        catalogue: &Vec<String>,
    ) -> (r: Result<u16, StartError>)
        ensures
            match r {
                Ok(p) => {
                    &&& p == port
                    &&& exists|j: int| 0 <= j < catalogue@.len() && catalogue@[j]@ == transport@
                    &&& find_id_from(old(self).servers@, id@, 0) < 0
                    &&& find_port_from(old(self).servers@, port, 0) < 0
                    &&& final(self).servers@.len() == old(self).servers@.len() + 1
                    &&& final(self).servers@.subrange(0, old(self).servers@.len() as int) == old(
                        self,
                    ).servers@
                    &&& final(self).servers@.last().0@ == id@
                    &&& final(self).servers@.last().1 matches ServerEntry::Plugin(p2) && p2.port
                        == port && p2.transport@ == transport@ && p2.pact == pact
                    &&& find_port_from(final(self).servers@, port, 0) >= 0
                    &&& find_id_from(final(self).servers@, id@, 0) >= 0
                    &&& old(self).wf() ==> final(self).wf()
                },
                Err(StartError::UnknownTransport(t)) => {
                    &&& t@ == transport@
                    &&& forall|j: int| 0 <= j < catalogue@.len() ==> catalogue@[j]@ != transport@
                    &&& *final(self) == *old(self)
                },
                Err(StartError::DuplicateId(eid)) => {
                    &&& eid@ == id@
                    &&& find_id_from(old(self).servers@, id@, 0) >= 0
                    &&& *final(self) == *old(self)
                },
                Err(StartError::PortTaken(tp)) => {
                    &&& tp == port
                    &&& find_id_from(old(self).servers@, id@, 0) < 0
                    &&& find_port_from(old(self).servers@, port, 0) >= 0
                    &&& *final(self) == *old(self)
                },
            },
    {
        let mut known = false;
        let mut i: usize = 0;
        while i < catalogue.len()
            invariant
                *self == *old(self),
                i <= catalogue@.len(),
                known ==> exists|j: int| 0 <= j < catalogue@.len() && catalogue@[j]@ == transport@,
                !known ==> forall|j: int| 0 <= j < i ==> catalogue@[j]@ != transport@,
            decreases catalogue@.len() - i,
        {
            if str_eq(catalogue[i].as_str(), transport) {
                known = true;
            }
            i = i + 1;
        }
        if !known {
            return Err(StartError::UnknownTransport(transport.to_owned()));
        }
        if self.id_registered(id.as_str()) {
            return Err(StartError::DuplicateId(id));
        }
        if self.port_registered(port) {
            return Err(StartError::PortTaken(port));
        }
        let entry = PluginMockServer { port, transport: transport.to_owned(), pact };
        let ghost pre = self.servers@;
        self.servers.push((id, ServerEntry::Plugin(entry)));
        proof {
            assert(self.servers@.subrange(0, pre.len() as int) =~= pre);
            assert(self.servers@ =~= pre.push(self.servers@.last()));
            lemma_find_port_push(pre, self.servers@.last(), 0);
            lemma_find_id_push(pre, self.servers@.last(), 0);
            if manager_wf(pre) {
                lemma_wf_push(pre, self.servers@.last());
            }
        }
        Ok(port)
    }

    /// The entry bound to `port`: `None` exactly when no registered server
    /// is bound to it.
    pub fn find_mock_server_by_port<'a>(&'a self, port: u16) -> (r: Option<&'a ServerEntry>)
        ensures
            match r {
                Some(e) => find_port_from(self.servers@, port, 0) >= 0 && *e == self.servers@[
                    find_port_from(self.servers@, port, 0)].1,
                None => find_port_from(self.servers@, port, 0) < 0,
            },
    {
        let mut i: usize = 0;
        while i < self.servers.len()
            invariant
                i <= self.servers@.len(),
                find_port_from(self.servers@, port, 0) == find_port_from(
                    self.servers@,
                    port,
                    i as int,
                ),
            decreases self.servers@.len() - i,
        {
            if self.servers[i].1.port() == port {
                return Some(&self.servers[i].1);
            }
            i = i + 1;
        }
        None
    }

    /// Stops and deregisters the server bound to `port`; false exactly when
    /// no registered server is bound to it, and then nothing changes. In a
    /// well-formed registry the port is free afterwards, so a second call
    /// returns false.
    pub fn shutdown_mock_server_by_port(&mut self, port: u16) -> (r: bool)
        ensures
            ({
                let at = find_port_from(old(self).servers@, port, 0);
                if at >= 0 {
                    r && final(self).servers@ == old(self).servers@.remove(at)
                } else {
                    !r && *final(self) == *old(self)
                }
            }),
            old(self).wf() ==> final(self).wf(),
            old(self).wf() && r ==> find_port_from(final(self).servers@, port, 0) < 0,
    {
        let ghost pre = self.servers@;
        let mut i: usize = 0;
        while i < self.servers.len()
            invariant
                *self == *old(self),
                pre == self.servers@,
                i <= self.servers@.len(),
                find_port_from(pre, port, 0) == find_port_from(pre, port, i as int),
            decreases self.servers@.len() - i,
        {
            if self.servers[i].1.port() == port {
                self.servers.remove(i);
                proof {
                    if manager_wf(pre) {
                        lemma_wf_remove(pre, i as int);
                        lemma_remove_clears_port(pre, port);
                    }
                }
                return true;
            }
            i = i + 1;
        }
        false
    }

    /// Stops and deregisters the server registered under `id`; false exactly
    /// when the id is unknown, and then nothing changes. In a well-formed
    /// registry the id is free afterwards, so a second call returns false.
    pub fn shutdown_mock_server_by_id(&mut self, id: &str) -> (r: bool)
        ensures
            ({
                let at = find_id_from(old(self).servers@, id@, 0);
                if at >= 0 {
                    r && final(self).servers@ == old(self).servers@.remove(at)
                } else {
                    !r && *final(self) == *old(self)
                }
            }),
            old(self).wf() ==> final(self).wf(),
            old(self).wf() && r ==> find_id_from(final(self).servers@, id@, 0) < 0,
    {
        let ghost pre = self.servers@;
        let mut i: usize = 0;
        while i < self.servers.len()
            invariant
                *self == *old(self),
                pre == self.servers@,
                i <= self.servers@.len(),
                find_id_from(pre, id@, 0) == find_id_from(pre, id@, i as int),
            decreases self.servers@.len() - i,
        {
            if str_eq(self.servers[i].0.as_str(), id) {
                self.servers.remove(i);
                proof {
                    if manager_wf(pre) {
                        lemma_wf_remove(pre, i as int);
                        lemma_remove_clears_id(pre, id@);
                    }
                }
                return true;
            }
            i = i + 1;
        }
        false
    }
}

} // verus!
