//! The resolution service: request types, errors, the resolution state
//! machine, and the dispatch façade.
//!
//! Resolution turns a host specification into an ordered, non-empty queue of
//! socket addresses: a specification that is itself a literal address
//! short-circuits to a single-element queue and never reaches the backend;
//! anything else is split into a host and an effective port and handed to
//! the backend lookup, whose outcome the driver reports back as an event.
//!
//! The service owns a lazily-initialized handle to the resolver backend,
//! built once and reused by every subsequent request for the service's
//! lifetime.  A service constructed in a permanently-errored state fails
//! every request immediately with the recorded error.

use std::collections::VecDeque;
use vstd::prelude::*;

use crate::addr::IpAddress;
use crate::addr::SocketAddress;
use crate::parse::effective_port;
use crate::parse::host_part;
use crate::parse::parse_socket_literal;
use crate::parse::parse_u16_text;
use crate::parse::socket_literal_of;
use crate::parse::find_char_in;
use crate::race::TcpConnector;
use crate::race::race_start;

verus! {

/// A request to resolve a host specification to addresses only.
#[derive(PartialEq, Eq, Debug)]
pub struct Resolve {
    /// The host specification; it may itself encode `host:port` or a full
    /// literal address.
    pub name: String,
    /// A fallback port, used only when no port can be determined from
    /// `name`; 0 when absent.
    pub port: Option<u16>,
}

impl Resolve {
    /// A request to resolve `host`, with no fallback port.
    pub fn host(host: &str) -> (r: Resolve)
        ensures
            r.name@ == host@,
            r.port is None,
    {
        Resolve { name: host.to_owned(), port: None }
    }

    /// A request to resolve `host` with the fallback port `port`.
    pub fn host_and_port(host: &str, port: u16) -> (r: Resolve)
        ensures
            r.name@ == host@,
            r.port == Some(port),
    {
        Resolve { name: host.to_owned(), port: Some(port) }
    }
}

/// A request to resolve a host specification and connect to the result.
#[derive(PartialEq, Eq, Debug)]
pub struct Connect {
    /// The host specification.
    pub name: String,
    /// A fallback port, used only when no port can be determined from
    /// `name`; 0 when absent.
    pub port: Option<u16>,
    /// The connect timeout budget, in milliseconds; it bounds the race
    /// phase only, starting when racing begins.
    pub timeout: u64,
}

impl Connect {
    /// A request to connect to `host`, with the default timeout of one
    /// second.
    pub fn host(host: &str) -> (r: Connect)
        ensures
            r.name@ == host@,
            r.port is None,
            r.timeout == 1000,
    {
        Connect { name: host.to_owned(), port: None, timeout: 1000 }
    }

    /// A request to connect to `host` with fallback port `port`, with the
    /// default timeout of one second.
    pub fn host_and_port(host: &str, port: u16) -> (r: Connect)
        ensures
            r.name@ == host@,
            r.port == Some(port),
            r.timeout == 1000,
    {
        Connect { name: host.to_owned(), port: Some(port), timeout: 1000 }
    }

    /// Set the connect timeout, in milliseconds.
    ///
    /// By default the timeout is set to one second.
    pub fn timeout(self, timeout: u64) -> (r: Connect)
        ensures
            r.name@ == self.name@,
            r.port == self.port,
            r.timeout == timeout,
    {
        Connect { name: self.name, port: self.port, timeout }
    }
}

/// A request to connect directly to a single already-known address.
#[derive(PartialEq, Eq, Debug)]
pub struct ConnectAddr(pub SocketAddress);

/// The ways a request can fail.
#[derive(Debug, PartialEq, Eq)]
pub enum ResolverError {
    /// The backend lookup errored, or returned zero addresses.
    Resolver(String),
    /// The input cannot be interpreted: the address queue was empty at race
    /// entry.
    InvalidInput(&'static str),
    /// The race phase's deadline elapsed before any candidate succeeded.
    Timeout,
    /// Every candidate address failed; carries only the last attempt's
    /// underlying transport error.
    IoError(String),
}

/// What the backend lookup produced, as reported by the driver.
#[derive(Debug, PartialEq, Eq)]
pub enum LookupOutcome {
    /// The lookup succeeded with these addresses, in backend order.
    Ips(Vec<IpAddress>),
    /// The lookup failed with this message.
    Error(String),
}

/// Readiness of a suspendable result.
#[derive(Debug, PartialEq, Eq)]
pub enum Async<T> {
    /// The result is here.
    Ready(T),
    /// Not ready yet; poll again at the next scheduling opportunity.
    NotReady,
}

/// Every backend address combined with the one effective port, in backend
/// order.
pub open spec fn with_port(ips: Seq<IpAddress>, port: u16) -> Seq<SocketAddress> {
    Seq::new(ips.len(), |i: int| (SocketAddress { ip: ips[i], port }))
}

/// The mathematical state of a `ResolveFut`.
#[verifier::ext_equal]
pub ghost struct ResolveFutModel {
    /// The effective port to combine with looked-up addresses.
    pub port: u16,
    /// The host whose lookup is awaited, when the backend is needed.
    pub lookup: Option<Seq<char>>,
    /// The finished queue, when a literal short-circuited.
    pub addrs: Option<Seq<SocketAddress>>,
    /// An error to deliver, recorded at construction.
    pub error: Option<ResolverError>,
    /// A service-level error to deliver as a resolution failure.
    pub error2: Option<Seq<char>>,
}

/// The state resolution starts in for the specification `name` with the
/// fallback port `fallback`: a literal short-circuits to a one-element queue
/// and needs no lookup; anything else awaits the lookup of its host part
/// under its effective port.
pub open spec fn resolve_start(name: Seq<char>, fallback: u16) -> ResolveFutModel {
    match socket_literal_of(name) {
        Some(a) => ResolveFutModel {
            port: fallback,
            lookup: None,
            addrs: Some(seq![a]),
            error: None,
            error2: None,
        },
        None => ResolveFutModel {
            port: effective_port(name, fallback),
            lookup: Some(host_part(name)),
            addrs: None,
            error: None,
            error2: None,
        },
    }
}

/// The state resolution starts in for a service whose recorded error is
/// `err`: the request fails immediately.
pub open spec fn resolve_err(err: Seq<char>) -> ResolveFutModel {
    ResolveFutModel { port: 0, lookup: None, addrs: None, error: None, error2: Some(err) }
}

/// The resolution-phase state machine.
pub struct ResolveFut {
    port: u16,
    lookup: Option<String>,
    addrs: Option<VecDeque<SocketAddress>>,
    error: Option<ResolverError>,
    error2: Option<String>,
}

impl View for ResolveFut {
    type V = ResolveFutModel;

    closed spec fn view(&self) -> ResolveFutModel {
        ResolveFutModel {
            port: self.port,
            lookup: match self.lookup {
                Some(h) => Some(h@),
                None => None,
            },
            addrs: match self.addrs {
                Some(q) => Some(q@),
                None => None,
            },
            error: self.error,
            error2: match self.error2 {
                Some(e) => Some(e@),
                None => None,
            },
        }
    }
}

impl ResolveFut {
    /// Splits a specification on its first `:` into a host and an effective
    /// port.  Port text that fails to parse is silently tolerated: the
    /// effective port falls back to `port`, and no error is raised.
    pub fn parse(addr: &str, port: u16) -> (r: (String, u16))
        ensures
            r.0@ == host_part(addr@),
            r.1 == effective_port(addr@, port),
    {
        let n = addr.unicode_len();
        match find_char_in(addr, ':') {
            None => (addr.to_owned(), port),
            Some(i) => {
                proof {
                    crate::parse::lemma_find_char_props(addr@, ':');
                }
                let host = addr.substring_char(0, i);
                let port_text = addr.substring_char(i + 1, n);
                let p = match parse_u16_text(port_text) {
                    Some(p) => p,
                    None => port,
                };
                (host.to_owned(), p)
            },
        }
    }

    /// Begins resolution of `addr` with fallback port `port`.  A literal
    /// address short-circuits: the queue is exactly that one address, and
    /// the backend lookup is never requested.
    pub fn new(addr: &str, port: u16) -> (r: ResolveFut)
        ensures
            r@ == resolve_start(addr@, port),
            r.wf(),
    {
        match parse_socket_literal(addr) {
            Some(a) => {
                let mut addrs: VecDeque<SocketAddress> = VecDeque::new();
                addrs.push_back(a);
                let r = ResolveFut {
                    port,
                    lookup: None,
                    addrs: Some(addrs),
                    error: None,
                    error2: None,
                };
                proof {
                    assert(addrs@ =~= seq![a]);
                    assert(r@ =~= resolve_start(addr@, port));
                }
                r
            },
            None => {
                let (host, p) = ResolveFut::parse(addr, port);
                let r = ResolveFut {
                    port: p,
                    lookup: Some(host),
                    addrs: None,
                    error: None,
                    error2: None,
                };
                proof {
                    assert(r@ =~= resolve_start(addr@, port));
                }
                r
            },
        }
    }

    /// A resolution that delivers the service's recorded error.
    pub fn err(err: String) -> (r: ResolveFut)
        ensures
            r@ == resolve_err(err@),
            r.wf(),
    {
        let r = ResolveFut { port: 0, lookup: None, addrs: None, error: None, error2: Some(err) };
        proof {
            assert(r@ =~= resolve_err(err@));
        }
        r
    }

    /// Whether this resolution still has something to deliver.
    pub open spec fn live(&self) -> bool {
        self@.error is Some || self@.error2 is Some || self@.addrs is Some || self@.lookup
            is Some
    }

    /// Well-formedness: a finished queue is never empty.
    pub open spec fn wf(&self) -> bool {
        self@.addrs matches Some(q) ==> q.len() >= 1
    }

    /// The host whose backend lookup this resolution awaits, if any: the
    /// driver performs that lookup and reports the outcome to `poll`.  A
    /// literal-address resolution awaits none.
    pub fn lookup_host(&self) -> (r: Option<&String>)
        ensures
            match r {
                Some(h) => self@.lookup == Some(h@),
                None => self@.lookup is None,
            },
    {
        match &self.lookup {
            Some(h) => Some(h),
            None => None,
        }
    }

    /// One scheduling opportunity.  `lookup_result` is what the backend
    /// lookup produced, or `None` while it is still in flight; it is read
    /// only when resolution is awaiting a lookup.
    ///
    /// A successful result is always a non-empty queue: a lookup that
    /// returns zero addresses is a resolution failure, never an empty
    /// success.
    pub fn poll(&mut self, lookup_result: Option<LookupOutcome>) -> (r: Result<
        Async<VecDeque<SocketAddress>>,
        ResolverError,
    >)
        requires
            old(self).live(),
            old(self).wf(),
        ensures
            ({
                let m = old(self)@;
                &&& (m.error matches Some(e) ==> r matches Err(e2) && e2 == e && final(self)@
                    =~= (ResolveFutModel { error: None, ..m }))
                &&& (m.error is None ==> (m.error2 matches Some(msg) ==> r matches Err(
                    ResolverError::Resolver(s),
                ) && s@ == msg && final(self)@ =~= (ResolveFutModel { error2: None, ..m })))
                &&& (m.error is None && m.error2 is None ==> (m.addrs matches Some(q) ==> r
                    matches Ok(Async::Ready(v)) && v@ == q && final(self)@ =~= (ResolveFutModel {
                    addrs: None,
                    ..m
                })))
                &&& (m.error is None && m.error2 is None && m.addrs is None ==> final(self)@ == m
                    && (match lookup_result {
                    None => r matches Ok(Async::NotReady),
                    Some(LookupOutcome::Error(msg)) => r matches Err(ResolverError::Resolver(s))
                        && s == msg,
                    Some(LookupOutcome::Ips(ips)) => if ips@.len() == 0 {
                        r matches Err(ResolverError::Resolver(s)) && s@
                            == "Expect at least one A dns record"@
                    } else {
                        r matches Ok(Async::Ready(v)) && v@ == with_port(ips@, m.port)
                    },
                }))
                &&& (r matches Ok(Async::Ready(v)) ==> v@.len() >= 1)
            }),
    {
        let mut taken_error: Option<ResolverError> = None;
        core::mem::swap(&mut taken_error, &mut self.error);
        if let Some(e) = taken_error {
            return Err(e);
        }
        let mut taken_error2: Option<String> = None;
        core::mem::swap(&mut taken_error2, &mut self.error2);
        if let Some(e2) = taken_error2 {
            return Err(ResolverError::Resolver(e2));
        }
        let mut taken_addrs: Option<VecDeque<SocketAddress>> = None;
        core::mem::swap(&mut taken_addrs, &mut self.addrs);
        if let Some(q) = taken_addrs {
            assert(q@.len() >= 1);
            return Ok(Async::Ready(q));
        }
        match lookup_result {
            None => Ok(Async::NotReady),
            Some(LookupOutcome::Error(msg)) => Err(ResolverError::Resolver(msg)),
            Some(LookupOutcome::Ips(ips)) => {
                if ips.len() == 0 {
                    return Err(
                        ResolverError::Resolver(
                            "Expect at least one A dns record".to_owned(),
                        ),
                    );
                }
                let port = self.port;
                let mut out: VecDeque<SocketAddress> = VecDeque::new();
                let mut i: usize = 0;
                while i < ips.len()
                    invariant
                        0 <= i <= ips@.len(),
                        out@ == with_port(ips@, port).subrange(0, i as int),
                    decreases ips@.len() - i,
                {
                    let ip = ips[i];
                    out.push_back(SocketAddress { ip, port });
                    proof {
                        assert(out@ =~= with_port(ips@, port).subrange(0, i as int + 1));
                    }
                    i = i + 1;
                }
                proof {
                    assert(out@ =~= with_port(ips@, port));
                }
                Ok(Async::Ready(out))
            },
        }
    }
}

/// An explicit configuration for the resolver backend: the nameserver
/// addresses to use.  A service built without one lets the backend read the
/// ambient system configuration instead.
#[derive(PartialEq, Eq, Debug)]
pub struct ResolverConfig {
    pub nameservers: Vec<SocketAddress>,
}

/// A handle to an initialized resolver backend instance, owned by the
/// driver; the service only records which instance it reuses.
#[derive(Clone, Copy, PartialEq, Eq, Structural, Debug)]
pub struct ResolverHandle {
    pub id: u64,
}

/// The mathematical state of a `Resolver` service.
#[verifier::ext_equal]
pub ghost struct ResolverModel {
    /// The backend handle, once initialized.
    pub resolver: Option<ResolverHandle>,
    /// The nameservers of an explicit configuration not yet consumed.
    pub cfg: Option<Seq<SocketAddress>>,
    /// A permanently-recorded construction error.
    pub err: Option<Seq<char>>,
}

/// The one-shot initialization gate: the first handle offered is kept, and
/// every later offer leaves the service unchanged.
pub open spec fn service_started(m: ResolverModel, built: ResolverHandle) -> ResolverModel {
    if m.resolver is None {
        ResolverModel { resolver: Some(built), ..m }
    } else {
        m
    }
}

/// The dispatch façade: owns the lazily-initialized backend handle and
/// composes the two state machines per request kind.
pub struct Resolver {
    resolver: Option<ResolverHandle>,
    cfg: Option<ResolverConfig>,
    err: Option<String>,
}

impl View for Resolver {
    type V = ResolverModel;

    closed spec fn view(&self) -> ResolverModel {
        ResolverModel {
            resolver: self.resolver,
            cfg: match self.cfg {
                Some(c) => Some(c.nameservers@),
                None => None,
            },
            err: match self.err {
                Some(e) => Some(e@),
                None => None,
            },
        }
    }
}

impl Default for Resolver {
    /// A service that will let the backend read the ambient system
    /// configuration on first use.
    fn default() -> (r: Resolver)
        ensures
            r@.resolver is None,
            r@.cfg is None,
            r@.err is None,
    {
        Resolver { resolver: None, cfg: None, err: None }
    }
}

impl Resolver {
    /// A service that will build its backend from the given explicit
    /// configuration on first use.
    pub fn new(config: ResolverConfig) -> (r: Resolver)
        ensures
            r@.resolver is None,
            r@.cfg == Some(config.nameservers@),
            r@.err is None,
    {
        Resolver { resolver: None, cfg: Some(config), err: None }
    }

    /// A service constructed in a permanently-errored state: every request
    /// fails immediately with this error.
    pub fn with_error(err: String) -> (r: Resolver)
        ensures
            r@.resolver is None,
            r@.cfg is None,
            r@.err == Some(err@),
    {
        Resolver { resolver: None, cfg: None, err: Some(err) }
    }

    /// Whether the backend handle still has to be built.
    pub fn needs_init(&self) -> (r: bool)
        ensures
            r == (self@.resolver is None),
    {
        match self.resolver {
            None => true,
            Some(_) => false,
        }
    }

    /// Hands out the explicit configuration, if one was given, for the
    /// driver to build the backend from; without one the driver should read
    /// the ambient system configuration and, when that fails, fall back to
    /// built-in defaults.
    pub fn take_config(&mut self) -> (r: Option<ResolverConfig>)
        ensures
            final(self)@ =~= (ResolverModel { cfg: None, ..old(self)@ }),
            match r {
                Some(c) => old(self)@.cfg == Some(c.nameservers@),
                None => old(self)@.cfg is None,
            },
    {
        let mut taken: Option<ResolverConfig> = None;
        core::mem::swap(&mut taken, &mut self.cfg);
        taken
    }

    /// Records the backend handle the driver built.  This is a one-shot
    /// initialization gate: once a handle is kept, later calls change nothing, so the handle is
    /// reused for the remaining lifetime of the service and never rebuilt.
    pub fn started(&mut self, built: ResolverHandle)
        ensures
            final(self)@ == service_started(old(self)@, built),
    {
        if self.needs_init() {
            self.resolver = Some(built);
            proof {
                assert(self@ =~= service_started(old(self)@, built));
            }
        }
    }

    /// The handle the service reuses, once initialized.
    pub fn handle(&self) -> (r: Option<ResolverHandle>)
        ensures
            r == self@.resolver,
    {
        self.resolver
    }

    /// Dispatches a resolve-only request.  An errored service fails the
    /// request immediately; otherwise resolution starts on the request's
    /// name with its fallback port (0 when absent).
    pub fn handle_resolve(&self, msg: Resolve) -> (r: ResolveFut)
        requires
            self@.err is Some || self@.resolver is Some,
        ensures
            self@.err matches Some(e) ==> r@ == resolve_err(e),
            self@.err is None ==> r@ == resolve_start(msg.name@, msg.port.unwrap_or(0)),
            r.wf(),
    {
        match &self.err {
            Some(err) => ResolveFut::err(err.clone()),
            None => ResolveFut::new(msg.name.as_str(), msg.port.unwrap_or(0)),
        }
    }

    /// Dispatches a resolve-then-connect request: resolution starts exactly
    /// as for a resolve-only request, and the request's timeout budget is
    /// returned for the race phase that follows a successful resolution.
    pub fn handle_connect(&self, msg: Connect) -> (r: (ResolveFut, u64))
        requires
            self@.err is Some || self@.resolver is Some,
        ensures
            self@.err matches Some(e) ==> r.0@ == resolve_err(e),
            self@.err is None ==> r.0@ == resolve_start(msg.name@, msg.port.unwrap_or(0)),
            r.0.wf(),
            r.1 == msg.timeout,
    {
        let timeout = msg.timeout;
        let fut = match &self.err {
            Some(err) => ResolveFut::err(err.clone()),
            None => ResolveFut::new(msg.name.as_str(), msg.port.unwrap_or(0)),
        };
        (fut, timeout)
    }

    /// Dispatches a direct-connect request: skips resolution and races a
    /// single-element queue with the default timeout of one second.  An
    /// errored service fails the request immediately.
    pub fn handle_connect_addr(&self, msg: ConnectAddr, now: u64) -> (r: Result<
        TcpConnector,
        ResolverError,
    >)
        ensures
            self@.err matches Some(e) ==> r matches Err(ResolverError::Resolver(s)) && s@ == e,
            self@.err is None ==> (r matches Ok(c) && c@ == race_start(seq![msg.0], now, 1000)),
    {
        match &self.err {
            Some(err) => Err(ResolverError::Resolver(err.clone())),
            None => {
                let mut addrs: VecDeque<SocketAddress> = VecDeque::new();
                addrs.push_back(msg.0);
                proof {
                    assert(addrs@ =~= seq![msg.0]);
                }
                Ok(TcpConnector::new(addrs, now))
            },
        }
    }
}

/// Literal short-circuiting: a specification that is itself a valid literal
/// address starts resolution with exactly that one address already queued
/// and no lookup requested, so the backend is never invoked for it.
pub proof fn lemma_literal_short_circuits(name: Seq<char>, fallback: u16, a: SocketAddress)
    requires
        socket_literal_of(name) == Some(a),
    ensures
        resolve_start(name, fallback).addrs == Some(seq![a]),
        resolve_start(name, fallback).lookup is None,
        resolve_start(name, fallback).error is None,
        resolve_start(name, fallback).error2 is None,
{
}

/// Port-text leniency: for a non-literal specification whose trailing port
/// text does not parse, resolution proceeds with the fallback port and
/// raises no error.
pub proof fn lemma_lenient_port(name: Seq<char>, fallback: u16)
    requires
        socket_literal_of(name) is None,
        crate::parse::u16_text_of(crate::parse::port_part(name)) is None,
    ensures
        resolve_start(name, fallback).port == fallback,
        resolve_start(name, fallback).lookup == Some(host_part(name)),
        resolve_start(name, fallback).error is None,
        resolve_start(name, fallback).error2 is None,
{
}

/// Initialization happens at most once: the first handle offered to the
/// one-shot initialization gate is kept, and offering any further handle — in particular
/// between two resolve requests on the same service — changes nothing, so
/// both requests reuse the same initialized handle.
pub proof fn lemma_init_at_most_once(m: ResolverModel, h1: ResolverHandle, h2: ResolverHandle)
    requires
        m.resolver is None,
    ensures
        service_started(m, h1).resolver == Some(h1),
        service_started(service_started(m, h1), h2) == service_started(m, h1),
        service_started(service_started(m, h1), h2).resolver == Some(h1),
{
    assert(service_started(service_started(m, h1), h2) =~= service_started(m, h1));
}

} // verus!
