//! Server lifecycle and per-datagram dispatch, as a verified state machine.
//!
//! The receive loop itself needs a socket and a scheduler and so lives
//! outside the library; every decision it takes runs through [`ServerCore`]:
//! whether to start, whether a datagram is admitted, what a unit of work
//! computes ([`handle_datagram`]), and how a unit gives its permit back.
//! The lifecycle is `Created → Running → ShuttingDown → Stopped`; shutdown
//! stops admission at once and lets admitted units drain.

use vstd::prelude::*;
use crate::gate::{AdmissionGate, GateEvent, gate_step};
use crate::handler::{DnsRequestHandler, StaticAHandler, spec_static_response};
use crate::message::{encoded_response, parsed_request};

verus! {

/// The lifecycle states of the query server.
#[derive(Clone, Copy, PartialEq, Eq, Structural, Debug)]
pub enum ServerState {
    Created,
    Running,
    ShuttingDown,
    Stopped,
}

/// How one unit of query-processing work exited. Every one of these paths
/// gives the admission permit back exactly once.
#[derive(Clone, Copy, PartialEq, Eq, Structural, Debug)]
pub enum UnitOutcome {
    Sent,
    SendFailed,
    EncodeFailed,
    NoResponse,
    DecodeFailed,
}

/// Configuration of the server: where to listen, how many units may be in
/// flight at once, and the size of the datagram receive buffer.
#[derive(Clone, Debug)]
pub struct DnsConfig {
    pub listen: String,
    pub max_concurrency: usize,
    pub udp_buf_size: usize,
}

impl Default for DnsConfig {
    /// The stock configuration: listen on `0.0.0.0:5300`, at most 512 units
    /// in flight, 2048-byte receive buffer.
    fn default() -> (c: DnsConfig)
        ensures
            c.listen@ == "0.0.0.0:5300"@,
            c.max_concurrency == 512,
            c.udp_buf_size == 2048,
    {
        DnsConfig { listen: "0.0.0.0:5300".to_owned(), max_concurrency: 512, udp_buf_size: 2048 }
    }
}

/// Why a server could not be built. Configuration faults surface here,
/// before the server ever runs.
#[derive(Clone, Copy, PartialEq, Eq, Structural, Debug)]
pub enum ConfigError {
    MissingHandler,
    ZeroConcurrency,
    ZeroBufferSize,
}

/// The decision-making core of the query server: its lifecycle state, its
/// [`AdmissionGate`], and its configuration. The surrounding loop performs
/// the waiting and the I/O; the core decides.
pub struct ServerCore {
    state: ServerState,
    gate: AdmissionGate,
    config: DnsConfig,
}

impl ServerCore {
    /// The current lifecycle state.
    pub closed spec fn state(self) -> ServerState {
        self.state
    }

    /// The admission controller.
    pub closed spec fn gate(self) -> AdmissionGate {
        self.gate
    }

    /// The configuration the server was built with.
    pub closed spec fn config(self) -> DnsConfig {
        self.config
    }

    #[verifier::type_invariant]
    closed spec fn wf(self) -> bool {
        &&& self.gate.capacity() == self.config.max_concurrency as int
        &&& self.gate.active() <= self.gate.capacity()
        &&& self.state == ServerState::Stopped ==> self.gate.active() == 0
    }

    /// A freshly created server: not yet running, admission open and empty.
    pub fn new(config: DnsConfig) -> (core: ServerCore)
        ensures
            core.state() == ServerState::Created,
            core.config() == config,
            core.gate().capacity() == config.max_concurrency as int,
            core.gate().active() == 0,
            !core.gate().is_closed(),
    {
        let gate = AdmissionGate::new(config.max_concurrency);
        ServerCore { state: ServerState::Created, gate, config }
    }

    /// Move `Created → Running`. Returns whether the receive loop is to be
    /// started: calling `start` again while already running is a no-op, and
    /// a server that was shut down does not restart.
    pub fn start(&mut self) -> (started: bool)
        ensures
            started == (old(self).state() == ServerState::Created),
            final(self).state() == (if old(self).state() == ServerState::Created {
                ServerState::Running
            } else {
                old(self).state()
            }),
            final(self).gate() == old(self).gate(),
            final(self).config() == old(self).config(),
    {
        proof {
            use_type_invariant(&*self);
        }
        if self.state == ServerState::Created {
            self.state = ServerState::Running;
            true
        } else {
            false
        }
    }

    /// Signal shutdown: a running server moves to `ShuttingDown` and
    /// admission closes, so no further datagram is admitted; units already
    /// admitted keep their permits and finish.
    pub fn shutdown(&mut self)
        ensures
            final(self).state() == (if old(self).state() == ServerState::Running {
                ServerState::ShuttingDown
            } else {
                old(self).state()
            }),
            final(self).gate() == gate_step(old(self).gate(), GateEvent::Close),
            final(self).gate().is_closed(),
            final(self).gate().active() == old(self).gate().active(),
            final(self).gate().capacity() == old(self).gate().capacity(),
            final(self).config() == old(self).config(),
    {
        proof {
            use_type_invariant(&*self);
        }
        if self.state == ServerState::Running {
            self.state = ServerState::ShuttingDown;
        }
        self.gate.close();
    }

    /// The receive loop observed the shutdown signal and exited. The server
    /// reports `Stopped` only once it has drained: while a unit still holds a
    /// permit the state stays `ShuttingDown`, and the caller comes back after
    /// the unit finishes.
    pub fn observe_shutdown(&mut self)
        ensures
            final(self).state() == (if old(self).state() == ServerState::ShuttingDown
                && old(self).gate().active() == 0 {
                ServerState::Stopped
            } else {
                old(self).state()
            }),
            final(self).gate() == old(self).gate(),
            final(self).config() == old(self).config(),
    {
        proof {
            use_type_invariant(&*self);
        }
        if self.state == ServerState::ShuttingDown && self.gate.active_count() == 0 {
            self.state = ServerState::Stopped;
        }
    }

    /// Decide whether a freshly received datagram is admitted. Admission
    /// takes one permit; a datagram that arrives while the server is not
    /// running, admission is closed, or capacity is reached is dropped.
    pub fn try_admit(&mut self) -> (admitted: bool)
        ensures
            admitted == (old(self).state() == ServerState::Running
                && !old(self).gate().is_closed()
                && old(self).gate().active() < old(self).gate().capacity()),
            final(self).gate() == (if old(self).state() == ServerState::Running {
                gate_step(old(self).gate(), GateEvent::Arrive)
            } else {
                old(self).gate()
            }),
            admitted ==> final(self).gate().active() == old(self).gate().active() + 1
                && final(self).gate().active() > 0,
            !admitted ==> final(self).gate().active() == old(self).gate().active(),
            final(self).gate().active() <= final(self).gate().capacity(),
            final(self).gate().capacity() == old(self).gate().capacity(),
            final(self).gate().is_closed() == old(self).gate().is_closed(),
            final(self).state() == old(self).state(),
            final(self).config() == old(self).config(),
    {
        proof {
            use_type_invariant(&*self);
        }
        if self.state == ServerState::Running {
            self.gate.try_acquire()
        } else {
            false
        }
    }

    /// An admitted unit exited on the given path; its permit goes back
    /// exactly once, whichever path that was.
    pub fn finish_unit(&mut self, outcome: UnitOutcome)
        requires
            old(self).gate().active() > 0,
        ensures
            final(self).gate() == gate_step(old(self).gate(), GateEvent::Depart),
            final(self).gate().active() == old(self).gate().active() - 1,
            final(self).state() == old(self).state(),
            final(self).config() == old(self).config(),
    {
        proof {
            use_type_invariant(&*self);
        }
        match outcome {
            UnitOutcome::Sent => self.gate.release(),
            UnitOutcome::SendFailed => self.gate.release(),
            UnitOutcome::EncodeFailed => self.gate.release(),
            UnitOutcome::NoResponse => self.gate.release(),
            UnitOutcome::DecodeFailed => self.gate.release(),
        }
    }

    /// The lifecycle state the server is in right now. A report of `Stopped`
    /// carries the drain guarantee: no admitted unit still holds a permit.
    pub fn lifecycle_state(&self) -> (s: ServerState)
        ensures
            s == self.state(),
            s == ServerState::Stopped ==> self.gate().active() == 0,
    {
        proof {
            use_type_invariant(&*self);
        }
        self.state
    }

    /// Whether the server is in the `Running` state.
    pub fn is_running(&self) -> (r: bool)
        ensures
            r == (self.state() == ServerState::Running),
    {
        self.state == ServerState::Running
    }

    /// The configured listen address.
    pub fn listen_addr(&self) -> (r: &String)
        ensures
            r@ == self.config().listen@,
    {
        &self.config.listen
    }

    /// How many admitted units have not yet finished.
    pub fn active_units(&self) -> (n: usize)
        ensures
            n as int == self.gate().active(),
    {
        self.gate.active_count()
    }
}

/// Builder for the query server: configuration plus the one required
/// request handler.
pub struct DnsServerBuilder<H: DnsRequestHandler> {
    config: DnsConfig,
    handler: Option<H>,
}

impl<H: DnsRequestHandler> DnsServerBuilder<H> {
    /// The configuration given so far.
    pub closed spec fn spec_config(self) -> DnsConfig {
        self.config
    }

    /// The handler given so far.
    pub closed spec fn spec_handler(self) -> Option<H> {
        self.handler
    }

    /// Start building a server with the given configuration.
    pub fn new(config: DnsConfig) -> (b: Self)
        ensures
            b.spec_config() == config,
            b.spec_handler() is None,
    {
        DnsServerBuilder { config, handler: None }
    }

    /// Supply the request handler.
    pub fn handler(self, handler: H) -> (b: Self)
        ensures
            b.spec_config() == self.spec_config(),
            b.spec_handler() == Some(handler),
    {
        DnsServerBuilder { config: self.config, handler: Some(handler) }
    }

    /// Check the configuration and hand back the server core together with
    /// its handler. Fails fast, before anything runs: a handler must have
    /// been supplied, and both the concurrency bound and the receive buffer
    /// size must be positive.
    pub fn build(self) -> (r: Result<(ServerCore, H), ConfigError>)
        ensures
            match r {
                Ok(p) => self.spec_handler() == Some(p.1)
                    && self.spec_config().max_concurrency > 0
                    && self.spec_config().udp_buf_size > 0
                    && p.0.state() == ServerState::Created
                    && p.0.config() == self.spec_config()
                    && p.0.gate().capacity() == self.spec_config().max_concurrency as int
                    && p.0.gate().active() == 0
                    && !p.0.gate().is_closed(),
                Err(e) => match e {
                    ConfigError::MissingHandler => self.spec_handler() is None,
                    ConfigError::ZeroConcurrency => self.spec_handler() is Some
                        && self.spec_config().max_concurrency == 0,
                    ConfigError::ZeroBufferSize => self.spec_handler() is Some
                        && self.spec_config().max_concurrency > 0
                        && self.spec_config().udp_buf_size == 0,
                },
            },
    {
        let DnsServerBuilder { config, handler } = self;
        match handler {
            None => Err(ConfigError::MissingHandler),
            Some(h) => {
                if config.max_concurrency == 0 {
                    Err(ConfigError::ZeroConcurrency)
                } else if config.udp_buf_size == 0 {
                    Err(ConfigError::ZeroBufferSize)
                } else {
                    Ok((ServerCore::new(config), h))
                }
            },
        }
    }
}

/// One unit of query-processing work, complete: decode the datagram from
/// `peer`, let `handler` answer it, and encode the reply. `None` means the
/// datagram is dropped in silence — undecodable bytes, a handler that
/// declines, or a reply that cannot be encoded.
pub fn handle_datagram<H: DnsRequestHandler>(handler: &H, payload: &[u8], peer: &str) -> (r: Option<
    Vec<u8>,
>)
    ensures
        (match parsed_request(payload@) {
            None => r is None,
            Some(req) => (match handler.spec_handle(req, peer@) {
                None => r is None,
                Some(respv) => (match r {
                    Some(bytes) => encoded_response(respv) == Some(bytes@),
                    None => encoded_response(respv) is None,
                }),
            }),
        }),
{
    match crate::message::decode_request(payload) {
        None => None,
        Some(req) => match handler.handle(&req, peer) {
            None => None,
            Some(resp) => crate::message::encode_response(&resp),
        },
    }
}

/// The plain server's per-datagram work: every decoded query, whoever sent
/// it, is answered by the static responder and the reply encoded for
/// sending.
pub fn handle_query(payload: &[u8], peer: &str) -> (r: Option<Vec<u8>>)
    ensures
        (match parsed_request(payload@) {
            None => r is None,
            Some(req) => (match r {
                Some(bytes) => encoded_response(spec_static_response(req)) == Some(bytes@),
                None => encoded_response(spec_static_response(req)) is None,
            }),
        }),
{
    let h = StaticAHandler;
    handle_datagram(&h, payload, peer)
}

} // verus!
