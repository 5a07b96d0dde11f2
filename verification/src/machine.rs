//! The per-connection SOCKS5 state machine.
//!
//! One `Socks5Connection` drives one accepted stream through handshake,
//! optional password sub-negotiation, the single request, dispatch to the
//! connection manager, the single response, and forwarding. The machine is
//! pure: a driver reads messages and manager outcomes, feeds them in as
//! events, and performs the returned output (bytes to write, a request to
//! submit, whether to start forwarding).

use vstd::prelude::*;

use crate::codec::encode_handshake_response;
use crate::codec::encode_password_response;
use crate::codec::encode_response;
use crate::codec::lemma_wildcard_response_bytes;
use crate::codec::spec_encode_handshake_response;
use crate::codec::spec_encode_password_response;
use crate::codec::spec_wildcard_response_bytes;
use crate::msg::wildcard_address;
use crate::msg::HandshakePasswordRequest;
use crate::msg::HandshakePasswordResponse;
use crate::msg::HandshakeRequest;
use crate::msg::HandshakeResponse;
use crate::msg::Reply;
use crate::msg::Request;
use crate::msg::Response;
use crate::msg::Socks5AuthMethod;
use crate::msg::METHOD_PASSWORD;
use crate::msg::METHOD_UNACCEPTABLE;
use crate::msg::PASSWORD_STATUS_FAILED;
use crate::msg::PASSWORD_STATUS_SUCCESS;

verus! {

/// The ways a connection ends abnormally: a socket failure, a protocol
/// violation by the client, or an unreachable connection manager.
#[derive(Clone, Copy, PartialEq, Eq, Structural, Debug)]
pub enum Socks5ConnectionError {
    Io,
    Socks5,
    ConnectionManager,
}

/// A failure the connection manager resolves a request with: either one
/// classified by the tunnel protocol, already mapped to its reply code, or
/// any other failure.
#[derive(Clone, Copy, PartialEq, Eq, Structural, Debug)]
pub enum ConnectionFailure {
    Tunnel(Reply),
    Other,
}

/// The reply code sent for a manager failure: a tunnel-classified failure
/// keeps its own mapping, every other failure maps to `GeneralFailure`.
pub open spec fn spec_reply_for_failure(f: ConnectionFailure) -> Reply {
    match f {
        ConnectionFailure::Tunnel(reply) => reply,
        ConnectionFailure::Other => Reply::GeneralFailure,
    }
}

pub fn reply_for_failure(f: &ConnectionFailure) -> (r: Reply)
    ensures
        r == spec_reply_for_failure(*f),
{
    match f {
        ConnectionFailure::Tunnel(reply) => *reply,
        ConnectionFailure::Other => Reply::GeneralFailure,
    }
}

/// Selects the server's authentication method from its configuration:
/// `Password` iff both a username and a password are configured, else
/// `NoAuth`. The result is always a selectable method.
pub fn select_auth_method(username: Option<Vec<u8>>, password: Option<Vec<u8>>) -> (r:
    Socks5AuthMethod)
    ensures
        username matches Some(u) ==> password matches Some(p) ==> (r
            matches Socks5AuthMethod::Password { username: u2, password: p2 } && u2@ == u@ && p2@
            == p@),
        username is None || password is None ==> r is NoAuth,
        r.selectable(),
{
    match (username, password) {
        (Some(u), Some(p)) => Socks5AuthMethod::Password { username: u, password: p },
        (Some(_), None) => Socks5AuthMethod::NoAuth,
        (None, Some(_)) => Socks5AuthMethod::NoAuth,
        (None, None) => Socks5AuthMethod::NoAuth,
    }
}

/// Where a connection stands.
#[derive(Clone, Copy, PartialEq, Eq, Structural, Debug)]
pub enum Phase {
    /// Waiting for the client's handshake request.
    AwaitHandshake,
    /// Waiting for the client's password sub-negotiation request.
    AwaitPassword,
    /// Authenticated; waiting for the client's request.
    AwaitRequest,
    /// Request submitted; waiting for the manager's resolution.
    AwaitManager,
    /// A `Succeeded` response was written; bytes are being bridged.
    Forwarding,
    /// The connection is over; nothing is read or written any more.
    Closed,
}

/// What a driver hands the machine: a decoded client message or the
/// manager's resolution of the submitted request.
#[derive(Clone, Debug)]
pub enum Event {
    Handshake(HandshakeRequest),
    PasswordAuth(HandshakePasswordRequest),
    SocksRequest(Request),
    /// The manager resolved the request with a pair of stream halves.
    ManagerAccepted,
    /// The manager resolved the request with a typed failure.
    ManagerRejected(ConnectionFailure),
    /// The request could not be handed to the manager at all.
    ManagerUnavailable,
}

/// What one step asks the driver to do.
pub struct StepOutput {
    /// Bytes to write to the client, in order, before anything else.
    pub write: Option<Vec<u8>>,
    /// A request to submit to the connection manager.
    pub submit: Option<Request>,
    /// Start bridging client and tunnel bytes.
    pub forward: bool,
    /// End the connection with this error.
    pub error: Option<Socks5ConnectionError>,
}

/// The spec-level image of a step's output.
pub struct StepEffect {
    pub write: Option<Seq<u8>>,
    pub submit: Option<Request>,
    pub forward: bool,
    pub error: Option<Socks5ConnectionError>,
}

/// An output with no write, no submission, no forwarding and no error.
pub open spec fn no_effect() -> StepEffect {
    StepEffect { write: None, submit: None, forward: false, error: None }
}

/// The complete transition function of the connection machine: from the
/// configured method, the current phase and an event to the next phase and
/// the effect the driver must perform.
pub open spec fn step_spec(auth: Socks5AuthMethod, phase: Phase, event: Event) -> (Phase,
    StepEffect) {
    match (phase, event) {
        (Phase::AwaitHandshake, Event::Handshake(req)) => {
            if !auth.selectable() {
                // GSSAPI and the unacceptable sentinel have no negotiation
                // path: fail closed without an answer.
                (Phase::Closed, no_effect())
            } else if req.methods@.contains(auth.spec_as_u8()) {
                let answer = spec_encode_handshake_response(
                    HandshakeResponse { method: auth.spec_as_u8() },
                );
                if auth is Password {
                    (Phase::AwaitPassword, StepEffect { write: Some(answer), ..no_effect() })
                } else {
                    (Phase::AwaitRequest, StepEffect { write: Some(answer), ..no_effect() })
                }
            } else {
                let answer = spec_encode_handshake_response(
                    HandshakeResponse { method: METHOD_UNACCEPTABLE },
                );
                (Phase::Closed, StepEffect { write: Some(answer), ..no_effect() })
            }
        },
        (Phase::AwaitPassword, Event::PasswordAuth(req)) => {
            if req.spec_authenticated(auth) {
                let answer = spec_encode_password_response(
                    HandshakePasswordResponse { status: PASSWORD_STATUS_SUCCESS },
                );
                (Phase::AwaitRequest, StepEffect { write: Some(answer), ..no_effect() })
            } else {
                let answer = spec_encode_password_response(
                    HandshakePasswordResponse { status: PASSWORD_STATUS_FAILED },
                );
                (Phase::Closed, StepEffect { write: Some(answer), ..no_effect() })
            }
        },
        (Phase::AwaitRequest, Event::SocksRequest(req)) => (
            Phase::AwaitManager,
            StepEffect { submit: Some(req), ..no_effect() },
        ),
        (Phase::AwaitManager, Event::ManagerAccepted) => (
            Phase::Forwarding,
            StepEffect {
                write: Some(spec_wildcard_response_bytes(Reply::Succeeded)),
                forward: true,
                ..no_effect()
            },
        ),
        (Phase::AwaitManager, Event::ManagerRejected(failure)) => (
            Phase::Closed,
            StepEffect {
                write: Some(spec_wildcard_response_bytes(spec_reply_for_failure(failure))),
                ..no_effect()
            },
        ),
        (Phase::AwaitManager, Event::ManagerUnavailable) => (
            Phase::Closed,
            StepEffect {
                write: Some(spec_wildcard_response_bytes(Reply::GeneralFailure)),
                error: Some(Socks5ConnectionError::ConnectionManager),
                ..no_effect()
            },
        ),
        _ => (Phase::Closed, no_effect()),
    }
}

/// The output a driver sees is the effect the transition function asks for.
pub open spec fn output_matches(out: StepOutput, eff: StepEffect) -> bool {
    &&& (out.write matches Some(v) ==> (eff.write matches Some(s) && v@ == s))
    &&& (out.write is None <==> eff.write is None)
    &&& out.submit == eff.submit
    &&& out.forward == eff.forward
    &&& out.error == eff.error
}

/// One SOCKS5 connection: the configured method and the current phase.
pub struct Socks5Connection {
    pub auth_method: Socks5AuthMethod,
    pub phase: Phase,
}

impl Socks5Connection {
    /// A fresh connection starts at the handshake.
    pub fn new(auth_method: Socks5AuthMethod) -> (r: Self)
        ensures
            r.auth_method == auth_method,
            r.phase is AwaitHandshake,
    {
        Self { auth_method, phase: Phase::AwaitHandshake }
    }

    /// Performs one transition, exactly as `step_spec` prescribes.
    pub fn step(&mut self, event: Event) -> (out: StepOutput)
        ensures
            final(self).auth_method == old(self).auth_method,
            final(self).phase == step_spec(old(self).auth_method, old(self).phase, event).0,
            output_matches(out, step_spec(old(self).auth_method, old(self).phase, event).1),
    {
        match (self.phase, event) {
            (Phase::AwaitHandshake, Event::Handshake(req)) => {
                match &self.auth_method {
                    Socks5AuthMethod::NoAuth | Socks5AuthMethod::Password { .. } => {
                        let code = self.auth_method.as_u8();
                        if contains_method(&req.methods, code) {
                            let answer = encode_handshake_response(&HandshakeResponse::new(code));
                            self.phase = if code == METHOD_PASSWORD {
                                Phase::AwaitPassword
                            } else {
                                Phase::AwaitRequest
                            };
                            proof {
                                assert(self.auth_method is Password <==> code == METHOD_PASSWORD);
                            }
                            StepOutput {
                                write: Some(answer),
                                submit: None,
                                forward: false,
                                error: None,
                            }
                        } else {
                            let answer = encode_handshake_response(
                                &HandshakeResponse::new(METHOD_UNACCEPTABLE),
                            );
                            self.phase = Phase::Closed;
                            StepOutput {
                                write: Some(answer),
                                submit: None,
                                forward: false,
                                error: None,
                            }
                        }
                    },
                    _ => {
                        self.phase = Phase::Closed;
                        StepOutput { write: None, submit: None, forward: false, error: None }
                    },
                }
            },
            (Phase::AwaitPassword, Event::PasswordAuth(req)) => {
                if req.authenticated(&self.auth_method) {
                    let answer = encode_password_response(
                        &HandshakePasswordResponse::new(PASSWORD_STATUS_SUCCESS),
                    );
                    self.phase = Phase::AwaitRequest;
                    StepOutput { write: Some(answer), submit: None, forward: false, error: None }
                } else {
                    let answer = encode_password_response(
                        &HandshakePasswordResponse::new(PASSWORD_STATUS_FAILED),
                    );
                    self.phase = Phase::Closed;
                    StepOutput { write: Some(answer), submit: None, forward: false, error: None }
                }
            },
            (Phase::AwaitRequest, Event::SocksRequest(req)) => {
                self.phase = Phase::AwaitManager;
                StepOutput { write: None, submit: Some(req), forward: false, error: None }
            },
            (Phase::AwaitManager, Event::ManagerAccepted) => {
                let response = Response::new(Reply::Succeeded, wildcard_address());
                let answer = encode_response(&response);
                proof {
                    lemma_wildcard_response_bytes(response);
                }
                self.phase = Phase::Forwarding;
                StepOutput { write: Some(answer), submit: None, forward: true, error: None }
            },
            (Phase::AwaitManager, Event::ManagerRejected(failure)) => {
                let response = Response::new(reply_for_failure(&failure), wildcard_address());
                let answer = encode_response(&response);
                proof {
                    lemma_wildcard_response_bytes(response);
                }
                self.phase = Phase::Closed;
                StepOutput { write: Some(answer), submit: None, forward: false, error: None }
            },
            (Phase::AwaitManager, Event::ManagerUnavailable) => {
                let response = Response::new(Reply::GeneralFailure, wildcard_address());
                let answer = encode_response(&response);
                proof {
                    lemma_wildcard_response_bytes(response);
                }
                self.phase = Phase::Closed;
                StepOutput {
                    write: Some(answer),
                    submit: None,
                    forward: false,
                    error: Some(Socks5ConnectionError::ConnectionManager),
                }
            },
            _ => {
                self.phase = Phase::Closed;
                StepOutput { write: None, submit: None, forward: false, error: None }
            },
        }
    }
}

/// True iff `methods` contains the identifier `code`.
pub fn contains_method(methods: &Vec<u8>, code: u8) -> (r: bool)
    ensures
        r <==> methods@.contains(code),
{
    let n = methods.len();
    let mut i: usize = 0;
    while i < n
        invariant
            n == methods@.len(),
            i <= n,
            forall|j: int| 0 <= j < i ==> methods@[j] != code,
        decreases n - i,
    {
        if methods[i] == code {
            return true;
        }
        i = i + 1;
    }
    false
}

} // verus!
