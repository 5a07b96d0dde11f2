//! Laws of the connection machine, proved once and for all over the
//! transition function `step_spec`: what the handshake answers, when a
//! request may be submitted, and that exactly one response is written per
//! connection, before any forwarding.

use vstd::prelude::*;

use crate::codec::spec_encode_handshake_response;
use crate::codec::spec_encode_password_response;
use crate::codec::spec_wildcard_response_bytes;
use crate::machine::no_effect;
use crate::machine::spec_reply_for_failure;
use crate::machine::step_spec;
use crate::machine::ConnectionFailure;
use crate::machine::Event;
use crate::machine::Phase;
use crate::machine::StepEffect;
use crate::msg::HandshakePasswordRequest;
use crate::msg::HandshakePasswordResponse;
use crate::msg::HandshakeRequest;
use crate::msg::HandshakeResponse;
use crate::msg::Reply;
use crate::msg::Socks5AuthMethod;
use crate::msg::METHOD_UNACCEPTABLE;
use crate::msg::PASSWORD_STATUS_FAILED;
use crate::msg::PASSWORD_STATUS_SUCCESS;

verus! {

/// The position of a phase in the fixed forward order of a connection.
pub open spec fn phase_rank(p: Phase) -> int {
    match p {
        Phase::AwaitHandshake => 0,
        Phase::AwaitPassword => 1,
        Phase::AwaitRequest => 2,
        Phase::AwaitManager => 3,
        Phase::Forwarding => 4,
        Phase::Closed => 5,
    }
}

/// A connection never moves backward: every transition keeps or raises the
/// rank of its phase.
pub proof fn lemma_phase_monotonic(auth: Socks5AuthMethod, phase: Phase, event: Event)
    ensures
        phase_rank(step_spec(auth, phase, event).0) >= phase_rank(phase),
{
}

/// For every offered-method set containing the server's configured method,
/// the handshake succeeds: the answer echoes exactly that method
/// identifier, and the connection goes on, to the password sub-negotiation
/// for the password method and straight to the request otherwise.
pub proof fn lemma_handshake_accepts_offered(auth: Socks5AuthMethod, req: HandshakeRequest)
    requires
        auth.selectable(),
        req.methods@.contains(auth.spec_as_u8()),
    ensures
        step_spec(auth, Phase::AwaitHandshake, Event::Handshake(req)).1.write == Some(
            spec_encode_handshake_response(HandshakeResponse { method: auth.spec_as_u8() }),
        ),
        auth is Password ==> step_spec(auth, Phase::AwaitHandshake, Event::Handshake(req)).0
            is AwaitPassword,
        auth is NoAuth ==> step_spec(auth, Phase::AwaitHandshake, Event::Handshake(req)).0
            is AwaitRequest,
{
}

/// For every offered-method set lacking the server's configured method, the
/// handshake answers the unacceptable sentinel and the connection closes;
/// no request is submitted then or ever after.
pub proof fn lemma_handshake_rejects_unoffered(auth: Socks5AuthMethod, req: HandshakeRequest)
    requires
        auth.selectable(),
        !req.methods@.contains(auth.spec_as_u8()),
    ensures
        step_spec(auth, Phase::AwaitHandshake, Event::Handshake(req)).1.write == Some(
            spec_encode_handshake_response(HandshakeResponse { method: METHOD_UNACCEPTABLE }),
        ),
        step_spec(auth, Phase::AwaitHandshake, Event::Handshake(req)).0 is Closed,
        step_spec(auth, Phase::AwaitHandshake, Event::Handshake(req)).1.submit is None,
{
}

/// Password sub-negotiation authenticates iff username and password are
/// byte-exact matches to the configuration: a match answers the success
/// status and proceeds to the request, any difference answers the failure
/// status and closes the connection; no request is submitted either way.
pub proof fn lemma_password_gate(auth: Socks5AuthMethod, req: HandshakePasswordRequest)
    ensures
        req.spec_authenticated(auth) ==> step_spec(
            auth,
            Phase::AwaitPassword,
            Event::PasswordAuth(req),
        ) == (
            Phase::AwaitRequest,
            StepEffect {
                write: Some(
                    spec_encode_password_response(
                        HandshakePasswordResponse { status: PASSWORD_STATUS_SUCCESS },
                    ),
                ),
                ..no_effect()
            },
        ),
        !req.spec_authenticated(auth) ==> step_spec(
            auth,
            Phase::AwaitPassword,
            Event::PasswordAuth(req),
        ) == (
            Phase::Closed,
            StepEffect {
                write: Some(
                    spec_encode_password_response(
                        HandshakePasswordResponse { status: PASSWORD_STATUS_FAILED },
                    ),
                ),
                ..no_effect()
            },
        ),
{
}

/// Once closed, a connection is inert: no event makes it write, submit,
/// forward, or leave `Closed`.
pub proof fn lemma_closed_inert(auth: Socks5AuthMethod, event: Event)
    ensures
        step_spec(auth, Phase::Closed, event) == (Phase::Closed, no_effect()),
{
}

/// On manager success the machine writes the `Succeeded` wildcard response
/// and only then starts forwarding.
pub proof fn lemma_manager_success(auth: Socks5AuthMethod)
    ensures
        step_spec(auth, Phase::AwaitManager, Event::ManagerAccepted) == (
            Phase::Forwarding,
            StepEffect {
                write: Some(spec_wildcard_response_bytes(Reply::Succeeded)),
                forward: true,
                ..no_effect()
            },
        ),
{
}

/// On manager failure the machine writes exactly one response, whose reply
/// is the declared mapping of the failure, and closes without forwarding.
pub proof fn lemma_manager_failure(auth: Socks5AuthMethod, failure: ConnectionFailure)
    ensures
        step_spec(auth, Phase::AwaitManager, Event::ManagerRejected(failure)) == (
            Phase::Closed,
            StepEffect {
                write: Some(spec_wildcard_response_bytes(spec_reply_for_failure(failure))),
                ..no_effect()
            },
        ),
{
}

/// A step writes a response message (as opposed to a handshake or password
/// answer, which are two bytes, not ten) exactly when it says so here.
pub open spec fn writes_response(eff: StepEffect) -> bool {
    exists|reply: Reply| eff.write == Some(#[trigger] spec_wildcard_response_bytes(reply))
}

/// A response is written only by the step that resolves the awaited
/// manager outcome, and every manager outcome writes one.
pub proof fn lemma_response_write_location(auth: Socks5AuthMethod, phase: Phase, event: Event)
    ensures
        writes_response(step_spec(auth, phase, event).1) ==> phase is AwaitManager,
        phase is AwaitManager ==> ((event is ManagerAccepted || event is ManagerRejected || event
            is ManagerUnavailable) <==> writes_response(step_spec(auth, phase, event).1)),
        writes_response(step_spec(auth, phase, event).1) ==> phase_rank(
            step_spec(auth, phase, event).0,
        ) > phase_rank(Phase::AwaitManager),
{
    let eff = step_spec(auth, phase, event).1;
    match eff.write {
        Some(bytes) => {
            if bytes.len() == 2 {
                assert forall|reply: Reply|
                    eff.write != Some(#[trigger] spec_wildcard_response_bytes(reply)) by {
                    assert(spec_wildcard_response_bytes(reply).len() == 10);
                }
            }
        },
        None => {},
    }
    if phase is AwaitManager {
        match event {
            Event::ManagerAccepted => {
                assert(eff.write == Some(spec_wildcard_response_bytes(Reply::Succeeded)));
            },
            Event::ManagerRejected(failure) => {
                assert(eff.write == Some(
                    spec_wildcard_response_bytes(spec_reply_for_failure(failure)),
                ));
            },
            Event::ManagerUnavailable => {
                assert(eff.write == Some(spec_wildcard_response_bytes(Reply::GeneralFailure)));
            },
            _ => {},
        }
    }
}

/// A request is submitted only by the step that reads the single request,
/// and that step moves the connection past reading requests.
pub proof fn lemma_submit_location(auth: Socks5AuthMethod, phase: Phase, event: Event)
    ensures
        step_spec(auth, phase, event).1.submit is Some ==> phase is AwaitRequest,
        step_spec(auth, phase, event).1.submit is Some ==> phase_rank(
            step_spec(auth, phase, event).0,
        ) > phase_rank(Phase::AwaitRequest),
{
}

/// Forwarding starts only on manager success, in the very step that writes
/// the `Succeeded` response.
pub proof fn lemma_forward_only_on_success(auth: Socks5AuthMethod, phase: Phase, event: Event)
    ensures
        step_spec(auth, phase, event).1.forward ==> (phase is AwaitManager && event
            is ManagerAccepted && step_spec(auth, phase, event).1.write == Some(
            spec_wildcard_response_bytes(Reply::Succeeded),
        )),
{
}

/// How many of the steps driven by `events` write a response message.
pub open spec fn run_response_count(auth: Socks5AuthMethod, phase: Phase, events: Seq<Event>) -> nat
    decreases events.len(),
{
    if events.len() == 0 {
        0
    } else {
        let step = step_spec(auth, phase, events[0]);
        (if writes_response(step.1) {
            1nat
        } else {
            0nat
        }) + run_response_count(auth, step.0, events.drop_first())
    }
}

/// How many of the steps driven by `events` submit a request.
pub open spec fn run_submit_count(auth: Socks5AuthMethod, phase: Phase, events: Seq<Event>) -> nat
    decreases events.len(),
{
    if events.len() == 0 {
        0
    } else {
        let step = step_spec(auth, phase, events[0]);
        (if step.1.submit is Some {
            1nat
        } else {
            0nat
        }) + run_submit_count(auth, step.0, events.drop_first())
    }
}

/// Over any sequence of events whatsoever, a connection writes at most one
/// response message, and none at all once it is past the dispatch.
pub proof fn lemma_at_most_one_response(auth: Socks5AuthMethod, phase: Phase, events: Seq<Event>)
    ensures
        run_response_count(auth, phase, events) <= 1,
        phase_rank(phase) > phase_rank(Phase::AwaitManager) ==> run_response_count(
            auth,
            phase,
            events,
        ) == 0,
    decreases events.len(),
{
    if events.len() > 0 {
        let step = step_spec(auth, phase, events[0]);
        lemma_response_write_location(auth, phase, events[0]);
        lemma_phase_monotonic(auth, phase, events[0]);
        lemma_at_most_one_response(auth, step.0, events.drop_first());
    }
}

/// A connection that awaits the manager and sees its resolution writes
/// exactly one response over the whole rest of its life, whatever events
/// follow.
pub proof fn lemma_exactly_one_response_on_resolution(auth: Socks5AuthMethod, events: Seq<Event>)
    requires
        events.len() > 0,
        events[0] is ManagerAccepted || events[0] is ManagerRejected || events[0]
            is ManagerUnavailable,
    ensures
        run_response_count(auth, Phase::AwaitManager, events) == 1,
{
    let step = step_spec(auth, Phase::AwaitManager, events[0]);
    lemma_response_write_location(auth, Phase::AwaitManager, events[0]);
    lemma_at_most_one_response(auth, step.0, events.drop_first());
}

/// Over any sequence of events whatsoever, a connection submits at most one
/// request, and none at all once it is past reading the request; in
/// particular a closed connection never reads one.
pub proof fn lemma_at_most_one_submit(auth: Socks5AuthMethod, phase: Phase, events: Seq<Event>)
    ensures
        run_submit_count(auth, phase, events) <= 1,
        phase_rank(phase) > phase_rank(Phase::AwaitRequest) ==> run_submit_count(
            auth,
            phase,
            events,
        ) == 0,
        phase is Closed ==> run_submit_count(auth, phase, events) == 0,
    decreases events.len(),
{
    if events.len() > 0 {
        let step = step_spec(auth, phase, events[0]);
        lemma_submit_location(auth, phase, events[0]);
        lemma_phase_monotonic(auth, phase, events[0]);
        lemma_at_most_one_submit(auth, step.0, events.drop_first());
    }
}

} // verus!
