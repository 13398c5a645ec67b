//! Per-connection session logic.
//!
//! A connection is a loop: read one inbound frame, decide what to do with
//! it, do it, repeat. The reading and writing are I/O and live outside the
//! library; what stands here is the decision itself — a state machine from
//! connection state and inbound event to the next state and the directive
//! the glue layer must carry out.

use crate::pow::PowRequest;
use vstd::prelude::*;

verus! {

/// What one inbound frame (or the transport itself) delivered, after the
/// glue layer decoded it.
pub enum SessionEvent {
    /// A text frame carried an envelope whose action requests a search and
    /// whose payload decoded into a request.
    PowRequestMsg(PowRequest),
    /// A text frame carried a well-formed envelope with any other action.
    UnknownAction,
    /// A non-text frame (binary, ping, ...).
    NonTextFrame,
    /// The frame's JSON, or the payload's shape, could not be decoded.
    DecodeFailure,
    /// The transport reported an error on this connection.
    TransportFailure,
    /// The peer ended the stream.
    PeerClosed,
}

/// What the connection's glue layer must do next.
pub enum SessionDirective {
    /// Submit the request to the compute pool and send the response back.
    Dispatch(PowRequest),
    /// Report the unknown action and keep reading.
    ReportUnknown,
    /// Nothing to do; keep reading.
    Ignore,
    /// Stop: the connection is closed.
    Close,
}

/// A session is connected until a terminal event closes it; there is no
/// reconnection.
#[derive(Clone, Copy, PartialEq, Eq, Structural, Debug)]
pub enum SessionState {
    Connected,
    Closed,
}

/// The session state machine. A valid request is dispatched and an unknown
/// action only reported — both leave the session connected; a decode
/// failure, a transport failure and a closed peer are terminal.
pub open spec fn session_transition(state: SessionState, event: SessionEvent) -> (
    SessionState,
    SessionDirective,
) {
    match state {
        SessionState::Closed => (SessionState::Closed, SessionDirective::Close),
        SessionState::Connected => match event {
            SessionEvent::PowRequestMsg(req) => (
                SessionState::Connected,
                SessionDirective::Dispatch(req),
            ),
            SessionEvent::UnknownAction => (SessionState::Connected, SessionDirective::ReportUnknown),
            SessionEvent::NonTextFrame => (SessionState::Connected, SessionDirective::Ignore),
            SessionEvent::DecodeFailure => (SessionState::Closed, SessionDirective::Close),
            SessionEvent::TransportFailure => (SessionState::Closed, SessionDirective::Close),
            SessionEvent::PeerClosed => (SessionState::Closed, SessionDirective::Close),
        },
    }
}

/// Takes one step of the session state machine.
pub fn session_step(state: SessionState, event: SessionEvent) -> (step: (
    SessionState,
    SessionDirective,
))
    ensures
        step == session_transition(state, event),
{
    match state {
        SessionState::Closed => (SessionState::Closed, SessionDirective::Close),
        SessionState::Connected => match event {
            SessionEvent::PowRequestMsg(req) => (
                SessionState::Connected,
                SessionDirective::Dispatch(req),
            ),
            SessionEvent::UnknownAction => (SessionState::Connected, SessionDirective::ReportUnknown),
            SessionEvent::NonTextFrame => (SessionState::Connected, SessionDirective::Ignore),
            SessionEvent::DecodeFailure => (SessionState::Closed, SessionDirective::Close),
            SessionEvent::TransportFailure => (SessionState::Closed, SessionDirective::Close),
            SessionEvent::PeerClosed => (SessionState::Closed, SessionDirective::Close),
        },
    }
}

/// Whether an envelope's action discriminator requests a search.
pub fn is_pow_request(act: &String) -> (r: bool)
    ensures
        r == (act@ == "pow_request"@),
{
    let expected: String = "pow_request".to_owned();
    *act == expected
}

/// An unknown action never ends the session: the state stays connected, the
/// directive is only a report, and a valid request arriving next on the
/// same connection is still dispatched.
pub proof fn lemma_unknown_action_keeps_session(req: PowRequest)
    ensures
        session_transition(SessionState::Connected, SessionEvent::UnknownAction) == (
            SessionState::Connected,
            SessionDirective::ReportUnknown,
        ),
        session_transition(
            session_transition(SessionState::Connected, SessionEvent::UnknownAction).0,
            SessionEvent::PowRequestMsg(req),
        ) == (SessionState::Connected, SessionDirective::Dispatch(req)),
{
}

/// A closed session stays closed: every event maps it to itself with the
/// close directive.
pub proof fn lemma_closed_is_terminal(event: SessionEvent)
    ensures
        session_transition(SessionState::Closed, event) == (
            SessionState::Closed,
            SessionDirective::Close,
        ),
{
}

} // verus!
