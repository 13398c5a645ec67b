use pow_server::config::Config;
use pow_server::pow::{perform_pow, PowRequest};
use pow_server::session::{
    is_pow_request, session_step, SessionDirective, SessionEvent, SessionState,
};

fn sample_request() -> PowRequest {
    PowRequest {
        action: b"CHALLENGE:00".to_vec(),
        nonce_bounds: (10, 12),
        nonce_start: 0,
        nonce_end: 255,
        target_pow: 1,
    }
}

#[test]
fn pow_request_action_is_routed() {
    assert!(is_pow_request(&"pow_request".to_string()));
    assert!(!is_pow_request(&"pow_response".to_string()));
    assert!(!is_pow_request(&"POW_REQUEST".to_string()));
    assert!(!is_pow_request(&"".to_string()));
}

#[test]
fn valid_request_is_dispatched() {
    let (state, directive) =
        session_step(SessionState::Connected, SessionEvent::PowRequestMsg(sample_request()));
    assert_eq!(state, SessionState::Connected);
    match directive {
        SessionDirective::Dispatch(req) => {
            assert_eq!(req.action, b"CHALLENGE:00".to_vec());
            assert_eq!(req.nonce_bounds, (10, 12));
        }
        _ => panic!("a valid request must be dispatched"),
    }
}

#[test]
fn unknown_action_keeps_connection_open() {
    let (state, directive) = session_step(SessionState::Connected, SessionEvent::UnknownAction);
    assert_eq!(state, SessionState::Connected);
    assert!(matches!(directive, SessionDirective::ReportUnknown));

    // a subsequent valid request on the same connection still succeeds
    let (state, directive) =
        session_step(state, SessionEvent::PowRequestMsg(sample_request()));
    assert_eq!(state, SessionState::Connected);
    let req = match directive {
        SessionDirective::Dispatch(req) => req,
        _ => panic!("the follow-up request must be dispatched"),
    };
    let response = perform_pow(&req);
    assert!(response.pow >= 1);
}

#[test]
fn non_text_frames_are_ignored() {
    let (state, directive) = session_step(SessionState::Connected, SessionEvent::NonTextFrame);
    assert_eq!(state, SessionState::Connected);
    assert!(matches!(directive, SessionDirective::Ignore));
}

#[test]
fn decode_failure_closes_connection() {
    let (state, directive) = session_step(SessionState::Connected, SessionEvent::DecodeFailure);
    assert_eq!(state, SessionState::Closed);
    assert!(matches!(directive, SessionDirective::Close));
}

#[test]
fn transport_failure_closes_connection() {
    let (state, directive) =
        session_step(SessionState::Connected, SessionEvent::TransportFailure);
    assert_eq!(state, SessionState::Closed);
    assert!(matches!(directive, SessionDirective::Close));
}

#[test]
fn peer_close_closes_connection() {
    let (state, directive) = session_step(SessionState::Connected, SessionEvent::PeerClosed);
    assert_eq!(state, SessionState::Closed);
    assert!(matches!(directive, SessionDirective::Close));
}

#[test]
fn closed_session_stays_closed() {
    let (state, directive) =
        session_step(SessionState::Closed, SessionEvent::PowRequestMsg(sample_request()));
    assert_eq!(state, SessionState::Closed);
    assert!(matches!(directive, SessionDirective::Close));
}

#[test]
fn config_carries_pool_size() {
    let config = Config { host: "127.0.0.1".to_string(), port: 9000, num_threads: 4 };
    assert_eq!(config.port, 9000);
    assert_eq!(config.num_threads, 4);
    assert_eq!(config.host, "127.0.0.1");
}
