//! What a server does with a connection before the session starts.

use rbac::server::{
    connection_status, Config, Conn, ConnAction, ConnState, FrontendStartupMessage, Server,
    TlsConfig, TlsMode, ACCEPT_SSL_ENCRYPTION, REJECT_ENCRYPTION,
};

fn with_tls(mode: TlsMode) -> Server {
    Server::new(Config { tls: Some(TlsConfig { mode }), internal: false })
}

fn without_tls() -> Server {
    Server::new(Config { tls: None, internal: true })
}

#[test]
fn bytes_are_those_of_the_protocol() {
    assert_eq!(ACCEPT_SSL_ENCRYPTION, b'S');
    assert_eq!(REJECT_ENCRYPTION, b'N');
}

#[test]
fn new_server_keeps_its_configuration() {
    let server = with_tls(TlsMode::Require);
    assert_eq!(server.tls, Some(TlsConfig { mode: TlsMode::Require }));
    assert!(!server.internal);
    assert!(without_tls().internal);
}

#[test]
fn hanging_up_finishes() {
    let action = with_tls(TlsMode::Allow).handle_connection(Conn::Unencrypted, None);
    assert!(matches!(action, ConnAction::Finish));
    assert_eq!(action.reply(), None);
    for ok in [true, false] {
        assert!(matches!(action.after(Conn::Unencrypted, ok), ConnState::Closed { ok: true }));
    }
}

#[test]
fn tls_is_negotiated_once() {
    let server = with_tls(TlsMode::Allow);
    let first = server.handle_connection(Conn::Unencrypted, Some(FrontendStartupMessage::SslRequest));
    assert!(matches!(first, ConnAction::AcceptSsl));
    assert_eq!(first.reply(), Some(b'S'));
    let mut state = ConnState::Act { conn: Conn::Unencrypted, action: first };
    state = server.step(state, true, None);
    assert!(matches!(
        state,
        ConnState::Act { conn: Conn::Unencrypted, action: ConnAction::PrepareTls }
    ));
    state = server.step(state, true, None);
    assert!(matches!(
        state,
        ConnState::Act { conn: Conn::Unencrypted, action: ConnAction::NegotiateTls }
    ));
    state = server.step(state, true, None);
    assert!(matches!(state, ConnState::Receive { conn: Conn::Ssl }));
    state = server.step(state, true, Some(FrontendStartupMessage::SslRequest));
    match &state {
        ConnState::Act { conn: Conn::Ssl, action } => {
            assert!(matches!(action, ConnAction::Reject));
            assert_eq!(action.reply(), Some(b'N'));
        }
        other => panic!("not rejected: {other:?}"),
    }
    state = server.step(state, true, None);
    assert!(matches!(state, ConnState::Receive { conn: Conn::Ssl }));
}

#[test]
fn a_failed_handshake_shuts_the_connection_down() {
    let server = with_tls(TlsMode::Allow);
    for shut_down in [true, false] {
        let state = ConnState::Act { conn: Conn::Unencrypted, action: ConnAction::NegotiateTls };
        let state = server.step(state, false, None);
        assert!(matches!(state, ConnState::Act { action: ConnAction::Abandon, .. }));
        let state = server.step(state, shut_down, None);
        assert!(matches!(state, ConnState::Closed { ok: false }));
    }
}

#[test]
fn what_fails_before_the_handshake_closes_the_connection() {
    let server = with_tls(TlsMode::Allow);
    for action in [ConnAction::AcceptSsl, ConnAction::PrepareTls, ConnAction::Reject] {
        let state = ConnState::Act { conn: Conn::Unencrypted, action };
        assert!(matches!(server.step(state, false, None), ConnState::Closed { ok: false }));
    }
    let state = ConnState::Receive { conn: Conn::Unencrypted };
    assert!(matches!(server.step(state, false, None), ConnState::Closed { ok: false }));
}

#[test]
fn what_is_closed_stays_closed() {
    let server = with_tls(TlsMode::Allow);
    for ok in [true, false] {
        let state = ConnState::Closed { ok: true };
        let state = server.step(state, ok, Some(FrontendStartupMessage::SslRequest));
        assert!(matches!(state, ConnState::Closed { ok: true }));
        let state = ConnState::Closed { ok: false };
        let state = server.step(state, ok, Some(FrontendStartupMessage::SslRequest));
        assert!(matches!(state, ConnState::Closed { ok: false }));
    }
}

#[test]
fn a_session_is_flushed_only_if_it_succeeded() {
    let server = without_tls();
    let run = || {
        let message = FrontendStartupMessage::Startup { version: 196608, params: Vec::new() };
        server.step(ConnState::Receive { conn: Conn::Unencrypted }, true, Some(message))
    };
    assert!(matches!(run(), ConnState::Act { action: ConnAction::Run { .. }, .. }));
    assert!(matches!(server.step(run(), false, None), ConnState::Closed { ok: false }));
    let flush = || server.step(run(), true, None);
    assert!(matches!(flush(), ConnState::Act { action: ConnAction::Flush, .. }));
    assert!(matches!(server.step(flush(), true, None), ConnState::Closed { ok: true }));
    assert!(matches!(server.step(flush(), false, None), ConnState::Closed { ok: false }));
}

#[test]
fn tls_is_rejected_where_it_is_not_enabled() {
    let action =
        without_tls().handle_connection(Conn::Unencrypted, Some(FrontendStartupMessage::SslRequest));
    assert!(matches!(action, ConnAction::Reject));
    assert_eq!(action.reply(), Some(b'N'));
    assert!(matches!(
        action.after(Conn::Unencrypted, true),
        ConnState::Receive { conn: Conn::Unencrypted }
    ));
}

#[test]
fn gss_is_always_rejected() {
    for server in [with_tls(TlsMode::Allow), with_tls(TlsMode::Require), without_tls()] {
        for conn in [Conn::Unencrypted, Conn::Ssl] {
            let action = server.handle_connection(conn, Some(FrontendStartupMessage::GssEncRequest));
            assert!(matches!(action, ConnAction::Reject));
            assert_eq!(action.reply(), Some(b'N'));
            match action.after(conn, true) {
                ConnState::Receive { conn: after } => assert_eq!(after, conn),
                other => panic!("nothing is received: {other:?}"),
            }
        }
    }
}

#[test]
fn a_session_runs_as_configured() {
    let server = with_tls(TlsMode::Require);
    let message = FrontendStartupMessage::Startup {
        version: 196608,
        params: vec![("user".to_string(), "materialize".to_string())],
    };
    let action = server.handle_connection(Conn::Ssl, Some(message));
    assert_eq!(action.reply(), None);
    match action {
        ConnAction::Run { tls_mode, version, params, internal } => {
            assert_eq!(tls_mode, Some(TlsMode::Require));
            assert_eq!(version, 196608);
            assert_eq!(params, vec![("user".to_string(), "materialize".to_string())]);
            assert!(!internal);
        }
        _ => panic!("the session does not run"),
    }
    let message = FrontendStartupMessage::Startup { version: 1, params: Vec::new() };
    match without_tls().handle_connection(Conn::Unencrypted, Some(message)) {
        ConnAction::Run { tls_mode, version, params, internal } => {
            assert_eq!(tls_mode, None);
            assert_eq!(version, 1);
            assert!(params.is_empty());
            assert!(internal);
        }
        _ => panic!("the session does not run"),
    }
}

#[test]
fn a_request_to_cancel_is_passed_on_without_reply() {
    let message = FrontendStartupMessage::CancelRequest { conn_id: 7, secret_key: 11 };
    let action = with_tls(TlsMode::Allow).handle_connection(Conn::Unencrypted, Some(message));
    assert_eq!(action.reply(), None);
    for ok in [true, false] {
        assert!(matches!(action.after(Conn::Unencrypted, ok), ConnState::Closed { ok: true }));
    }
    assert!(matches!(action, ConnAction::Cancel { conn_id: 7, secret_key: 11 }));
}

#[test]
fn connections_are_counted_by_how_they_ended() {
    assert_eq!(connection_status(true), "success");
    assert_eq!(connection_status(false), "error");
}
