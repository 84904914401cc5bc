//! How a server deals with a connection until the session on it starts.

use vstd::prelude::*;

verus! {

/// The byte that tells a client that the server will encrypt the connection: `S`.
pub const ACCEPT_SSL_ENCRYPTION: u8 = 0x53;

/// The byte that tells a client that the server will not encrypt the connection: `N`.
pub const REJECT_ENCRYPTION: u8 = 0x4e;

/// Specifies how strictly to enforce TLS encryption.
#[derive(Clone, Copy, Debug, PartialEq, Eq, Structural)]
pub enum TlsMode {
    /// Allow TLS encryption.
    Allow,
    /// Require that clients negotiate TLS encryption.
    Require,
}

/// Configures a server's TLS encryption.
#[derive(Clone, Copy, Debug, PartialEq, Eq, Structural)]
pub struct TlsConfig {
    /// The TLS mode.
    pub mode: TlsMode,
}

/// Configures a [`Server`].
#[derive(Clone, Copy, Debug, PartialEq, Eq, Structural)]
pub struct Config {
    /// The TLS configuration for the server.
    ///
    /// If not present, then TLS is not enabled, and clients requests to
    /// negotiate TLS will be rejected.
    pub tls: Option<TlsConfig>,
    /// Whether this is an internal server that permits access to restricted
    /// system resources.
    pub internal: bool,
}

/// A server that communicates with clients.
#[derive(Clone, Copy, Debug, PartialEq, Eq, Structural)]
pub struct Server {
    pub tls: Option<TlsConfig>,
    pub internal: bool,
}

/// How a connection is carried.
#[derive(Clone, Copy, Debug, PartialEq, Eq, Structural)]
pub enum Conn {
    Unencrypted,
    Ssl,
}

/// A message that a client can send before the session starts.
#[derive(Debug)]
pub enum FrontendStartupMessage {
    /// Starts the session.
    Startup { version: i32, params: Vec<(String, String)> },
    /// Asks for encryption by TLS.
    SslRequest,
    /// Asks for encryption by GSSAPI.
    GssEncRequest,
    /// Asks to cancel what another connection is executing.
    CancelRequest { conn_id: u32, secret_key: u32 },
}

/// Something to do with a connection.
#[derive(Debug)]
pub enum ConnAction {
    /// Close the connection. The client hung up, which is no error.
    Finish,
    /// Run the session.
    Run { tls_mode: Option<TlsMode>, version: i32, params: Vec<(String, String)>, internal: bool },
    /// Send the client what the session left unsent.
    Flush,
    /// Pass the request to cancel on, and close the connection. The client is not told what came
    /// of it.
    Cancel { conn_id: u32, secret_key: u32 },
    /// Tell the client that the connection will be encrypted.
    AcceptSsl,
    /// Set up TLS on the connection.
    PrepareTls,
    /// Negotiate TLS with the client.
    NegotiateTls,
    /// Shut the connection down, because TLS could not be negotiated.
    Abandon,
    /// Tell the client that the connection will not be encrypted.
    Reject,
}

/// How far things are with a connection.
#[derive(Debug)]
pub enum ConnState {
    /// A message is to be received on a connection that is carried as `conn` says.
    Receive { conn: Conn },
    /// `action` is to be carried out on a connection that is carried as `conn` says.
    Act { conn: Conn, action: ConnAction },
    /// The connection is closed, with an error unless `ok`.
    Closed { ok: bool },
}

impl ConnAction {
    /// The byte that is sent to the client.
    pub open spec fn reply_byte(self) -> Option<u8> {
        match self {
            ConnAction::AcceptSsl => Some(ACCEPT_SSL_ENCRYPTION),
            ConnAction::Reject => Some(REJECT_ENCRYPTION),
            _ => None,
        }
    }

    /// How far things are when the action was carried out, successfully or not, on a connection
    /// that is carried as `conn` says.
    pub open spec fn state_after(self, conn: Conn, ok: bool) -> ConnState {
        match self {
            ConnAction::Finish => ConnState::Closed { ok: true },
            ConnAction::Cancel { .. } => ConnState::Closed { ok: true },
            ConnAction::Run { .. } => if ok {
                ConnState::Act { conn, action: ConnAction::Flush }
            } else {
                ConnState::Closed { ok: false }
            },
            ConnAction::Flush => ConnState::Closed { ok },
            ConnAction::AcceptSsl => if ok {
                ConnState::Act { conn, action: ConnAction::PrepareTls }
            } else {
                ConnState::Closed { ok: false }
            },
            ConnAction::PrepareTls => if ok {
                ConnState::Act { conn, action: ConnAction::NegotiateTls }
            } else {
                ConnState::Closed { ok: false }
            },
            ConnAction::NegotiateTls => if ok {
                ConnState::Receive { conn: Conn::Ssl }
            } else {
                ConnState::Act { conn, action: ConnAction::Abandon }
            },
            ConnAction::Abandon => ConnState::Closed { ok: false },
            ConnAction::Reject => if ok {
                ConnState::Receive { conn }
            } else {
                ConnState::Closed { ok: false }
            },
        }
    }

    /// The byte to send to the client, if there is one.
    pub fn reply(&self) -> (reply: Option<u8>)
        ensures
            reply == self.reply_byte(),
    {
        match self {
            ConnAction::AcceptSsl => Some(ACCEPT_SSL_ENCRYPTION),
            ConnAction::Reject => Some(REJECT_ENCRYPTION),
            _ => None,
        }
    }

    /// Decides how far things are when the action was carried out, successfully or not, on a
    /// connection that is carried as `conn` says.
    pub fn after(&self, conn: Conn, ok: bool) -> (state: ConnState)
        ensures
            state == self.state_after(conn, ok),
    {
        match self {
            // For security, the client is not told whether the request to cancel succeeds or fails.
            ConnAction::Finish | ConnAction::Cancel { .. } => ConnState::Closed { ok: true },
            ConnAction::Flush => ConnState::Closed { ok },
            ConnAction::Abandon => ConnState::Closed { ok: false },
            ConnAction::NegotiateTls => {
                if ok {
                    ConnState::Receive { conn: Conn::Ssl }
                } else {
                    ConnState::Act { conn, action: ConnAction::Abandon }
                }
            },
            _ if !ok => ConnState::Closed { ok: false },
            ConnAction::Run { .. } => ConnState::Act { conn, action: ConnAction::Flush },
            ConnAction::AcceptSsl => ConnState::Act { conn, action: ConnAction::PrepareTls },
            ConnAction::PrepareTls => ConnState::Act { conn, action: ConnAction::NegotiateTls },
            ConnAction::Reject => ConnState::Receive { conn },
        }
    }
}

impl Server {
    /// Constructs a new server.
    pub fn new(config: Config) -> (server: Server)
        ensures
            server.tls == config.tls,
            server.internal == config.internal,
    {
        Server { tls: config.tls, internal: config.internal }
    }

    /// How strictly TLS is enforced, if it is enabled.
    pub open spec fn mode(self) -> Option<TlsMode> {
        match self.tls {
            Some(tls) => Some(tls.mode),
            None => None,
        }
    }

    /// What to do next with a connection that is carried as `conn` says and on which `message`
    /// came, or the end if there was none.
    pub open spec fn action(
        self,
        conn: Conn,
        message: Option<FrontendStartupMessage>,
    ) -> ConnAction {
        match message {
            None => ConnAction::Finish,
            Some(FrontendStartupMessage::Startup { version, params }) => ConnAction::Run {
                tls_mode: self.mode(),
                version,
                params,
                internal: self.internal,
            },
            Some(FrontendStartupMessage::CancelRequest { conn_id, secret_key }) => {
                ConnAction::Cancel { conn_id, secret_key }
            },
            Some(FrontendStartupMessage::SslRequest) => if self.tls is Some && conn
                == Conn::Unencrypted {
                ConnAction::AcceptSsl
            } else {
                ConnAction::Reject
            },
            Some(FrontendStartupMessage::GssEncRequest) => ConnAction::Reject,
        }
    }

    /// Decides what to do next with a connection that is carried as `conn` says and on which
    /// `message` came, or the end if there was none.
    pub fn handle_connection(
        &self,
        conn: Conn,
        message: Option<FrontendStartupMessage>,
    ) -> (action: ConnAction)
        ensures
            action == self.action(conn, message),
    {
        match message {
            // Clients sometimes hang up during the startup sequence, e.g. because they receive an
            // unacceptable response to a request for encryption.
            None => ConnAction::Finish,
            Some(FrontendStartupMessage::Startup { version, params }) => {
                let tls_mode = match self.tls {
                    Some(tls) => Some(tls.mode),
                    None => None,
                };
                ConnAction::Run { tls_mode, version, params, internal: self.internal }
            },
            Some(FrontendStartupMessage::CancelRequest { conn_id, secret_key }) => {
                ConnAction::Cancel { conn_id, secret_key }
            },
            Some(FrontendStartupMessage::SslRequest) => match (conn, self.tls) {
                (Conn::Unencrypted, Some(_)) => ConnAction::AcceptSsl,
                (_, _) => ConnAction::Reject,
            },
            Some(FrontendStartupMessage::GssEncRequest) => ConnAction::Reject,
        }
    }

    /// How far things are when what was to be done in `state` was done, successfully or not. Where
    /// a message was to be received, `message` is what came, or the end if there was none.
    pub open spec fn state_after(
        self,
        state: ConnState,
        ok: bool,
        message: Option<FrontendStartupMessage>,
    ) -> ConnState {
        match state {
            ConnState::Receive { conn } => if ok {
                ConnState::Act { conn, action: self.action(conn, message) }
            } else {
                ConnState::Closed { ok: false }
            },
            ConnState::Act { conn, action } => action.state_after(conn, ok),
            ConnState::Closed { .. } => state,
        }
    }

    /// Decides how far things are when what was to be done in `state` was done, successfully or
    /// not. Where a message was to be received, `message` is what came, or the end if there was
    /// none.
    pub fn step(
        &self,
        state: ConnState,
        ok: bool,
        message: Option<FrontendStartupMessage>,
    ) -> (next: ConnState)
        ensures
            next == self.state_after(state, ok, message),
    {
        match state {
            ConnState::Receive { conn } => {
                if ok {
                    ConnState::Act { conn, action: self.handle_connection(conn, message) }
                } else {
                    ConnState::Closed { ok: false }
                }
            },
            ConnState::Act { conn, action } => action.after(conn, ok),
            ConnState::Closed { ok } => ConnState::Closed { ok },
        }
    }
}

/// The word that metrics count a connection under.
pub open spec fn status_word(ok: bool) -> Seq<char> {
    if ok {
        "success"@
    } else {
        "error"@
    }
}

/// The word that metrics count a connection under: whether it was closed without an error.
pub fn connection_status(ok: bool) -> (status: &'static str)
    ensures
        status@ == status_word(ok),
{
    if ok {
        "success"
    } else {
        "error"
    }
}

/// What came of doing what was to be done with a connection.
pub struct ConnEvent {
    /// Whether it was done successfully.
    pub ok: bool,
    /// The message that came, if one was to be received and one came.
    pub message: Option<FrontendStartupMessage>,
}

/// How far things are with a connection after `events`.
pub open spec fn state_at(server: Server, state: ConnState, events: Seq<ConnEvent>) -> ConnState
    decreases events.len(),
{
    if events.len() == 0 {
        state
    } else {
        server.state_after(
            state_at(server, state, events.drop_last()),
            events.last().ok,
            events.last().message,
        )
    }
}

/// A request for encryption is answered by the byte that accepts it exactly where the server has
/// TLS enabled and the connection is not encrypted yet, and by the byte that rejects it elsewhere.
pub proof fn law_request_for_encryption(server: Server, conn: Conn)
    ensures
        server.action(conn, Some(FrontendStartupMessage::SslRequest)).reply_byte() == (if server.tls
            is Some && conn == Conn::Unencrypted {
            Some(ACCEPT_SSL_ENCRYPTION)
        } else {
            Some(REJECT_ENCRYPTION)
        }),
        server.action(conn, Some(FrontendStartupMessage::GssEncRequest)).reply_byte() == Some(
            REJECT_ENCRYPTION,
        ),
{
}

/// What a client sends is passed on as it is: the version and the parameters of a session, and the
/// connection and the key of a request to cancel. The end of what it sends ends the connection.
pub proof fn law_passed_on_as_it_is(server: Server, conn: Conn, message: FrontendStartupMessage)
    ensures
        message matches FrontendStartupMessage::Startup { version, params } ==> {
            let action = server.action(conn, Some(message));
            &&& action is Run
            &&& action->version == version
            &&& action->params == params
            &&& action->internal == server.internal
            &&& action->tls_mode is Some == server.tls is Some
            &&& server.tls is Some ==> action->tls_mode->0 == server.tls->0.mode
        },
        message matches FrontendStartupMessage::CancelRequest { conn_id, secret_key }
            ==> server.action(conn, Some(message)) == (ConnAction::Cancel { conn_id, secret_key }),
        server.action(conn, None) == ConnAction::Finish,
        server.mode() is Some == server.tls is Some,
        server.tls is Some ==> server.mode() == Some(server.tls->0.mode),
{
}

/// A client whose request for encryption is rejected is told so, and goes on on the same connection
/// as before, unless it cannot be told: then the connection is closed with an error.
pub proof fn law_rejected_goes_on(server: Server, conn: Conn, message: FrontendStartupMessage)
    requires
        message is GssEncRequest || message is SslRequest && !(server.tls is Some && conn
            == Conn::Unencrypted),
    ensures
        ({
            let received = server.state_after(
                ConnState::Receive { conn },
                true,
                Some(message),
            );
            &&& received == (ConnState::Act { conn, action: ConnAction::Reject })
            &&& server.state_after(received, true, None) == (ConnState::Receive { conn })
            &&& server.state_after(received, false, None) == (ConnState::Closed { ok: false })
        }),
{
}

/// Only the answers to requests for encryption are sent to a client before its session: one byte
/// when encryption is accepted, another when it is rejected.
pub proof fn law_what_is_sent(action: ConnAction)
    ensures
        action.reply_byte() is Some <==> action is AcceptSsl || action is Reject,
        action is AcceptSsl ==> action.reply_byte() == Some(0x53u8),
        action is Reject ==> action.reply_byte() == Some(0x4eu8),
{
}

/// Whether TLS is being set up.
pub open spec fn sets_up_tls(state: ConnState) -> bool {
    state matches ConnState::Act { action, .. } && (action is AcceptSsl || action is PrepareTls
        || action is NegotiateTls || action is Abandon)
}

/// Where TLS is not enabled, it is never set up, whatever the client sends and whatever fails, and
/// the connection stays unencrypted.
pub proof fn law_no_tls_without_config(server: Server, events: Seq<ConnEvent>)
    requires
        server.tls is None,
    ensures
        ({
            let state = state_at(
                server,
                ConnState::Receive { conn: Conn::Unencrypted },
                events,
            );
            &&& !sets_up_tls(state)
            &&& state matches ConnState::Receive { conn } ==> conn == Conn::Unencrypted
            &&& state matches ConnState::Act { conn, .. } ==> conn == Conn::Unencrypted
        }),
    decreases events.len(),
{
    if events.len() > 0 {
        law_no_tls_without_config(server, events.drop_last());
    }
}

/// Whether the connection is encrypted and TLS is not being set up, or the connection is closed.
pub open spec fn is_encrypted_or_closed(state: ConnState) -> bool {
    match state {
        ConnState::Receive { conn } => conn == Conn::Ssl,
        ConnState::Act { conn, .. } => conn == Conn::Ssl && !sets_up_tls(state),
        ConnState::Closed { .. } => true,
    }
}

/// An encrypted connection stays encrypted until it is closed, and TLS is not negotiated again.
pub proof fn law_encrypted_stays_encrypted(
    server: Server,
    state: ConnState,
    events: Seq<ConnEvent>,
)
    requires
        is_encrypted_or_closed(state),
    ensures
        is_encrypted_or_closed(state_at(server, state, events)),
    decreases events.len(),
{
    if events.len() > 0 {
        law_encrypted_stays_encrypted(server, state, events.drop_last());
    }
}

/// Once the client was told that the connection will be encrypted, the connection is being set up
/// for that, encrypted or closed, and the client is never told so again. So nothing that the
/// client sends is taken for a message before TLS was negotiated.
pub proof fn law_tls_negotiated_once(
    server: Server,
    conn: Conn,
    events: Seq<ConnEvent>,
)
    requires
        events.len() > 0,
    ensures
        ({
            let state = state_at(
                server,
                ConnState::Act { conn, action: ConnAction::AcceptSsl },
                events,
            );
            &&& sets_up_tls(state) || is_encrypted_or_closed(state)
            &&& !(state matches ConnState::Act { action, .. } && action is AcceptSsl)
        }),
    decreases events.len(),
{
    let start = ConnState::Act { conn, action: ConnAction::AcceptSsl };
    if events.len() == 1 {
        assert(state_at(server, start, events.drop_last()) == start);
    } else {
        law_tls_negotiated_once(server, conn, events.drop_last());
    }
}

/// A client that was told that the connection will be encrypted gets an encrypted connection if
/// telling it, setting TLS up and negotiating it all succeed. Where negotiating fails, the
/// connection is shut down and closed with an error, whether shutting it down succeeds or not.
/// Where an earlier step fails, it is closed with an error at once.
pub proof fn law_handshake(server: Server, conn: Conn, events: Seq<ConnEvent>)
    requires
        events.len() == 4,
    ensures
        ({
            let start = ConnState::Act { conn, action: ConnAction::AcceptSsl };
            let told = events[0].ok;
            let prepared = told && events[1].ok;
            let negotiated = prepared && events[2].ok;
            &&& !told ==> state_at(server, start, events.take(1)) == (ConnState::Closed {
                ok: false,
            })
            &&& told && !prepared ==> state_at(server, start, events.take(2)) == (
            ConnState::Closed { ok: false })
            &&& prepared ==> state_at(server, start, events.take(3)) == (if negotiated {
                ConnState::Receive { conn: Conn::Ssl }
            } else {
                ConnState::Act { conn, action: ConnAction::Abandon }
            })
            &&& !negotiated ==> state_at(server, start, events) == (ConnState::Closed { ok: false })
        }),
{
    let start = ConnState::Act { conn, action: ConnAction::AcceptSsl };
    assert(events.take(1).drop_last() =~= events.take(0));
    assert(events.take(2).drop_last() =~= events.take(1));
    assert(events.take(3).drop_last() =~= events.take(2));
    assert(events.drop_last() =~= events.take(3));
    assert(state_at(server, start, events.take(0)) == start);
    assert(state_at(server, start, events.take(1)) == server.state_after(
        start,
        events[0].ok,
        events[0].message,
    ));
    assert(state_at(server, start, events.take(2)) == server.state_after(
        state_at(server, start, events.take(1)),
        events[1].ok,
        events[1].message,
    ));
}

/// What is closed stays closed, and as it was closed.
pub proof fn law_closed_stays_closed(server: Server, ok: bool, events: Seq<ConnEvent>)
    ensures
        state_at(server, ConnState::Closed { ok }, events) == (ConnState::Closed { ok }),
    decreases events.len(),
{
    if events.len() > 0 {
        law_closed_stays_closed(server, ok, events.drop_last());
    }
}

/// Whether a session that is to run does so with the mode and the access that the server was
/// configured with.
pub open spec fn runs_as_configured(server: Server, state: ConnState) -> bool {
    state matches ConnState::Act {
        action: ConnAction::Run { tls_mode, internal, .. },
        ..
    } ==> {
        &&& tls_mode is Some == server.tls is Some
        &&& server.tls is Some ==> tls_mode->0 == server.tls->0.mode
        &&& internal == server.internal
    }
}

/// Every session runs with the mode and the access that the server was configured with.
pub proof fn law_sessions_run_as_configured(server: Server, conn: Conn, events: Seq<ConnEvent>)
    ensures
        runs_as_configured(server, state_at(server, ConnState::Receive { conn }, events)),
    decreases events.len(),
{
    if events.len() > 0 {
        law_sessions_run_as_configured(server, conn, events.drop_last());
    }
}

/// How a connection ends: when the client hung up, or asked to cancel something, without an error;
/// when a message could not be received, with one. A session is the last thing that is done with a
/// connection, but that what it left unsent is sent if it succeeded, and the connection ends
/// without an error exactly if both succeeded.
pub proof fn law_how_connections_end(
    server: Server,
    conn: Conn,
    message: FrontendStartupMessage,
    run_ok: bool,
    flush_ok: bool,
)
    ensures
        ({
            let start = ConnState::Receive { conn };
            let failed = server.state_after(start, false, None);
            let ended = server.state_after(start, true, None);
            let received = server.state_after(start, true, Some(message));
            let run = server.state_after(received, run_ok, None);
            let flushed = server.state_after(run, flush_ok, None);
            &&& failed == (ConnState::Closed { ok: false })
            &&& server.state_after(ended, run_ok, None) == (ConnState::Closed { ok: true })
            &&& message is CancelRequest ==> run == (ConnState::Closed { ok: true })
            &&& message is Startup && !run_ok ==> run == (ConnState::Closed { ok: false })
            &&& message is Startup && run_ok ==> run == (ConnState::Act {
                conn,
                action: ConnAction::Flush,
            })
            &&& message is Startup ==> flushed == (ConnState::Closed { ok: run_ok && flush_ok })
        }),
{
}

} // verus!
