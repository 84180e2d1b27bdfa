//! The life of one client connection, from the first control stream to the
//! close.
//!
//! ```text
//!   New -> Authenticating -> Established -> Closing -> Closed
//!                 |
//!                 +-- (refused or timed out) --> Closed
//! ```
//!
//! The steps that touch the tunnel (authentication and close) are methods of
//! the tunnel and take the handler; the others are here.

use crate::auth::{AuthServerMessage, AuthState, ReplyView};
use crate::tun::ConnectionId;
use vstd::prelude::*;

verus! {

/// Seconds that a client has to authenticate unless configured otherwise.
pub const DEFAULT_AUTH_TIMEOUT_SECS: u64 = 5;

/// State of a connection handler.
#[derive(Clone, Copy, Debug, PartialEq, Eq, Structural)]
pub enum ConnectionState {
    New,
    Authenticating,
    Established,
    Closing,
    Closed,
}

/// Mathematical value of a handler.
pub struct HandlerView {
    pub id: ConnectionId,
    pub state: ConnectionState,
    pub username: Option<Seq<char>>,
    pub client_ip: Option<u32>,
}

impl HandlerView {
    /// The handler in another state.
    pub open spec fn moved_to(self, state: ConnectionState) -> HandlerView {
        HandlerView { state, ..self }
    }

    /// The handler once `username` is authenticated and holds `addr`.
    pub open spec fn established(self, username: Seq<char>, addr: u32) -> HandlerView {
        HandlerView {
            state: ConnectionState::Established,
            username: Some(username),
            client_ip: Some(addr),
            ..self
        }
    }

    /// The handler after an authentication was refused: closed if it was
    /// authenticating, as it was otherwise.
    pub open spec fn refused(self) -> HandlerView {
        if self.state == ConnectionState::Authenticating {
            self.moved_to(ConnectionState::Closed)
        } else {
            self
        }
    }
}

/// The user that an authentication state names.
pub open spec fn authenticated_user(state: AuthState) -> Option<Seq<char>> {
    match state {
        AuthState::Unauthenticated => None,
        AuthState::Authenticated(username) => Some(username@),
    }
}

/// The handler of one client connection.
pub struct ConnectionHandler {
    id: ConnectionId,
    state: ConnectionState,
    auth_state: AuthState,
    client_ip: Option<u32>,
}

impl View for ConnectionHandler {
    type V = HandlerView;

    closed spec fn view(&self) -> HandlerView {
        HandlerView {
            id: self.id,
            state: self.state,
            username: authenticated_user(self.auth_state),
            client_ip: self.client_ip,
        }
    }
}

impl ConnectionHandler {
    /// The handler of a connection that was just accepted.
    pub fn new(id: ConnectionId) -> (handler: ConnectionHandler)
        ensures
            handler@ == (HandlerView {
                id,
                state: ConnectionState::New,
                username: None,
                client_ip: None,
            }),
    {
        ConnectionHandler {
            id,
            state: ConnectionState::New,
            auth_state: AuthState::Unauthenticated,
            client_ip: None,
        }
    }

    /// The connection that the handler serves.
    pub fn id(&self) -> (id: ConnectionId)
        ensures
            id == self@.id,
    {
        self.id
    }

    /// The state of the handler.
    pub fn state(&self) -> (state: ConnectionState)
        ensures
            state == self@.state,
    {
        self.state
    }

    /// The tunnel address of the client, once it has one.
    pub fn client_ip(&self) -> (addr: Option<u32>)
        ensures
            addr == self@.client_ip,
    {
        self.client_ip
    }

    /// Whether the client has authenticated, and as whom.
    pub fn auth_state(&self) -> (state: &AuthState)
        ensures
            authenticated_user(*state) == self@.username,
    {
        &self.auth_state
    }

    /// The peer has opened its control stream: a new handler starts to
    /// authenticate. The result says whether it did; in any other state
    /// nothing changes.
    pub fn accept_control_stream(&mut self) -> (accepted: bool)
        ensures
            accepted == (old(self)@.state == ConnectionState::New),
            final(self)@ == if accepted {
                old(self)@.moved_to(ConnectionState::Authenticating)
            } else {
                old(self)@
            },
    {
        match self.state {
            ConnectionState::New => {
                self.state = ConnectionState::Authenticating;
                true
            },
            _ => false,
        }
    }

    /// The authentication took too long: an authenticating handler closes
    /// and answers `Failed`. In any other state nothing changes and nothing
    /// is answered.
    pub fn auth_timed_out(&mut self) -> (reply: Option<AuthServerMessage>)
        ensures
            final(self)@ == old(self)@.refused(),
            match reply {
                Some(message) => old(self)@.state == ConnectionState::Authenticating && message@
                    == ReplyView::Failed,
                None => old(self)@.state != ConnectionState::Authenticating,
            },
    {
        match self.state {
            ConnectionState::Authenticating => {
                self.state = ConnectionState::Closed;
                Some(AuthServerMessage::Failed)
            },
            _ => None,
        }
    }

    /// The datagram loop or the control loop has ended, or the transport has
    /// failed: an established handler starts to close. In any other state
    /// nothing changes.
    pub fn loop_terminated(&mut self)
        ensures
            final(self)@ == if old(self)@.state == ConnectionState::Established {
                old(self)@.moved_to(ConnectionState::Closing)
            } else {
                old(self)@
            },
    {
        match self.state {
            ConnectionState::Established => {
                self.state = ConnectionState::Closing;
            },
            _ => {},
        }
    }

    pub(crate) fn establish(&mut self, username: String, addr: u32)
        ensures
            final(self)@ == old(self)@.established(username@, addr),
    {
        self.state = ConnectionState::Established;
        self.auth_state = AuthState::Authenticated(username);
        self.client_ip = Some(addr);
    }

    pub(crate) fn refuse(&mut self)
        ensures
            final(self)@ == old(self)@.refused(),
    {
        match self.state {
            ConnectionState::Authenticating => {
                self.state = ConnectionState::Closed;
            },
            _ => {},
        }
    }

    pub(crate) fn close(&mut self)
        ensures
            final(self)@ == old(self)@.moved_to(ConnectionState::Closed),
    {
        self.state = ConnectionState::Closed;
    }
}

} // verus!
