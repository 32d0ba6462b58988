use vstd::prelude::*;
use crate::auth::UserDB;
use crate::auth::verify_user;
use crate::auth::user_verified;
use crate::auth::create_jwt;
use crate::auth::jwt_of;
use crate::connection::Channel;
use crate::connection::ConnectionMap;
use crate::connection::spec_register;
use crate::connection::spec_unregister;
use crate::dispatcher::dispatch_clipboard_update;
use crate::protocol::AuthRequest;
use crate::protocol::AuthResponse;
use crate::protocol::ClipboardUpdate;
use crate::state::StateMap;
use crate::state::snapshot_of;
use crate::wire::spec_auth_response_json;

verus! {

/// Where one connection stands on its way into the system.
pub enum SessionState {
    /// Nothing received yet: the first frame must carry credentials.
    AwaitingAuth,
    /// Authenticated and registered; update frames are accepted.
    Active { username: String },
    /// Credentials were rejected; a failure response goes out, then close.
    AuthFailed,
    /// The first frame was not a well-formed credential frame.
    ProtocolFailed,
    /// The connection is finished; nothing more happens on it.
    Closed,
}

/// What the transport delivered as the connection's first frame.
pub enum FirstFrameEvent {
    /// A text frame, with the credentials it decoded to, if it decoded.
    Text(Option<AuthRequest>),
    /// A frame that was not text.
    NonText,
    /// The transport errored or closed before any frame arrived.
    Lost,
}

/// What the transport delivered while the session was active.
pub enum ActiveEvent {
    /// A text frame, with the update it decoded to, if it decoded.
    Update(Option<ClipboardUpdate>),
    /// A frame that was not text; ignored.
    NonText,
    /// A close frame or a transport error: the session ends.
    Ended,
}

/// The user an active session belongs to.
pub open spec fn session_username(s: SessionState) -> Seq<char> {
    match s {
        SessionState::Active { username } => username@,
        _ => Seq::empty(),
    }
}

/// The per-connection state machine gating a raw connection into an
/// authenticated, registered session.
pub struct SessionHandshake {
    pub state: SessionState,
}

impl SessionHandshake {
    /// A fresh connection awaits its credential frame.
    pub fn new() -> (s: SessionHandshake)
        ensures
            s.state is AwaitingAuth,
    {
        SessionHandshake { state: SessionState::AwaitingAuth }
    }

    /// Handles the first frame. On verified credentials the session turns
    /// active and registers exactly one `(username, username)` entry with
    /// the given outbound handle; on any failure nothing is registered, and
    /// a failure response goes back whenever a frame arrived at all.
    pub fn handle_first_frame(
        &mut self,
        event: FirstFrameEvent,
        db: &UserDB,
        jwt_secret: &str,
        connections: &mut ConnectionMap,
        outbound: Channel,
    ) -> (response: Option<String>)
        requires
            old(self).state is AwaitingAuth,
            db.inv(),
            old(connections).inv(),
        ensures
            final(connections).inv(),
            match event {
                FirstFrameEvent::Text(decoded) => match decoded {
                    Some(req) => {
                        if user_verified(db@, req.username@, req.password@) {
                            &&& final(self).state matches SessionState::Active { username }
                                && username@ == req.username@
                            &&& final(connections)@ == spec_register(
                                old(connections)@,
                                req.username@,
                                req.username@,
                                outbound,
                            )
                            &&& response matches Some(r) && r@ == spec_auth_response_json(
                                true,
                                "Authentication successful"@,
                                Some(jwt_of(req.username@, 3600, jwt_secret@)),
                            )
                        } else {
                            &&& final(self).state is AuthFailed
                            &&& final(connections)@ == old(connections)@
                            &&& response matches Some(r) && r@ == spec_auth_response_json(
                                false,
                                "Auth failed"@,
                                None,
                            )
                        }
                    },
                    None => {
                        &&& final(self).state is ProtocolFailed
                        &&& final(connections)@ == old(connections)@
                        &&& response matches Some(r) && r@ == spec_auth_response_json(
                            false,
                            "invalid auth json"@,
                            None,
                        )
                    },
                },
                FirstFrameEvent::NonText => {
                    &&& final(self).state is ProtocolFailed
                    &&& final(connections)@ == old(connections)@
                    &&& response matches Some(r) && r@ == spec_auth_response_json(
                        false,
                        "expected text auth message"@,
                        None,
                    )
                },
                FirstFrameEvent::Lost => {
                    &&& final(self).state is Closed
                    &&& final(connections)@ == old(connections)@
                    &&& response is None
                },
            },
    {
        match event {
            FirstFrameEvent::Text(Some(req)) => {
                if verify_user(db, req.username.as_str(), req.password.as_str()) {
                    let token = create_jwt(req.username.as_str(), 3600, jwt_secret);
                    let resp = AuthResponse {
                        success: true,
                        message: "Authentication successful".to_owned(),
                        token: Some(token),
                    };
                    let text = crate::wire::encode_auth_response(&resp);
                    connections.register(req.username.as_str(), req.username.as_str(), outbound);
                    self.state = SessionState::Active { username: req.username };
                    Some(text)
                } else {
                    let resp = AuthResponse {
                        success: false,
                        message: "Auth failed".to_owned(),
                        token: None,
                    };
                    self.state = SessionState::AuthFailed;
                    Some(crate::wire::encode_auth_response(&resp))
                }
            },
            FirstFrameEvent::Text(None) => {
                let resp = AuthResponse {
                    success: false,
                    message: "invalid auth json".to_owned(),
                    token: None,
                };
                self.state = SessionState::ProtocolFailed;
                Some(crate::wire::encode_auth_response(&resp))
            },
            FirstFrameEvent::NonText => {
                let resp = AuthResponse {
                    success: false,
                    message: "expected text auth message".to_owned(),
                    token: None,
                };
                self.state = SessionState::ProtocolFailed;
                Some(crate::wire::encode_auth_response(&resp))
            },
            FirstFrameEvent::Lost => {
                self.state = SessionState::Closed;
                None
            },
        }
    }

    /// Handles one inbound event while active. A well-formed update is
    /// dispatched: stored, then fanned out. A malformed or non-text frame is
    /// discarded and changes nothing. A close or transport error unregisters
    /// the session's device and ends the session.
    pub fn handle_active_event(
        &mut self,
        event: ActiveEvent,
        connections: &mut ConnectionMap,
        state: &mut StateMap,
    )
        requires
            old(self).state is Active,
            old(connections).inv(),
            old(state).inv(),
        ensures
            final(connections).inv(),
            final(state).inv(),
            match event {
                ActiveEvent::Update(decoded) => match decoded {
                    Some(u) => {
                        &&& final(self).state == old(self).state
                        &&& final(state)@ == old(state)@.insert(
                            session_username(old(self).state),
                            snapshot_of(u.payload),
                        )
                        &&& final(connections)@ == old(connections)@
                    },
                    None => {
                        &&& final(self).state == old(self).state
                        &&& final(state)@ == old(state)@
                        &&& final(connections)@ == old(connections)@
                    },
                },
                ActiveEvent::NonText => {
                    &&& final(self).state == old(self).state
                    &&& final(state)@ == old(state)@
                    &&& final(connections)@ == old(connections)@
                },
                ActiveEvent::Ended => {
                    &&& final(self).state is Closed
                    &&& final(state)@ == old(state)@
                    &&& final(connections)@ == spec_unregister(
                        old(connections)@,
                        session_username(old(self).state),
                        session_username(old(self).state),
                    )
                },
            },
    {
        match event {
            ActiveEvent::Update(Some(u)) => {
                let uname = match &self.state {
                    SessionState::Active { username } => username.clone(),
                    _ => unreached(),
                };
                dispatch_clipboard_update(uname.as_str(), u, connections, state);
            },
            ActiveEvent::Update(None) => {},
            ActiveEvent::NonText => {},
            ActiveEvent::Ended => {
                let uname = match &self.state {
                    SessionState::Active { username } => username.clone(),
                    _ => unreached(),
                };
                connections.unregister(uname.as_str(), uname.as_str());
                self.state = SessionState::Closed;
            },
        }
    }

    /// A handshake that failed ends closed once its failure response is out.
    pub fn finish_failed(&mut self)
        requires
            old(self).state is AuthFailed || old(self).state is ProtocolFailed,
        ensures
            final(self).state is Closed,
    {
        self.state = SessionState::Closed;
    }
}

} // verus!
