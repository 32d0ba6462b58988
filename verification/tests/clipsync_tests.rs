use axum::extract::ws::Message;
use clipsync::api::{http_get_clipboard, http_login, http_set_clipboard, ApiError};
use clipsync::auth::{create_jwt, verify_user, UserDB, UserEntry, UserToml};
use clipsync::connection::ConnectionMap;
use clipsync::dispatcher::dispatch_clipboard_update;
use clipsync::protocol::{AuthRequest, AuthResponse, ClipboardBroadcast, ClipboardUpdate, ClipboardUpdatePayload};
use clipsync::session::{ActiveEvent, FirstFrameEvent, SessionHandshake, SessionState};
use clipsync::state::{ClipboardState, StateMap};
use clipsync::wire::{encode_auth_response, encode_broadcast};
use tokio::sync::mpsc::{unbounded_channel, UnboundedReceiver};

type Tx = tokio::sync::mpsc::UnboundedSender<Message>;

fn test_db() -> UserDB {
    UserDB::from_toml(&UserToml {
        users: vec![
            UserEntry { username: "alice".to_string(), password: "pw".to_string() },
            UserEntry { username: "bob".to_string(), password: "hunter2".to_string() },
        ],
    })
}

fn channel() -> (Tx, UnboundedReceiver<Message>) {
    unbounded_channel::<Message>()
}

fn recv_text(rx: &mut UnboundedReceiver<Message>) -> String {
    match rx.try_recv().expect("expected a message") {
        Message::Text(t) => t,
        other => panic!("expected a text frame, got {:?}", other),
    }
}

fn payload(content_type: &str, data: &str, sender: &str) -> ClipboardUpdatePayload {
    ClipboardUpdatePayload {
        content_type: content_type.to_string(),
        data: data.to_string(),
        sender_device_id: sender.to_string(),
    }
}

fn update(content_type: &str, data: &str, sender: &str) -> ClipboardUpdate {
    ClipboardUpdate {
        msg_type: "clipboard_update".to_string(),
        payload: payload(content_type, data, sender),
    }
}

#[test]
fn verify_user_accepts_and_rejects() {
    let db = test_db();
    assert!(verify_user(&db, "alice", "pw"));
    assert!(verify_user(&db, "bob", "hunter2"));
    assert!(!verify_user(&db, "alice", "wrong"));
    assert!(!verify_user(&db, "carol", "pw"));
    assert!(!verify_user(&db, "alice", ""));
}

#[test]
fn later_credential_entry_wins() {
    let db = UserDB::from_toml(&UserToml {
        users: vec![
            UserEntry { username: "alice".to_string(), password: "old".to_string() },
            UserEntry { username: "alice".to_string(), password: "new".to_string() },
        ],
    });
    assert!(!verify_user(&db, "alice", "old"));
    assert!(verify_user(&db, "alice", "new"));
}

#[test]
fn list_others_excludes_own_device() {
    let mut conns = ConnectionMap::new();
    let (tx_phone, mut rx_phone) = channel();
    let (tx_laptop, mut rx_laptop) = channel();
    conns.register("alice", "phone", tx_phone);
    conns.register("alice", "laptop", tx_laptop);

    let others = conns.get_other_devices("alice", "phone");
    assert_eq!(others.len(), 1);
    others[0].send(Message::Text("hi".to_string())).unwrap();
    assert_eq!(recv_text(&mut rx_laptop), "hi");
    assert!(rx_phone.try_recv().is_err());

    assert_eq!(conns.get_other_devices("alice", "laptop").len(), 1);
    assert_eq!(conns.get_other_devices("alice", "tablet").len(), 2);
    assert_eq!(conns.get_other_devices("nobody", "phone").len(), 0);
}

#[test]
fn unregister_collects_empty_user() {
    let mut conns = ConnectionMap::new();
    let (tx_phone, _rx_phone) = channel();
    let (tx_laptop, _rx_laptop) = channel();
    conns.register("alice", "phone", tx_phone);
    conns.register("alice", "laptop", tx_laptop);

    conns.unregister("alice", "phone");
    assert_eq!(conns.get_other_devices("alice", "none").len(), 1);
    conns.unregister("alice", "laptop");
    assert_eq!(conns.get_other_devices("alice", "none").len(), 0);

    // absent user and absent device are no-ops
    conns.unregister("alice", "laptop");
    conns.unregister("carol", "phone");
    assert_eq!(conns.get_other_devices("alice", "none").len(), 0);
}

#[test]
fn reregistration_replaces_the_device_slot() {
    let mut conns = ConnectionMap::new();
    let (tx_old, mut rx_old) = channel();
    let (tx_new, mut rx_new) = channel();
    conns.register("alice", "phone", tx_old);
    conns.register("alice", "phone", tx_new);

    let others = conns.get_other_devices("alice", "elsewhere");
    assert_eq!(others.len(), 1);
    others[0].send(Message::Text("ping".to_string())).unwrap();
    assert_eq!(recv_text(&mut rx_new), "ping");
    assert!(rx_old.try_recv().is_err());
}

#[test]
fn list_others_keeps_registration_order() {
    let mut conns = ConnectionMap::new();
    let (tx_phone, _rx_phone) = channel();
    let (tx_laptop, _rx_laptop) = channel();
    let (tx_tablet, mut rx_tablet) = channel();
    conns.register("alice", "phone", tx_phone);
    conns.register("alice", "laptop", tx_laptop);
    conns.register("alice", "tablet", tx_tablet);

    let others = conns.get_other_devices("alice", "laptop");
    assert_eq!(others.len(), 2);
    others[1].send(Message::Text("to tablet".to_string())).unwrap();
    assert_eq!(recv_text(&mut rx_tablet), "to tablet");
}

#[test]
fn dispatch_stores_then_broadcasts() {
    let mut conns = ConnectionMap::new();
    let mut store = StateMap::new();
    let (tx_phone, mut rx_phone) = channel();
    let (tx_laptop, mut rx_laptop) = channel();
    conns.register("alice", "phone", tx_phone);
    conns.register("alice", "laptop", tx_laptop);

    let delivered =
        dispatch_clipboard_update("alice", update("text", "hello", "phone"), &conns, &mut store);
    assert_eq!(delivered, 1);

    let frame = recv_text(&mut rx_laptop);
    let v: serde_json::Value = serde_json::from_str(&frame).unwrap();
    assert_eq!(v["content_type"], "text");
    assert_eq!(v["data"], "hello");
    assert!(v.get("sender_device_id").is_none());
    assert!(rx_phone.try_recv().is_err());

    let snap = store.get_state("alice").expect("snapshot stored");
    assert_eq!(snap.content_type, "text");
    assert_eq!(snap.data, "hello");
    assert_eq!(snap.sender_device_id, "phone");
}

#[test]
fn set_then_get_round_trip() {
    let mut store = StateMap::new();
    assert!(store.get_state("alice").is_none());
    store.update(
        "alice",
        ClipboardState {
            content_type: "image_png".to_string(),
            data: "aGVsbG8=".to_string(),
            sender_device_id: "phone".to_string(),
        },
    );
    let snap = store.get_state("alice").unwrap();
    assert_eq!(snap.content_type, "image_png");
    assert_eq!(snap.data, "aGVsbG8=");
    assert_eq!(snap.sender_device_id, "phone");

    store.update(
        "alice",
        ClipboardState {
            content_type: "text".to_string(),
            data: "second".to_string(),
            sender_device_id: "laptop".to_string(),
        },
    );
    let snap = store.get_state("alice").unwrap();
    assert_eq!(snap.data, "second");
    assert!(store.get_state("bob").is_none());
}

#[test]
fn handshake_success_registers_exactly_one_entry() {
    let db = test_db();
    let mut conns = ConnectionMap::new();
    let (tx, _rx) = channel();
    let mut session = SessionHandshake::new();

    let response = session.handle_first_frame(
        FirstFrameEvent::Text(Some(AuthRequest {
            username: "alice".to_string(),
            password: "pw".to_string(),
        })),
        &db,
        "secret_key",
        &mut conns,
        tx,
    );

    assert!(matches!(session.state, SessionState::Active { ref username } if username == "alice"));
    let text = response.expect("a success response goes out");
    let v: serde_json::Value = serde_json::from_str(&text).unwrap();
    assert_eq!(v["success"], true);
    assert_eq!(v["message"], "Authentication successful");
    let token = v["token"].as_str().expect("token is a string");

    // the token is a real HS256 token for the subject
    let mut validation = jsonwebtoken::Validation::new(jsonwebtoken::Algorithm::HS256);
    validation.validate_exp = false;
    validation.required_spec_claims.clear();
    let decoded = jsonwebtoken::decode::<serde_json::Value>(
        token,
        &jsonwebtoken::DecodingKey::from_secret(b"secret_key"),
        &validation,
    )
    .expect("token decodes under the same secret");
    assert_eq!(decoded.claims["sub"], "alice");
    assert_eq!(decoded.claims["exp"], 3600);

    // exactly one (alice, alice) entry: nothing besides the device itself
    assert_eq!(conns.get_other_devices("alice", "alice").len(), 0);
    assert_eq!(conns.get_other_devices("alice", "other").len(), 1);
}

#[test]
fn handshake_failure_sends_response_and_registers_nothing() {
    let db = test_db();
    let mut conns = ConnectionMap::new();
    let (tx, _rx) = channel();
    let mut session = SessionHandshake::new();

    let response = session.handle_first_frame(
        FirstFrameEvent::Text(Some(AuthRequest {
            username: "alice".to_string(),
            password: "wrong".to_string(),
        })),
        &db,
        "secret_key",
        &mut conns,
        tx,
    );

    assert!(matches!(session.state, SessionState::AuthFailed));
    let text = response.expect("a failure response goes out");
    let v: serde_json::Value = serde_json::from_str(&text).unwrap();
    assert_eq!(v["success"], false);
    assert_eq!(v["message"], "Auth failed");
    assert!(v["token"].is_null());
    assert_eq!(conns.get_other_devices("alice", "none").len(), 0);

    session.finish_failed();
    assert!(matches!(session.state, SessionState::Closed));
}

#[test]
fn handshake_protocol_failures() {
    let db = test_db();

    let mut conns = ConnectionMap::new();
    let (tx, _rx) = channel();
    let mut session = SessionHandshake::new();
    let response =
        session.handle_first_frame(FirstFrameEvent::Text(None), &db, "secret_key", &mut conns, tx);
    assert!(matches!(session.state, SessionState::ProtocolFailed));
    let v: serde_json::Value = serde_json::from_str(&response.unwrap()).unwrap();
    assert_eq!(v["success"], false);
    assert_eq!(v["message"], "invalid auth json");

    let (tx, _rx) = channel();
    let mut session = SessionHandshake::new();
    let response =
        session.handle_first_frame(FirstFrameEvent::NonText, &db, "secret_key", &mut conns, tx);
    assert!(matches!(session.state, SessionState::ProtocolFailed));
    let v: serde_json::Value = serde_json::from_str(&response.unwrap()).unwrap();
    assert_eq!(v["message"], "expected text auth message");

    let (tx, _rx) = channel();
    let mut session = SessionHandshake::new();
    let response =
        session.handle_first_frame(FirstFrameEvent::Lost, &db, "secret_key", &mut conns, tx);
    assert!(response.is_none());
    assert!(matches!(session.state, SessionState::Closed));
    assert_eq!(conns.get_other_devices("alice", "none").len(), 0);
}

fn active_alice_session(
    db: &UserDB,
    conns: &mut ConnectionMap,
) -> (SessionHandshake, UnboundedReceiver<Message>) {
    let (tx, rx) = channel();
    let mut session = SessionHandshake::new();
    let response = session.handle_first_frame(
        FirstFrameEvent::Text(Some(AuthRequest {
            username: "alice".to_string(),
            password: "pw".to_string(),
        })),
        db,
        "secret_key",
        conns,
        tx,
    );
    assert!(response.is_some());
    (session, rx)
}

#[test]
fn active_update_flows_through_dispatch() {
    let db = test_db();
    let mut conns = ConnectionMap::new();
    let mut store = StateMap::new();
    let (tx_laptop, mut rx_laptop) = channel();
    conns.register("alice", "laptop", tx_laptop);

    let (mut session, _rx_own) = active_alice_session(&db, &mut conns);

    session.handle_active_event(
        ActiveEvent::Update(Some(update("text", "hello", "alice"))),
        &mut conns,
        &mut store,
    );

    assert!(matches!(session.state, SessionState::Active { .. }));
    let frame = recv_text(&mut rx_laptop);
    let v: serde_json::Value = serde_json::from_str(&frame).unwrap();
    assert_eq!(v["content_type"], "text");
    assert_eq!(v["data"], "hello");
    let snap = store.get_state("alice").unwrap();
    assert_eq!(snap.data, "hello");
    assert_eq!(snap.sender_device_id, "alice");
}

#[test]
fn malformed_update_is_discarded_quietly() {
    let db = test_db();
    let mut conns = ConnectionMap::new();
    let mut store = StateMap::new();
    let (tx_laptop, mut rx_laptop) = channel();
    conns.register("alice", "laptop", tx_laptop);
    let (mut session, mut rx_own) = active_alice_session(&db, &mut conns);

    session.handle_active_event(
        ActiveEvent::Update(Some(update("text", "before", "alice"))),
        &mut conns,
        &mut store,
    );
    let _ = recv_text(&mut rx_laptop);

    // a frame like {"type":"x"} with no payload decodes to no update
    session.handle_active_event(ActiveEvent::Update(None), &mut conns, &mut store);
    assert!(matches!(session.state, SessionState::Active { .. }));
    let snap = store.get_state("alice").unwrap();
    assert_eq!(snap.data, "before");
    assert!(rx_laptop.try_recv().is_err());
    assert!(rx_own.try_recv().is_err());

    // a binary or ping frame is ignored the same way
    session.handle_active_event(ActiveEvent::NonText, &mut conns, &mut store);
    assert!(matches!(session.state, SessionState::Active { .. }));
    assert_eq!(store.get_state("alice").unwrap().data, "before");

    // the connection was not closed: the session still fans out
    assert_eq!(conns.get_other_devices("alice", "alice").len(), 1);
}

#[test]
fn session_end_unregisters_the_device() {
    let db = test_db();
    let mut conns = ConnectionMap::new();
    let mut store = StateMap::new();
    let (mut session, _rx_own) = active_alice_session(&db, &mut conns);
    assert_eq!(conns.get_other_devices("alice", "none").len(), 1);

    session.handle_active_event(ActiveEvent::Ended, &mut conns, &mut store);
    assert!(matches!(session.state, SessionState::Closed));
    assert_eq!(conns.get_other_devices("alice", "none").len(), 0);
}

#[test]
fn stateless_set_with_no_sessions_delivers_to_nobody() {
    let db = test_db();
    let conns = ConnectionMap::new();
    let mut store = StateMap::new();

    let r = http_set_clipboard(&db, &conns, &mut store, "alice", "pw", payload("text", "note", "shortcut"));
    assert!(matches!(r, Ok(0)));

    let snap = http_get_clipboard(&db, &store, "alice", "pw").unwrap();
    assert_eq!(snap.content_type, "text");
    assert_eq!(snap.data, "note");
    assert_eq!(snap.sender_device_id, "shortcut");
}

#[test]
fn stateless_set_fans_out_to_live_sessions() {
    let db = test_db();
    let mut conns = ConnectionMap::new();
    let mut store = StateMap::new();
    let (tx_laptop, mut rx_laptop) = channel();
    conns.register("alice", "laptop", tx_laptop);

    let r = http_set_clipboard(&db, &conns, &mut store, "alice", "pw", payload("text", "note", "shortcut"));
    assert!(matches!(r, Ok(1)));
    let frame = recv_text(&mut rx_laptop);
    let v: serde_json::Value = serde_json::from_str(&frame).unwrap();
    assert_eq!(v["data"], "note");
}

#[test]
fn stateless_errors() {
    let db = test_db();
    let conns = ConnectionMap::new();
    let mut store = StateMap::new();

    assert!(matches!(
        http_get_clipboard(&db, &store, "alice", "bad"),
        Err(ApiError::Unauthorized)
    ));
    assert!(matches!(
        http_get_clipboard(&db, &store, "alice", "pw"),
        Err(ApiError::NotFound)
    ));
    assert!(matches!(
        http_set_clipboard(&db, &conns, &mut store, "alice", "bad", payload("text", "x", "d")),
        Err(ApiError::Unauthorized)
    ));
    assert!(store.get_state("alice").is_none());
}

#[test]
fn login_issues_a_token_or_refuses() {
    let db = test_db();
    let resp = http_login(&db, "alice", "pw", "secret_key").unwrap();
    assert!(resp.success);
    assert_eq!(resp.message, "Authentication successful");
    let token = resp.token.expect("token present");
    assert_eq!(token, create_jwt("alice", 3600, "secret_key"));
    assert!(matches!(
        http_login(&db, "alice", "nope", "secret_key"),
        Err(ApiError::Unauthorized)
    ));
}

#[test]
fn broadcast_encoding_is_exact() {
    let b = ClipboardBroadcast {
        content_type: "text".to_string(),
        data: "hello".to_string(),
    };
    assert_eq!(
        encode_broadcast(&b),
        "{\"content_type\":\"text\",\"data\":\"hello\"}"
    );

    let tricky = ClipboardBroadcast {
        content_type: "text".to_string(),
        data: "a\"b\\c\nd\te".to_string(),
    };
    let encoded = encode_broadcast(&tricky);
    assert_eq!(
        encoded,
        "{\"content_type\":\"text\",\"data\":\"a\\\"b\\\\c\\u000ad\\u0009e\"}"
    );
    let v: serde_json::Value = serde_json::from_str(&encoded).unwrap();
    assert_eq!(v["data"], "a\"b\\c\nd\te");
}

#[test]
fn auth_response_encoding_is_exact() {
    let failure = AuthResponse {
        success: false,
        message: "Auth failed".to_string(),
        token: None,
    };
    assert_eq!(
        encode_auth_response(&failure),
        "{\"success\":false,\"message\":\"Auth failed\",\"token\":null}"
    );

    let success = AuthResponse {
        success: true,
        message: "Authentication successful".to_string(),
        token: Some("abc.def.ghi".to_string()),
    };
    assert_eq!(
        encode_auth_response(&success),
        "{\"success\":true,\"message\":\"Authentication successful\",\"token\":\"abc.def.ghi\"}"
    );
}
