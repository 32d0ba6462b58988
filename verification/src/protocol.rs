use vstd::prelude::*;

verus! {

/// The credentials a client presents in its first frame.
pub struct AuthRequest {
    pub username: String,
    pub password: String,
}

/// The reply to a handshake attempt: a success flag, a human-readable
/// message, and a token when authentication succeeded.
pub struct AuthResponse {
    pub success: bool,
    pub message: String,
    pub token: Option<String>,
}

/// The payload of one clipboard update: what is on the clipboard and which
/// device put it there.
pub struct ClipboardUpdatePayload {
    pub content_type: String,
    pub data: String,
    pub sender_device_id: String,
}

/// A full inbound update frame: a type tag and the payload.
pub struct ClipboardUpdate {
    pub msg_type: String,
    pub payload: ClipboardUpdatePayload,
}

/// What peers receive: the update stripped of its origin device.
pub struct ClipboardBroadcast {
    pub content_type: String,
    pub data: String,
}

} // verus!
