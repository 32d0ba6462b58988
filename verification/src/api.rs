use vstd::prelude::*;
use crate::auth::UserDB;
use crate::auth::verify_user;
use crate::auth::user_verified;
use crate::auth::create_jwt;
use crate::auth::jwt_of;
use crate::connection::ConnectionMap;
use crate::connection::channels_of;
use crate::connection::remove_device;
use crate::connection::devices_of;
use crate::dispatcher::dispatch_clipboard_update;
use crate::protocol::AuthResponse;
use crate::protocol::ClipboardUpdate;
use crate::protocol::ClipboardUpdatePayload;
use crate::state::StateMap;
use crate::state::ClipboardState;
use crate::state::snapshot_of;

verus! {

/// Why a stateless request was refused.
#[derive(Debug)]
pub enum ApiError {
    /// The credentials did not verify.
    Unauthorized,
    /// The user never set a clipboard.
    NotFound,
}

/// Checks the credentials and, when they verify, answers with the success
/// response that carries a freshly issued token.
pub fn http_login(db: &UserDB, username: &str, password: &str, jwt_secret: &str) -> (r: Result<
    AuthResponse,
    ApiError,
>)
    requires
        db.inv(),
    ensures
        user_verified(db@, username@, password@) ==> (r matches Ok(resp) && resp.success
            && resp.message@ == "Authentication successful"@ && (resp.token matches Some(t) && t@
            == jwt_of(username@, 3600, jwt_secret@))),
        !user_verified(db@, username@, password@) ==> r == Err::<AuthResponse, ApiError>(
            ApiError::Unauthorized,
        ),
{
    if verify_user(db, username, password) {
        let token = create_jwt(username, 3600, jwt_secret);
        Ok(
            AuthResponse {
                success: true,
                message: "Authentication successful".to_owned(),
                token: Some(token),
            },
        )
    } else {
        Err(ApiError::Unauthorized)
    }
}

/// Verifies the credentials on this very call, then reads the user's
/// current snapshot; no session is involved.
pub fn http_get_clipboard(db: &UserDB, store: &StateMap, username: &str, password: &str) -> (r:
    Result<ClipboardState, ApiError>)
    requires
        db.inv(),
        store.inv(),
    ensures
        !user_verified(db@, username@, password@) ==> r == Err::<ClipboardState, ApiError>(
            ApiError::Unauthorized,
        ),
        user_verified(db@, username@, password@) && !store@.contains_key(username@) ==> r
            == Err::<ClipboardState, ApiError>(ApiError::NotFound),
        user_verified(db@, username@, password@) && store@.contains_key(username@) ==> r
            == Ok::<ClipboardState, ApiError>(store@[username@]),
{
    if !verify_user(db, username, password) {
        return Err(ApiError::Unauthorized);
    }
    match store.get_state(username) {
        Some(s) => Ok(s),
        None => Err(ApiError::NotFound),
    }
}

/// Verifies the credentials on this very call, then pushes the payload
/// through the same dispatch path the live sessions use: the store is
/// written and the user's other devices are fanned out to. On success the
/// number of devices handed the frame comes back.
pub fn http_set_clipboard(
    db: &UserDB,
    connections: &ConnectionMap,
    store: &mut StateMap,
    username: &str,
    password: &str,
    payload: ClipboardUpdatePayload,
) -> (r: Result<usize, ApiError>)
    requires
        db.inv(),
        connections.inv(),
        old(store).inv(),
    ensures
        final(store).inv(),
        !user_verified(db@, username@, password@) ==> r == Err::<usize, ApiError>(
            ApiError::Unauthorized,
        ) && final(store)@ == old(store)@,
        user_verified(db@, username@, password@) ==> final(store)@ == old(store)@.insert(
            username@,
            snapshot_of(payload),
        ) && (r matches Ok(n) && n == channels_of(
            remove_device(devices_of(connections@, username@), payload.sender_device_id@),
        ).len()),
{
    if !verify_user(db, username, password) {
        return Err(ApiError::Unauthorized);
    }
    let update = ClipboardUpdate {
        msg_type: "clipboard_update".to_owned(),
        payload,
    };
    let delivered = dispatch_clipboard_update(username, update, connections, store);
    Ok(delivered)
}

} // verus!
