use vstd::prelude::*;
use crate::connection::ConnectionMap;
use crate::connection::send_text;
use crate::connection::channels_of;
use crate::connection::remove_device;
use crate::connection::devices_of;
use crate::state::StateMap;
use crate::state::ClipboardState;
use crate::state::snapshot_of;
use crate::protocol::ClipboardUpdate;
use crate::protocol::ClipboardBroadcast;
use crate::wire::encode_broadcast;

verus! {

/// The one path every accepted update takes, whatever surface it came in on:
/// store the snapshot for the user, then fan the broadcast frame out to the
/// user's other live devices. The store write precedes the registry read.
/// Returns how many devices were handed the frame; delivery itself is
/// fire-and-forget.
pub fn dispatch_clipboard_update(
    user_id: &str,
    update: ClipboardUpdate,
    connections: &ConnectionMap,
    state: &mut StateMap,
) -> (delivered: usize)
    requires
        connections.inv(),
        old(state).inv(),
    ensures
        final(state).inv(),
        final(state)@ == old(state)@.insert(user_id@, snapshot_of(update.payload)),
        delivered == channels_of(
            remove_device(devices_of(connections@, user_id@), update.payload.sender_device_id@),
        ).len(),
{
    let payload = update.payload;
    let new_state = ClipboardState {
        content_type: payload.content_type.clone(),
        data: payload.data.clone(),
        sender_device_id: payload.sender_device_id.clone(),
    };
    state.update(user_id, new_state);
    let broadcast = ClipboardBroadcast {
        content_type: payload.content_type,
        data: payload.data,
    };
    let msg = encode_broadcast(&broadcast);
    let others = connections.get_other_devices(user_id, payload.sender_device_id.as_str());
    let mut i: usize = 0;
    while i < others.len()
        invariant
            i <= others@.len(),
        decreases others@.len() - i,
    {
        send_text(&others[i], msg.as_str());
        i = i + 1;
    }
    others.len()
}

} // verus!
