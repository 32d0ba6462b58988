use vstd::prelude::*;
use crate::strmap::StrMap;
use crate::protocol::ClipboardUpdatePayload;

verus! {

/// The single latest clipboard snapshot held for one user.
pub struct ClipboardState {
    pub content_type: String,
    pub data: String,
    pub sender_device_id: String,
}

/// The snapshot that an accepted update payload is stored as.
pub open spec fn snapshot_of(p: ClipboardUpdatePayload) -> ClipboardState {
    ClipboardState {
        content_type: p.content_type,
        data: p.data,
        sender_device_id: p.sender_device_id,
    }
}

impl ClipboardState {
    /// A field-for-field copy of the snapshot.
    pub fn duplicate(&self) -> (r: ClipboardState)
        ensures
            r == *self,
    {
        ClipboardState {
            content_type: self.content_type.clone(),
            data: self.data.clone(),
            sender_device_id: self.sender_device_id.clone(),
        }
    }
}

/// The shared clipboard store: at most one snapshot per user; absence means
/// the user never set a clipboard.
pub struct StateMap {
    states: StrMap<ClipboardState>,
}

impl View for StateMap {
    type V = Map<Seq<char>, ClipboardState>;

    closed spec fn view(&self) -> Map<Seq<char>, ClipboardState> {
        self.states@
    }
}

impl StateMap {
    pub closed spec fn inv(&self) -> bool {
        self.states.inv()
    }

    pub fn new() -> (m: StateMap)
        ensures
            m.inv(),
            m@ == Map::<Seq<char>, ClipboardState>::empty(),
    {
        StateMap { states: StrMap::new() }
    }

    /// Overwrites the user's snapshot unconditionally.
    pub fn update(&mut self, user_id: &str, state: ClipboardState)
        requires
            old(self).inv(),
        ensures
            final(self).inv(),
            final(self)@ == old(self)@.insert(user_id@, state),
    {
        self.states.insert(user_id.to_owned(), state);
    }

    /// Reads the user's current snapshot, if one was ever set.
    pub fn get_state(&self, user_id: &str) -> (r: Option<ClipboardState>)
        requires
            self.inv(),
        ensures
            match r {
                Some(s) => self@.contains_key(user_id@) && s == self@[user_id@],
                None => !self@.contains_key(user_id@),
            },
    {
        match self.states.get(&user_id.to_owned()) {
            Some(s) => Some(s.duplicate()),
            None => None,
        }
    }
}

/// Setting a snapshot and reading it straight back yields that snapshot:
/// the store keeps every field of what was written.
pub proof fn lemma_set_then_get(m: Map<Seq<char>, ClipboardState>, u: Seq<char>, s: ClipboardState)
    ensures
        m.insert(u, s).contains_key(u),
        m.insert(u, s)[u] == s,
{
}

} // verus!
