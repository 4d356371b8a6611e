//! What the bridge remembers between two runs.

use vstd::prelude::*;

use crate::text_map::TextMap;

verus! {

/// What the bridge remembers.
pub struct MatrixBridgeState {
    /// The room of each channel.
    pub rooms: TextMap,
    /// The user of each name.
    pub users: TextMap,
    /// The message of each channel that was sent last.
    pub last_synced: TextMap,
    /// The event of each message that was sent.
    pub matrix_events: TextMap,
}

impl MatrixBridgeState {
    pub open spec fn is_new(self) -> bool {
        &&& self.rooms@ == Map::<Seq<char>, Seq<char>>::empty()
        &&& self.users@ == Map::<Seq<char>, Seq<char>>::empty()
        &&& self.last_synced@ == Map::<Seq<char>, Seq<char>>::empty()
        &&& self.matrix_events@ == Map::<Seq<char>, Seq<char>>::empty()
    }
}

impl Default for MatrixBridgeState {
    fn default() -> (r: MatrixBridgeState)
        ensures
            r.is_new(),
    {
        MatrixBridgeState {
            rooms: TextMap::new(),
            users: TextMap::new(),
            last_synced: TextMap::new(),
            matrix_events: TextMap::new(),
        }
    }
}

/// A bridge that starts remembers nothing.
pub proof fn a_new_bridge_remembers_nothing(s: MatrixBridgeState, k: Seq<char>)
    requires
        s.is_new(),
    ensures
        !s.rooms@.contains_key(k),
        !s.users@.contains_key(k),
        !s.last_synced@.contains_key(k),
        !s.matrix_events@.contains_key(k),
{
}

} // verus!
