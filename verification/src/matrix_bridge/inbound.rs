//! Messages from a room.

use vstd::prelude::*;

use crate::text::{is_blank, trim};

verus! {

/// Whether messages can be taken from a room: it has to have a name.
pub fn run_inbound_sync(room_id: &str) -> (r: Result<(), String>)
    ensures
        match r {
            Ok(()) => trim(room_id@).len() > 0,
            Err(message) => trim(room_id@).len() == 0 && message@ == "room_id cannot be empty"@,
        },
{
    if is_blank(room_id) {
        Err("room_id cannot be empty".to_owned())
    } else {
        Ok(())
    }
}

} // verus!
