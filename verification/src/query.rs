//! The membership query service: a side-effecting read of a room's live
//! member count. The raw count goes back to the HTTP caller; the count is
//! also pushed to the whole room, floored at 1 by design so that a room is
//! never announced to itself as entirely empty.

use vstd::prelude::*;
use crate::registry::RoomRegistry;

verus! {

/// The HTTP-facing membership document: the queried room and its raw live
/// member count, which may be zero.
pub struct RoomCount {
    pub room_id_val: String,
    pub room_count: usize,
}

/// What one membership query decided: the response document and the
/// `update_count` push addressed to the whole room.
pub struct QueryOutcome {
    pub response: RoomCount,
    /// The value pushed to the room. Floored at 1: an empty room is pushed
    /// a 1, a deliberate design floor, while the response still says 0.
    pub pushed_count: usize,
    /// Every current member of the room; nobody is excluded, since the
    /// query originates outside any single connection.
    pub notify: Vec<u64>,
}

/// Read the current member count of `room` and address an `update_count`
/// push of that count, floored at 1, to every current member. Both values
/// are one point-in-time snapshot of the registry; no lock is held between
/// this read and the delivery of the push.
pub fn query_and_notify(reg: &RoomRegistry, room: &String) -> (o: QueryOutcome)
    requires
        reg.wf(),
    ensures
        o.response.room_id_val@ == room@,
        o.response.room_count == reg.members(room@).len(),
        o.pushed_count == if reg.members(room@).len() == 0 {
            1int
        } else {
            reg.members(room@).len() as int
        },
        o.notify@.no_duplicates(),
        o.notify@.to_set() == reg.members(room@),
        o.notify@.len() == reg.members(room@).len(),
{
    let n = reg.count(room);
    let members = reg.members_of(room);
    proof {
        members@.unique_seq_to_set();
    }
    let pushed: usize = if n == 0 {
        1
    } else {
        n
    };
    QueryOutcome {
        response: RoomCount { room_id_val: room.clone(), room_count: n },
        pushed_count: pushed,
        notify: members,
    }
}

} // verus!
