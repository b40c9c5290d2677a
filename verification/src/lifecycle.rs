//! Connection lifecycle rules: what a connect and an explicit room-scoped
//! disconnect request decide, given the inbound payload. Malformed or
//! unexpected payload shapes are tolerated everywhere: they degrade to a
//! no-op, never to an error or a teardown.

use vstd::prelude::*;
use crate::broadcast::broadcast_targets;
use crate::broadcast::target_set;
use crate::payload::PayloadValue;
use crate::payload::extract_room_id;
use crate::payload::room_id_of;
use crate::registry::RoomRegistry;

verus! {

/// One live bidirectional channel to a client: its transport-assigned id,
/// unique for the connection's lifetime, and the rooms it believes it has
/// joined. The room list is best-effort bookkeeping; the registry is
/// authoritative on conflicts.
pub struct Connection {
    pub id: u64,
    pub rooms: Vec<String>,
}

impl Connection {
    /// A freshly connected client that has joined no room yet.
    pub fn new(id: u64) -> (c: Connection)
        ensures
            c.id == id,
            c.rooms@.len() == 0,
    {
        Connection { id, rooms: Vec::new() }
    }
}

/// What the connect flow decided after the unconditional greeting.
pub enum ConnectAction {
    /// The payload named a room: the connection joined it, and the listed
    /// other members are to be told that a member joined.
    Joined { room: String, notify: Vec<u64> },
    /// A structured document without a well-typed `room_id` field: the
    /// connect proceeds with no room membership; not an error.
    NoRoom,
    /// The payload was not a structured document: logged as a warning, and
    /// the connect proceeds with no room membership.
    MalformedPayload,
}

/// The full result of a connect: the greeting is owed to every new
/// connection, whatever the payload looked like.
pub struct ConnectOutcome {
    pub greet: bool,
    pub action: ConnectAction,
}

/// Handle a transport-level connect carrying `payload`. The new connection
/// is always greeted. If the payload is a document with a text `room_id`
/// field, the connection joins that room and every other current member of
/// the room is to be notified; join success does not depend on whether
/// those notifications can later be delivered. Any other payload shape
/// leaves every room, and the connection's own bookkeeping, untouched.
pub fn on_connect(reg: &mut RoomRegistry, conn: &mut Connection, payload: &PayloadValue) -> (o:
    ConnectOutcome)
    requires
        old(reg).wf(),
    ensures
        final(reg).wf(),
        o.greet,
        final(conn).id == old(conn).id,
        match room_id_of(*payload) {
            Some(rid) => {
                &&& o.action matches ConnectAction::Joined { room, notify } && room@ == rid
                    && notify@.no_duplicates() && notify@.to_set() == target_set(
                    old(reg).members(rid),
                    old(conn).id,
                ) && !notify@.contains(old(conn).id) && final(conn).rooms@ == old(
                    conn,
                ).rooms@.push(room)
                &&& final(reg).members(rid) == old(reg).members(rid).insert(old(conn).id)
                &&& forall|r: Seq<char>| r != rid ==> final(reg).members(r) == old(reg).members(r)
            },
            None => {
                &&& *final(reg) == *old(reg)
                &&& *final(conn) == *old(conn)
                &&& if (*payload) is Document {
                    o.action is NoRoom
                } else {
                    o.action is MalformedPayload
                }
            },
        },
{
    match extract_room_id(payload) {
        Some(room) => {
            let c = conn.id;
            reg.join(c, &room);
            let notify = broadcast_targets(reg, c, &room);
            proof {
                assert(old(reg).members(room@).insert(c).remove(c) =~= old(reg).members(
                    room@,
                ).remove(c));
            }
            conn.rooms.push(room.clone());
            ConnectOutcome { greet: true, action: ConnectAction::Joined { room, notify } }
        },
        None => {
            match payload {
                PayloadValue::Document(_) => ConnectOutcome {
                    greet: true,
                    action: ConnectAction::NoRoom,
                },
                _ => ConnectOutcome { greet: true, action: ConnectAction::MalformedPayload },
            }
        },
    }
}

/// What an explicit disconnect request decided.
pub enum DisconnectAction {
    /// The payload named a room: the connection's participation in that
    /// room was terminated.
    ForcedLeave { room: String },
    /// A structured document without a well-typed `room_id` field: the
    /// request is logged and ignored; no teardown.
    Ignored,
    /// The payload was not a structured document: logged as a warning; the
    /// connection remains fully connected.
    MalformedPayload,
}

/// Handle an explicit disconnect request from `conn` carrying `payload`.
/// Only a document with a text `room_id` field removes the connection from
/// that one room; everything else is tolerated and changes nothing. The
/// request is never escalated to a full connection teardown.
pub fn on_disconnect_request(
    reg: &mut RoomRegistry,
    conn: &Connection,
    payload: &PayloadValue,
) -> (action: DisconnectAction)
    requires
        old(reg).wf(),
    ensures
        final(reg).wf(),
        match room_id_of(*payload) {
            Some(rid) => {
                &&& action matches DisconnectAction::ForcedLeave { room } && room@ == rid
                &&& final(reg).members(rid) == old(reg).members(rid).remove(conn.id)
                &&& !final(reg).members(rid).contains(conn.id)
                &&& forall|r: Seq<char>| r != rid ==> final(reg).members(r) == old(reg).members(r)
            },
            None => {
                &&& *final(reg) == *old(reg)
                &&& if (*payload) is Document {
                    action is Ignored
                } else {
                    action is MalformedPayload
                }
            },
        },
{
    match extract_room_id(payload) {
        Some(room) => {
            reg.leave(conn.id, &room);
            DisconnectAction::ForcedLeave { room }
        },
        None => {
            match payload {
                PayloadValue::Document(_) => DisconnectAction::Ignored,
                _ => DisconnectAction::MalformedPayload,
            }
        },
    }
}

} // verus!
