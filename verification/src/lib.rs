//! Core of a room-scoped real-time relay: a registry that tracks which
//! connections belong to which rooms, the connection lifecycle rules
//! (connect, join, forced room disconnect), broadcast fan-out with
//! per-recipient acknowledgement collection, and the membership query
//! service. Transport and HTTP plumbing live outside this crate and call
//! in with plain values.

pub mod broadcast;
pub mod lifecycle;
pub mod payload;
pub mod query;
pub mod registry;
