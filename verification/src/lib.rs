//! Core of a small multiplayer 2D dogfighting game.
//!
//! The crate holds the parts of the game that are pure logic: the
//! simulation's data model, the self-describing big-endian wire codec,
//! the per-peer transport bookkeeping (sequence numbers, acks,
//! timeouts), the server's bounded ring of snapshots, and the parser
//! for AI specifier strings.  Numeric fields that the physics
//! integrates are carried as opaque IEEE-754 bit patterns; the
//! arithmetic on them lives with the callers, outside this crate.

use vstd::prelude::*;

pub mod actors;
pub mod ai;
pub mod codec;
pub mod geom;
pub mod input;
pub mod network;
pub mod server;
pub mod specs;
pub mod wire;

verus! {

/// Magic word that opens every datagram of the protocol.
pub const PROTO_ID: u32 = 0xD05F1575;

/// Largest datagram the transport will produce, in bytes.
pub const MAX_PACKET_SIZE: usize = 1400;

/// Milliseconds of silence after which a connection counts as closed.
pub const CONN_TIMEOUT: u32 = 10000;

/// Milliseconds between two keepalive pings.
pub const PING_INTERVAL: u32 = 1000;

/// How many past snapshots the server keeps.
pub const SERVER_GAMES: usize = 32;

} // verus!
