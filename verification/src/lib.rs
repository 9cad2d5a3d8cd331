//! Lobby and world-state synchronization core for a multiplayer game.
//!
//! The library covers the protocol codec, the player identity registry,
//! the session state machine and the tick-driven host/client logic.
//! Network transport and engine integration live outside, in the driver.

use vstd::prelude::*;

pub mod client;
pub mod codec;
pub mod host;
pub mod laws;
pub mod lobby;
pub mod map;
pub mod session;
pub mod single;
pub mod wire;
pub mod world;

verus! {

/// Protocol tag exchanged at connection time; mismatched tags are rejected
/// by the transport layer.
pub const PROTOCOL_ID: u64 = 7;

} // verus!
