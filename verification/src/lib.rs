//! Query-response engine for a game-server discovery protocol.
//!
//! The library answers two kinds of probes — server info and player list —
//! behind a per-address challenge handshake that bounds reflection
//! amplification. It holds the challenge store, the wire codec for the fixed
//! binary packet layouts, and the two request handlers; reading and sending
//! datagrams is left to the surrounding process.

use vstd::prelude::*;

pub mod challenge;
pub mod codec;
pub mod info;
pub mod players;

verus! {

/// Number of players currently reported by this deployment.
pub const SERVER_CURRENT_PLAYERS: u8 = 32;

/// Advertised player capacity.
pub const SERVER_MAX_PLAYERS: u8 = 128;

} // verus!
