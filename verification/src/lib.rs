use vstd::prelude::*;

pub mod codec;
pub mod coordinator;
pub mod protocol;
pub mod session;

verus! {

/// Largest number of players a room may hold.
pub const MAX_PLAYERS_PER_ROOM: usize = 8;

/// Number of players at which a matchmaking room arms its start countdown.
pub const MIN_PLAYERS_PER_ROOM: usize = 3;

/// Seconds the countdown waits once the minimum player count is reached.
pub const ROOM_COUNTDOWN_ON_MIN_PLAYERS: u64 = 30;

/// Milliseconds between heartbeat pings sent to a client.
pub const HEARTBEAT_INTERVAL_MS: u64 = 5000;

/// Milliseconds of client silence after which a session is closed.
pub const CLIENT_TIMEOUT_MS: u64 = 10000;

/// Largest number of relay payloads a session buffers before acknowledgement.
pub const RELAY_QUEUE_MAX_SIZE: usize = 64;

} // verus!
