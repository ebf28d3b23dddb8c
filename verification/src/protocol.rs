use vstd::prelude::*;

verus! {

/// Process-local player / room identifier. Over the wire an id travels as the
/// base64 encoding of its big-endian bytes (see `codec`).
pub type IdType = u64;

/// Wire form of an [`IdType`]: a newtype that is serialized as
/// base64(big-endian bytes), full width, with padding.
#[derive(Clone, Copy, Debug, PartialEq, Eq, Structural, Hash, Default)]
pub struct SerId(pub IdType);

/// Cosmetic attributes a client may pick for its player.
#[derive(Clone, Copy, Debug, PartialEq, Eq, Structural, Hash)]
pub struct PlayerCosmetics {
    pub avatar: u32,
    pub color: u64,
}

/// A player as seen by clients: identity plus cosmetics and host flag.
#[derive(Debug)]
pub struct PlayerObject {
    pub id: SerId,
    pub username: String,
    pub cosmetics: PlayerCosmetics,
    pub is_host: bool,
}

impl Clone for PlayerObject {
    fn clone(&self) -> (r: Self)
        ensures
            r == *self,
    {
        PlayerObject {
            id: self.id,
            username: self.username.clone(),
            cosmetics: self.cosmetics,
            is_host: self.is_host,
        }
    }
}

/// Payload of a login request: the client-asserted name and cosmetics.
#[derive(Debug)]
pub struct LoginData {
    pub username: String,
    pub cosmetics: PlayerCosmetics,
}

impl Clone for LoginData {
    fn clone(&self) -> (r: Self)
        ensures
            r == *self,
    {
        LoginData { username: self.username.clone(), cosmetics: self.cosmetics }
    }
}

/// Envelope fragment holding only the message id of an inbound frame.
pub struct IdMessage {
    pub id: Option<u64>,
}

/// How a started room exchanges its in-game traffic.
#[derive(Clone, Copy, Debug, PartialEq, Eq, Structural)]
pub enum RoomConnectionType {
    ServerBroadcast,
}

/// A decoded client-to-server message.
pub enum ReceivedMessage {
    Login { details: LoginData },
    ChangeAvatar { cosmetics: PlayerCosmetics },
    RoomFind {},
    RoomCreate {},
    RoomLeave {},
    RoomJoin { invite_id: SerId },
    RoomStart { connection_type: RoomConnectionType },
    EventRoomStartAck { request_id: u64 },
}

/// Empty response payload.
pub struct NoData {}

/// A server-initiated event pushed to the sessions of a room.
pub enum OutEvent {
    EventPlayerJoined { player: PlayerObject },
    EventPlayerLeft { player: SerId, new_host: Option<SerId> },
    EventPlayerAvatarChange { player: SerId, cosmetics: PlayerCosmetics },
    EventRoomStart { connection_type: RoomConnectionType, broadcast_id: String },
}

impl Clone for OutEvent {
    fn clone(&self) -> (r: Self)
        ensures
            r == *self,
    {
        match self {
            OutEvent::EventPlayerJoined { player } => OutEvent::EventPlayerJoined {
                player: player.clone(),
            },
            OutEvent::EventPlayerLeft { player, new_host } => OutEvent::EventPlayerLeft {
                player: *player,
                new_host: *new_host,
            },
            OutEvent::EventPlayerAvatarChange { player, cosmetics } => {
                OutEvent::EventPlayerAvatarChange { player: *player, cosmetics: *cosmetics }
            },
            OutEvent::EventRoomStart { connection_type, broadcast_id } => {
                OutEvent::EventRoomStart {
                    connection_type: *connection_type,
                    broadcast_id: broadcast_id.clone(),
                }
            },
        }
    }
}

/// Reply to a successful login.
pub struct LoginResponse {
    pub player_id: SerId,
}

/// Reply to public matchmaking.
pub struct RoomFindResponse {
    pub players: Vec<PlayerObject>,
    pub room_id: SerId,
    pub just_created: bool,
}

/// Reply to private room creation.
pub struct RoomCreateResponse {
    pub players: [PlayerObject; 1],
    pub invite_id: SerId,
}

/// Reply to joining a room by invite id.
pub struct RoomJoinResponse {
    pub players: Vec<PlayerObject>,
}

/// An error frame sent back to the offending client.
#[derive(Debug)]
pub struct Error {
    /// Always the literal tag `"error"`.
    pub mtype: &'static str,
    pub origin_id: Option<u64>,
    pub error: String,
    pub error_message: Option<String>,
}

impl Error {
    /// Error frame that names the inbound message it answers.
    pub fn from_origin(origin_id: u64, error: String, error_message: Option<String>) -> (r: Error)
        ensures
            r.mtype@ == "error"@,
            r.origin_id == Some(origin_id),
            r.error == error,
            r.error_message == error_message,
    {
        Error { mtype: "error", origin_id: Some(origin_id), error, error_message }
    }

    /// Error frame for a failure with no decodable origin id.
    pub fn from(error: String, error_message: Option<String>) -> (r: Error)
        ensures
            r.mtype@ == "error"@,
            r.origin_id is None,
            r.error == error,
            r.error_message == error_message,
    {
        Error { mtype: "error", origin_id: None, error, error_message }
    }
}

/// A decoded in-game client-to-server message.
pub enum ReceivedGameMessage {
    EndGame {},
}

/// A server-to-client in-game reply.
pub enum OutGameMessage {
    EndGameAck { players: Vec<PlayerObject> },
}

/// A server-initiated event pushed to sessions whose player is in-game.
#[derive(Clone, Copy, Debug)]
pub enum OutGameEvent {
    PlayerLeft { player: SerId, new_host: Option<SerId> },
}

} // verus!
