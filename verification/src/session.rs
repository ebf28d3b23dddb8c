use vstd::prelude::*;

use crate::protocol::IdType;
use crate::protocol::LoginData;
use crate::protocol::OutEvent;
use crate::protocol::OutGameEvent;
use crate::protocol::PlayerCosmetics;
use crate::protocol::PlayerObject;
use crate::protocol::ReceivedMessage;
use crate::protocol::RoomConnectionType;
use crate::protocol::RoomCreateResponse;
use crate::protocol::RoomFindResponse;
use crate::protocol::SerId;
use crate::CLIENT_TIMEOUT_MS;
use crate::RELAY_QUEUE_MAX_SIZE;

verus! {

/// Protocol state of one client session.
#[derive(Clone, Copy, Debug, PartialEq, Eq, Structural)]
pub enum ClientState {
    /// Freshly connected; only a login is accepted.
    PreLogin,
    /// Logged in, not in a room; may re-login, create, join or find a room.
    MatchMaking,
    /// In a matchmaking-phase room; may edit cosmetics, leave or start.
    Lobby,
    /// The start event went out under the recorded message id and awaits the
    /// client's acknowledgement.
    PrePlaying(u64),
    /// In a running game; inbound text is relayed opaquely.
    Playing,
}

/// The coordinator reply the session is waiting for, with the inbound message
/// id it answers.
#[derive(Clone, Copy, Debug, PartialEq, Eq, Structural)]
pub enum Pending {
    Login { req_id: u64 },
    Create { req_id: u64 },
    Join { req_id: u64 },
    Find { req_id: u64 },
}

/// A request the session hands to the runtime for delivery to the
/// coordinator.
pub enum CoordRequest {
    Register { id: Option<IdType>, login: LoginData },
    Create { id: IdType },
    Join { id: IdType, room_id: IdType },
    Find { id: IdType },
    Leave { id: IdType },
    Start { id: IdType, conn_type: RoomConnectionType },
    EditCosmetics { id: IdType, cosmetics: PlayerCosmetics },
    Relay { id: IdType, data: String },
    Disconnect { id: IdType },
}

/// Why an error frame is sent; the wire strings are fixed per kind.
#[derive(Clone, Copy, Debug, PartialEq, Eq, Structural)]
pub enum ErrorKind {
    LoginRequired,
    InvalidMessageType,
    InvalidState,
    InvalidRequestId,
    InvalidJson,
    IdMissing,
    GameIsFull,
}

impl ErrorKind {
    /// The wire string of this error.
    pub fn message(&self) -> (r: &'static str)
        ensures
            self is LoginRequired ==> r@ == "Login Required"@,
            self is InvalidMessageType ==> r@ == "Invalid message type"@,
            self is InvalidState ==> r@ == "Invalid state"@,
            self is InvalidRequestId ==> r@ == "Invalid request_id"@,
            self is InvalidJson ==> r@ == "Invalid Json"@,
            self is IdMissing ==> r@ == "Id missing"@,
            self is GameIsFull ==> r@ == "Game is full"@,
    {
        match self {
            ErrorKind::LoginRequired => "Login Required",
            ErrorKind::InvalidMessageType => "Invalid message type",
            ErrorKind::InvalidState => "Invalid state",
            ErrorKind::InvalidRequestId => "Invalid request_id",
            ErrorKind::InvalidJson => "Invalid Json",
            ErrorKind::IdMissing => "Id missing",
            ErrorKind::GameIsFull => "Game is full",
        }
    }

    /// The wire detail string of this error, where one exists.
    pub fn detail(&self) -> (r: Option<&'static str>)
        ensures
            self is InvalidState ==> (r matches Some(d) && d@ == "No message to acknowledge"@),
            !(self is InvalidState) ==> r is None,
    {
        match self {
            ErrorKind::InvalidState => Some("No message to acknowledge"),
            _ => None,
        }
    }
}

/// The result code of a failed join, as the response's `result` field.
#[derive(Clone, Copy, Debug, PartialEq, Eq, Structural)]
pub enum JoinError {
    RoomNotFound,
    RoomIsFull,
    AlreadyPlaying,
}

impl JoinError {
    /// The wire string of this result code.
    pub fn code(&self) -> (r: &'static str)
        ensures
            self is RoomNotFound ==> r@ == "room_not_found"@,
            self is RoomIsFull ==> r@ == "room_is_full"@,
            self is AlreadyPlaying ==> r@ == "already_playing"@,
    {
        match self {
            JoinError::RoomNotFound => "room_not_found",
            JoinError::RoomIsFull => "room_is_full",
            JoinError::AlreadyPlaying => "already_playing",
        }
    }
}

/// The typed body of a numbered outbound frame.
pub enum FrameBody {
    LoginOk { request_id: u64, player_id: SerId },
    RoomCreateOk { request_id: u64, resp: RoomCreateResponse },
    RoomJoinOk { request_id: u64, players: Vec<PlayerObject> },
    RoomJoinErr { request_id: u64, result: JoinError },
    RoomFindOk { request_id: u64, resp: RoomFindResponse },
    RoomLeaveOk { request_id: u64 },
    ErrorFrame { origin_id: Option<u64>, kind: ErrorKind },
    Event { event: OutEvent },
    GameEvent { event: OutGameEvent },
}

/// What the session asks the runtime to do in response to a stimulus.
pub enum SessionOutput {
    /// Write a numbered frame to the socket.
    Frame { id: u64, body: FrameBody },
    /// Write raw relay text to the socket, without an envelope.
    RawText { data: String },
    /// Deliver a fire-and-forget request to the coordinator.
    Request { req: CoordRequest },
    /// Deliver a request and feed the reply back through the matching
    /// `on_..._reply` entry before processing further inbound messages.
    RequestReply { req: CoordRequest },
    /// Close the session.
    Close,
}

/// The relay outputs that flushing a buffered queue produces, in queue order.
pub open spec fn raw_outputs(q: Seq<String>) -> Seq<SessionOutput> {
    q.map_values(|s: String| SessionOutput::RawText { data: s })
}

/// Whether the heartbeat check keeps the session or closes it.
#[derive(Clone, Copy, Debug, PartialEq, Eq, Structural)]
pub enum HeartbeatAction {
    Ping,
    Close,
}

/// One client session: the protocol state machine, the outbound message
/// counter, the pre-playing relay buffer, and the liveness clock.
pub struct ClientWs {
    pub state: ClientState,
    pub session_id: IdType,
    pub next_send_id: u64,
    pub relay_queue: Vec<String>,
    pub last_hb_ms: u64,
    pub pending: Option<Pending>,
    /// The message ids handed out so far, oldest first.
    pub emitted: Ghost<Seq<u64>>,
}

impl ClientWs {
    /// Session invariant: the ids handed out so far are exactly
    /// zero, one, two and so on, the relay buffer respects its bound and is
    /// only used before the start acknowledgement, and an awaited reply fits
    /// the protocol state.
    pub open spec fn wf(self) -> bool {
        &&& self.emitted@.len() == self.next_send_id
        &&& forall|i: int| 0 <= i < self.emitted@.len() ==> self.emitted@[i] == i
        &&& self.relay_queue@.len() <= RELAY_QUEUE_MAX_SIZE
        &&& !(self.state is PrePlaying) ==> self.relay_queue@.len() == 0
        &&& match self.pending {
            None => true,
            Some(Pending::Login { .. }) => self.state is PreLogin || self.state is MatchMaking,
            Some(_) => self.state is MatchMaking,
        }
    }

    /// A fresh session: pre-login, counter at zero, empty buffer.
    pub fn new() -> (r: Self)
        ensures
            r.wf(),
            r.state is PreLogin,
            r.session_id == 0,
            r.next_send_id == 0,
            r.relay_queue@.len() == 0,
            r.last_hb_ms == 0,
            r.pending is None,
            r.emitted@ == Seq::<u64>::empty(),
    {
        ClientWs {
            state: ClientState::PreLogin,
            session_id: 0,
            next_send_id: 0,
            relay_queue: Vec::new(),
            last_hb_ms: 0,
            pending: None,
            emitted: Ghost(Seq::empty()),
        }
    }

    /// Hand out the next outbound message id: the counter's value, after
    /// which the counter moves up by one.
    pub fn allocate_id(&mut self) -> (r: u64)
        requires
            old(self).wf(),
            old(self).next_send_id < u64::MAX,
        ensures
            final(self).wf(),
            r == old(self).next_send_id,
            final(self).next_send_id == old(self).next_send_id + 1,
            final(self).emitted@ == old(self).emitted@.push(r),
            final(self).state == old(self).state,
            final(self).session_id == old(self).session_id,
            final(self).relay_queue@ == old(self).relay_queue@,
            final(self).last_hb_ms == old(self).last_hb_ms,
            final(self).pending == old(self).pending,
    {
        let id = self.next_send_id;
        self.next_send_id = self.next_send_id + 1;
        proof {
            self.emitted@ = self.emitted@.push(id);
        }
        id
    }

    /// Emit one numbered frame carrying `body`.
    fn send_frame(&mut self, body: FrameBody, out: &mut Vec<SessionOutput>)
        requires
            old(self).wf(),
            old(self).next_send_id < u64::MAX,
        ensures
            final(self).wf(),
            final(self).next_send_id == old(self).next_send_id + 1,
            final(self).emitted@ == old(self).emitted@.push(old(self).next_send_id),
            final(self).state == old(self).state,
            final(self).session_id == old(self).session_id,
            final(self).relay_queue@ == old(self).relay_queue@,
            final(self).last_hb_ms == old(self).last_hb_ms,
            final(self).pending == old(self).pending,
            final(out)@ == old(out)@ + seq![
                SessionOutput::Frame { id: old(self).next_send_id, body },
            ],
    {
        let id = self.allocate_id();
        out.push(SessionOutput::Frame { id, body });
        proof {
            assert(out@ =~= old(out)@ + seq![
                SessionOutput::Frame { id: old(self).next_send_id, body },
            ]);
        }
    }

    /// Emit an error frame; the runtime also uses this for undecodable input.
    pub fn report_error(
        &mut self,
        origin_id: Option<u64>,
        kind: ErrorKind,
        out: &mut Vec<SessionOutput>,
    )
        requires
            old(self).wf(),
            old(self).next_send_id < u64::MAX,
        ensures
            final(self).wf(),
            final(self).next_send_id == old(self).next_send_id + 1,
            final(self).state == old(self).state,
            final(self).session_id == old(self).session_id,
            final(self).relay_queue@ == old(self).relay_queue@,
            final(self).last_hb_ms == old(self).last_hb_ms,
            final(self).pending == old(self).pending,
            final(out)@ == old(out)@ + seq![
                SessionOutput::Frame {
                    id: old(self).next_send_id,
                    body: FrameBody::ErrorFrame { origin_id, kind },
                },
            ],
    {
        self.send_frame(FrameBody::ErrorFrame { origin_id, kind }, out);
    }

    /// Gate one decoded inbound message by the protocol state: requests the
    /// state accepts go to the coordinator, a matching acknowledgement starts
    /// the game and flushes the relay buffer, and everything else is answered
    /// with an error frame. Nothing is processed while a reply is awaited.
    pub fn handle_message(&mut self, id: u64, mex: ReceivedMessage, out: &mut Vec<SessionOutput>)
        requires
            old(self).wf(),
            old(self).pending is None,
            old(self).next_send_id < u64::MAX,
        ensures
            final(self).wf(),
            final(self).session_id == old(self).session_id,
            final(self).last_hb_ms == old(self).last_hb_ms,
            old(self).state is PreLogin ==> match mex {
                ReceivedMessage::Login { details } => {
                    &&& final(self).state == old(self).state
                    &&& final(self).pending == Some(Pending::Login { req_id: id })
                    &&& final(self).next_send_id == old(self).next_send_id
                    &&& final(out)@ == old(out)@ + seq![
                        SessionOutput::RequestReply {
                            req: CoordRequest::Register { id: None, login: details },
                        },
                    ]
                },
                _ => final(self).errored(*old(self), *old(out), final(out)@, id, ErrorKind::LoginRequired),
            },
            old(self).state is MatchMaking ==> match mex {
                ReceivedMessage::Login { details } => {
                    &&& final(self).state == old(self).state
                    &&& final(self).pending == Some(Pending::Login { req_id: id })
                    &&& final(self).next_send_id == old(self).next_send_id
                    &&& final(out)@ == old(out)@ + seq![
                        SessionOutput::RequestReply {
                            req: CoordRequest::Register {
                                id: Some(old(self).session_id),
                                login: details,
                            },
                        },
                    ]
                },
                ReceivedMessage::RoomCreate {  } => {
                    &&& final(self).state == old(self).state
                    &&& final(self).pending == Some(Pending::Create { req_id: id })
                    &&& final(self).next_send_id == old(self).next_send_id
                    &&& final(out)@ == old(out)@ + seq![
                        SessionOutput::RequestReply {
                            req: CoordRequest::Create { id: old(self).session_id },
                        },
                    ]
                },
                ReceivedMessage::RoomJoin { invite_id } => {
                    &&& final(self).state == old(self).state
                    &&& final(self).pending == Some(Pending::Join { req_id: id })
                    &&& final(self).next_send_id == old(self).next_send_id
                    &&& final(out)@ == old(out)@ + seq![
                        SessionOutput::RequestReply {
                            req: CoordRequest::Join {
                                id: old(self).session_id,
                                room_id: invite_id.0,
                            },
                        },
                    ]
                },
                ReceivedMessage::RoomFind {  } => {
                    &&& final(self).state == old(self).state
                    &&& final(self).pending == Some(Pending::Find { req_id: id })
                    &&& final(self).next_send_id == old(self).next_send_id
                    &&& final(out)@ == old(out)@ + seq![
                        SessionOutput::RequestReply {
                            req: CoordRequest::Find { id: old(self).session_id },
                        },
                    ]
                },
                _ => final(self).errored(*old(self), *old(out), final(out)@, id, ErrorKind::InvalidMessageType),
            },
            old(self).state is Lobby ==> match mex {
                ReceivedMessage::ChangeAvatar { cosmetics } => {
                    &&& final(self).state == old(self).state
                    &&& final(self).pending is None
                    &&& final(self).next_send_id == old(self).next_send_id
                    &&& final(out)@ == old(out)@ + seq![
                        SessionOutput::Request {
                            req: CoordRequest::EditCosmetics {
                                id: old(self).session_id,
                                cosmetics,
                            },
                        },
                    ]
                },
                ReceivedMessage::RoomLeave {  } => {
                    &&& final(self).state is MatchMaking
                    &&& final(self).pending is None
                    &&& final(self).next_send_id == old(self).next_send_id + 1
                    &&& final(out)@ == old(out)@ + seq![
                        SessionOutput::Request {
                            req: CoordRequest::Leave { id: old(self).session_id },
                        },
                        SessionOutput::Frame {
                            id: old(self).next_send_id,
                            body: FrameBody::RoomLeaveOk { request_id: id },
                        },
                    ]
                },
                ReceivedMessage::RoomStart { connection_type } => {
                    &&& final(self).state == old(self).state
                    &&& final(self).pending is None
                    &&& final(self).next_send_id == old(self).next_send_id
                    &&& final(out)@ == old(out)@ + seq![
                        SessionOutput::Request {
                            req: CoordRequest::Start {
                                id: old(self).session_id,
                                conn_type: connection_type,
                            },
                        },
                    ]
                },
                ReceivedMessage::EventRoomStartAck { .. } => final(self).errored(
                    *old(self),
                    *old(out),
                    final(out)@,
                    id,
                    ErrorKind::InvalidState,
                ),
                _ => final(self).errored(*old(self), *old(out), final(out)@, id, ErrorKind::InvalidMessageType),
            },
            old(self).state matches ClientState::PrePlaying(res_id) ==> match mex {
                ReceivedMessage::EventRoomStartAck { request_id } => {
                    if request_id == res_id {
                        &&& final(self).state is Playing
                        &&& final(self).pending is None
                        &&& final(self).next_send_id == old(self).next_send_id
                        &&& final(self).relay_queue@.len() == 0
                        &&& final(out)@ == old(out)@ + raw_outputs(old(self).relay_queue@)
                    } else {
                        final(self).errored(*old(self), *old(out), final(out)@, id, ErrorKind::InvalidRequestId)
                    }
                },
                _ => final(self).errored(*old(self), *old(out), final(out)@, id, ErrorKind::InvalidMessageType),
            },
            old(self).state is Playing ==> final(self).state == old(self).state && final(self).pending is None && final(self).next_send_id == old(self).next_send_id && final(out)@
                == old(out)@,
    {
        match self.state {
            ClientState::PreLogin => {
                match mex {
                    ReceivedMessage::Login { details } => {
                        self.pending = Some(Pending::Login { req_id: id });
                        out.push(
                            SessionOutput::RequestReply {
                                req: CoordRequest::Register { id: None, login: details },
                            },
                        );
                        proof {
                            assert(out@ =~= old(out)@ + seq![
                                SessionOutput::RequestReply {
                                    req: CoordRequest::Register {
                                        id: None,
                                        login: mex->Login_details,
                                    },
                                },
                            ]);
                        }
                    },
                    _ => {
                        self.report_error(Some(id), ErrorKind::LoginRequired, out);
                    },
                }
            },
            ClientState::MatchMaking => {
                match mex {
                    ReceivedMessage::Login { details } => {
                        self.pending = Some(Pending::Login { req_id: id });
                        let req = CoordRequest::Register {
                            id: Some(self.session_id),
                            login: details,
                        };
                        out.push(SessionOutput::RequestReply { req });
                        proof {
                            assert(out@ =~= old(out)@ + seq![
                                SessionOutput::RequestReply {
                                    req: CoordRequest::Register {
                                        id: Some(old(self).session_id),
                                        login: mex->Login_details,
                                    },
                                },
                            ]);
                        }
                    },
                    ReceivedMessage::RoomCreate {  } => {
                        self.pending = Some(Pending::Create { req_id: id });
                        let req = CoordRequest::Create { id: self.session_id };
                        out.push(SessionOutput::RequestReply { req });
                        proof {
                            assert(out@ =~= old(out)@ + seq![
                                SessionOutput::RequestReply {
                                    req: CoordRequest::Create { id: old(self).session_id },
                                },
                            ]);
                        }
                    },
                    ReceivedMessage::RoomJoin { invite_id } => {
                        self.pending = Some(Pending::Join { req_id: id });
                        let req = CoordRequest::Join {
                            id: self.session_id,
                            room_id: invite_id.0,
                        };
                        out.push(SessionOutput::RequestReply { req });
                        proof {
                            assert(out@ =~= old(out)@ + seq![
                                SessionOutput::RequestReply {
                                    req: CoordRequest::Join {
                                        id: old(self).session_id,
                                        room_id: mex->RoomJoin_invite_id.0,
                                    },
                                },
                            ]);
                        }
                    },
                    ReceivedMessage::RoomFind {  } => {
                        self.pending = Some(Pending::Find { req_id: id });
                        let req = CoordRequest::Find { id: self.session_id };
                        out.push(SessionOutput::RequestReply { req });
                        proof {
                            assert(out@ =~= old(out)@ + seq![
                                SessionOutput::RequestReply {
                                    req: CoordRequest::Find { id: old(self).session_id },
                                },
                            ]);
                        }
                    },
                    _ => {
                        self.report_error(Some(id), ErrorKind::InvalidMessageType, out);
                    },
                }
            },
            ClientState::Lobby => {
                match mex {
                    ReceivedMessage::ChangeAvatar { cosmetics } => {
                        let req = CoordRequest::EditCosmetics { id: self.session_id, cosmetics };
                        out.push(SessionOutput::Request { req });
                        proof {
                            assert(out@ =~= old(out)@ + seq![
                                SessionOutput::Request {
                                    req: CoordRequest::EditCosmetics {
                                        id: old(self).session_id,
                                        cosmetics: mex->ChangeAvatar_cosmetics,
                                    },
                                },
                            ]);
                        }
                    },
                    ReceivedMessage::RoomLeave {  } => {
                        let req = CoordRequest::Leave { id: self.session_id };
                        out.push(SessionOutput::Request { req });
                        self.state = ClientState::MatchMaking;
                        self.send_frame(FrameBody::RoomLeaveOk { request_id: id }, out);
                        proof {
                            assert(out@ =~= old(out)@ + seq![
                                SessionOutput::Request {
                                    req: CoordRequest::Leave { id: old(self).session_id },
                                },
                                SessionOutput::Frame {
                                    id: old(self).next_send_id,
                                    body: FrameBody::RoomLeaveOk { request_id: id },
                                },
                            ]);
                        }
                    },
                    ReceivedMessage::RoomStart { connection_type } => {
                        let req = CoordRequest::Start {
                            id: self.session_id,
                            conn_type: connection_type,
                        };
                        out.push(SessionOutput::Request { req });
                        proof {
                            assert(out@ =~= old(out)@ + seq![
                                SessionOutput::Request {
                                    req: CoordRequest::Start {
                                        id: old(self).session_id,
                                        conn_type: mex->RoomStart_connection_type,
                                    },
                                },
                            ]);
                        }
                    },
                    ReceivedMessage::EventRoomStartAck { .. } => {
                        self.report_error(Some(id), ErrorKind::InvalidState, out);
                    },
                    _ => {
                        self.report_error(Some(id), ErrorKind::InvalidMessageType, out);
                    },
                }
            },
            ClientState::PrePlaying(res_id) => {
                match mex {
                    ReceivedMessage::EventRoomStartAck { request_id } => {
                        if request_id == res_id {
                            self.flush_relay_queue(out);
                            self.state = ClientState::Playing;
                        } else {
                            self.report_error(Some(id), ErrorKind::InvalidRequestId, out);
                        }
                    },
                    _ => {
                        self.report_error(Some(id), ErrorKind::InvalidMessageType, out);
                    },
                }
            },
            ClientState::Playing => {},
        }
    }

    /// The session answered with one error frame and changed nothing else.
    pub open spec fn errored(
        self,
        prev: ClientWs,
        prev_out: Vec<SessionOutput>,
        out: Seq<SessionOutput>,
        origin: u64,
        kind: ErrorKind,
    ) -> bool {
        &&& self.state == prev.state
        &&& self.pending == prev.pending
        &&& self.next_send_id == prev.next_send_id + 1
        &&& self.relay_queue@ == prev.relay_queue@
        &&& out == prev_out@ + seq![
            SessionOutput::Frame {
                id: prev.next_send_id,
                body: FrameBody::ErrorFrame { origin_id: Some(origin), kind },
            },
        ]
    }

    /// Write the buffered relay payloads to the socket in arrival order and
    /// empty the buffer.
    fn flush_relay_queue(&mut self, out: &mut Vec<SessionOutput>)
        requires
            old(self).wf(),
        ensures
            final(self).wf(),
            final(self).relay_queue@.len() == 0,
            final(self).state == old(self).state,
            final(self).session_id == old(self).session_id,
            final(self).next_send_id == old(self).next_send_id,
            final(self).emitted@ == old(self).emitted@,
            final(self).last_hb_ms == old(self).last_hb_ms,
            final(self).pending == old(self).pending,
            final(out)@ == old(out)@ + raw_outputs(old(self).relay_queue@),
    {
        let ghost q0 = self.relay_queue@;
        let ghost base = old(out)@;
        let mut i: usize = 0;
        while i < self.relay_queue.len()
            invariant
                0 <= i <= q0.len(),
                self.relay_queue@ == q0,
                self.state == old(self).state,
                self.session_id == old(self).session_id,
                self.next_send_id == old(self).next_send_id,
                self.emitted@ == old(self).emitted@,
                self.last_hb_ms == old(self).last_hb_ms,
                self.pending == old(self).pending,
                out@ == base + raw_outputs(q0.take(i as int)),
            decreases q0.len() - i,
        {
            let item = self.relay_queue[i].clone();
            out.push(SessionOutput::RawText { data: item });
            proof {
                assert(out@ =~= base + raw_outputs(q0.take(i + 1 as int)));
            }
            i += 1;
        }
        self.relay_queue.clear();
        proof {
            assert(q0.take(q0.len() as int) =~= q0);
        }
    }

    /// A login reply arrived: record the assigned id, move past the pre-login
    /// gate, and confirm to the client.
    pub fn on_register_reply(&mut self, assigned: IdType, out: &mut Vec<SessionOutput>)
        requires
            old(self).wf(),
            old(self).pending matches Some(Pending::Login { .. }),
            old(self).next_send_id < u64::MAX,
        ensures
            final(self).wf(),
            final(self).state is MatchMaking,
            final(self).session_id == assigned,
            final(self).pending is None,
            final(self).next_send_id == old(self).next_send_id + 1,
            final(out)@ == old(out)@ + seq![
                SessionOutput::Frame {
                    id: old(self).next_send_id,
                    body: FrameBody::LoginOk {
                        request_id: old(self).pending->Some_0->Login_req_id,
                        player_id: SerId(assigned),
                    },
                },
            ],
    {
        let req_id = match self.pending {
            Some(Pending::Login { req_id }) => req_id,
            _ => vstd::pervasive::unreached(),
        };
        self.pending = None;
        self.session_id = assigned;
        self.state = ClientState::MatchMaking;
        self.send_frame(FrameBody::LoginOk { request_id: req_id, player_id: SerId(assigned) }, out);
    }

    /// A room-creation reply arrived: confirm with the invite id and enter
    /// the lobby.
    pub fn on_create_reply(
        &mut self,
        room_id: IdType,
        player: PlayerObject,
        out: &mut Vec<SessionOutput>,
    )
        requires
            old(self).wf(),
            old(self).pending matches Some(Pending::Create { .. }),
            old(self).next_send_id < u64::MAX,
        ensures
            final(self).wf(),
            final(self).state is Lobby,
            final(self).session_id == old(self).session_id,
            final(self).pending is None,
            final(self).next_send_id == old(self).next_send_id + 1,
            final(out)@ == old(out)@ + seq![
                SessionOutput::Frame {
                    id: old(self).next_send_id,
                    body: FrameBody::RoomCreateOk {
                        request_id: old(self).pending->Some_0->Create_req_id,
                        resp: RoomCreateResponse { players: [player], invite_id: SerId(room_id) },
                    },
                },
            ],
    {
        let req_id = match self.pending {
            Some(Pending::Create { req_id }) => req_id,
            _ => vstd::pervasive::unreached(),
        };
        self.pending = None;
        self.send_frame(
            FrameBody::RoomCreateOk {
                request_id: req_id,
                resp: RoomCreateResponse { players: [player], invite_id: SerId(room_id) },
            },
            out,
        );
        self.state = ClientState::Lobby;
    }

    /// A join reply arrived: enter the lobby on success, otherwise report the
    /// result code and stay where we are.
    pub fn on_join_reply(
        &mut self,
        res: Result<Vec<PlayerObject>, JoinError>,
        out: &mut Vec<SessionOutput>,
    )
        requires
            old(self).wf(),
            old(self).pending matches Some(Pending::Join { .. }),
            old(self).next_send_id < u64::MAX,
        ensures
            final(self).wf(),
            final(self).session_id == old(self).session_id,
            final(self).pending is None,
            final(self).next_send_id == old(self).next_send_id + 1,
            res matches Ok(players) ==> final(self).state is Lobby && final(out)@ == old(out)@
                + seq![
                SessionOutput::Frame {
                    id: old(self).next_send_id,
                    body: FrameBody::RoomJoinOk {
                        request_id: old(self).pending->Some_0->Join_req_id,
                        players,
                    },
                },
            ],
            res matches Err(code) ==> final(self).state == old(self).state && final(out)@ == old(out)@ + seq![
                SessionOutput::Frame {
                    id: old(self).next_send_id,
                    body: FrameBody::RoomJoinErr {
                        request_id: old(self).pending->Some_0->Join_req_id,
                        result: code,
                    },
                },
            ],
    {
        let req_id = match self.pending {
            Some(Pending::Join { req_id }) => req_id,
            _ => vstd::pervasive::unreached(),
        };
        self.pending = None;
        match res {
            Ok(players) => {
                self.send_frame(FrameBody::RoomJoinOk { request_id: req_id, players }, out);
                self.state = ClientState::Lobby;
            },
            Err(code) => {
                self.send_frame(FrameBody::RoomJoinErr { request_id: req_id, result: code }, out);
            },
        }
    }

    /// A matchmaking reply arrived: enter the lobby with the room's member
    /// list. The full-game variant is reserved; were it ever delivered, the
    /// session would report it and stay in matchmaking.
    pub fn on_find_reply(
        &mut self,
        res: Result<RoomFindResponse, ()>,
        out: &mut Vec<SessionOutput>,
    )
        requires
            old(self).wf(),
            old(self).pending matches Some(Pending::Find { .. }),
            old(self).next_send_id < u64::MAX,
        ensures
            final(self).wf(),
            final(self).session_id == old(self).session_id,
            final(self).pending is None,
            final(self).next_send_id == old(self).next_send_id + 1,
            res matches Ok(resp) ==> final(self).state is Lobby && final(out)@ == old(out)@
                + seq![
                SessionOutput::Frame {
                    id: old(self).next_send_id,
                    body: FrameBody::RoomFindOk {
                        request_id: old(self).pending->Some_0->Find_req_id,
                        resp,
                    },
                },
            ],
            res is Err ==> final(self).state == old(self).state && final(out)@ == old(out)@
                + seq![
                SessionOutput::Frame {
                    id: old(self).next_send_id,
                    body: FrameBody::ErrorFrame {
                        origin_id: Some(old(self).pending->Some_0->Find_req_id),
                        kind: ErrorKind::GameIsFull,
                    },
                },
            ],
    {
        let req_id = match self.pending {
            Some(Pending::Find { req_id }) => req_id,
            _ => vstd::pervasive::unreached(),
        };
        self.pending = None;
        match res {
            Ok(resp) => {
                self.send_frame(FrameBody::RoomFindOk { request_id: req_id, resp }, out);
                self.state = ClientState::Lobby;
            },
            Err(_) => {
                self.report_error(Some(req_id), ErrorKind::GameIsFull, out);
            },
        }
    }

    /// A coordinator event arrived: forward it under a fresh message id; a
    /// start event additionally parks the session before play until the
    /// client acknowledges that id.
    pub fn on_event(&mut self, event: OutEvent, out: &mut Vec<SessionOutput>)
        requires
            old(self).wf(),
            old(self).next_send_id < u64::MAX,
            !(old(self).state is PrePlaying),
            old(self).pending is None,
        ensures
            final(self).wf(),
            final(self).session_id == old(self).session_id,
            final(self).pending == old(self).pending,
            final(self).next_send_id == old(self).next_send_id + 1,
            final(self).state == (if event is EventRoomStart {
                ClientState::PrePlaying(old(self).next_send_id)
            } else {
                old(self).state
            }),
            final(out)@ == old(out)@ + seq![
                SessionOutput::Frame { id: old(self).next_send_id, body: FrameBody::Event { event } },
            ],
    {
        let is_start = matches!(event, OutEvent::EventRoomStart { .. });
        let ghost ev = event;
        let id = self.allocate_id();
        out.push(SessionOutput::Frame { id, body: FrameBody::Event { event } });
        if is_start {
            self.state = ClientState::PrePlaying(id);
        }
        proof {
            assert(out@ =~= old(out)@ + seq![
                SessionOutput::Frame { id: old(self).next_send_id, body: FrameBody::Event { event: ev } },
            ]);
        }
    }

    /// An in-game event arrived: forward it under a fresh message id.
    pub fn on_game_event(&mut self, event: OutGameEvent, out: &mut Vec<SessionOutput>)
        requires
            old(self).wf(),
            old(self).next_send_id < u64::MAX,
        ensures
            final(self).wf(),
            final(self).state == old(self).state,
            final(self).session_id == old(self).session_id,
            final(self).pending == old(self).pending,
            final(self).next_send_id == old(self).next_send_id + 1,
            final(self).relay_queue@ == old(self).relay_queue@,
            final(out)@ == old(out)@ + seq![
                SessionOutput::Frame {
                    id: old(self).next_send_id,
                    body: FrameBody::GameEvent { event },
                },
            ],
    {
        let id = self.allocate_id();
        out.push(SessionOutput::Frame { id, body: FrameBody::GameEvent { event } });
        proof {
            assert(out@ =~= old(out)@ + seq![
                SessionOutput::Frame {
                    id: old(self).next_send_id,
                    body: FrameBody::GameEvent { event },
                },
            ]);
        }
    }

    /// A raw relay payload arrived from the coordinator. Before the start
    /// acknowledgement it is buffered, and a client that lets the bounded
    /// buffer overflow is closed as unresponsive; during play it goes
    /// straight to the socket; in every other state it is dropped.
    pub fn on_relay_raw(&mut self, data: String, out: &mut Vec<SessionOutput>)
        requires
            old(self).wf(),
        ensures
            final(self).wf(),
            final(self).state == old(self).state,
            final(self).session_id == old(self).session_id,
            final(self).pending == old(self).pending,
            final(self).next_send_id == old(self).next_send_id,
            old(self).state is PrePlaying ==> {
                if old(self).relay_queue@.len() >= RELAY_QUEUE_MAX_SIZE {
                    final(self).relay_queue@ == old(self).relay_queue@ && final(out)@ == old(out)@
                        + seq![SessionOutput::Close]
                } else {
                    final(self).relay_queue@ == old(self).relay_queue@.push(data) && final(out)@
                        == old(out)@
                }
            },
            old(self).state is Playing ==> final(self).relay_queue@ == old(self).relay_queue@
                && final(out)@ == old(out)@ + seq![SessionOutput::RawText { data }],
            !(old(self).state is PrePlaying) && !(old(self).state is Playing) ==> final(self).relay_queue@ == old(self).relay_queue@ && final(out)@ == old(out)@,
    {
        match self.state {
            ClientState::PrePlaying(_) => {
                if self.relay_queue.len() >= RELAY_QUEUE_MAX_SIZE {
                    out.push(SessionOutput::Close);
                    proof {
                        assert(out@ =~= old(out)@ + seq![SessionOutput::Close]);
                    }
                } else {
                    self.relay_queue.push(data);
                }
            },
            ClientState::Playing => {
                out.push(SessionOutput::RawText { data });
                proof {
                    assert(out@ =~= old(out)@ + seq![
                        SessionOutput::RawText { data: data },
                    ]);
                }
            },
            _ => {},
        }
    }

    /// An inbound text frame during play: forward it opaquely as a relay
    /// request.
    pub fn handle_raw_text(&mut self, text: String, out: &mut Vec<SessionOutput>)
        requires
            old(self).wf(),
            old(self).state is Playing,
        ensures
            final(self).wf(),
            *final(self) == *old(self),
            final(out)@ == old(out)@ + seq![
                SessionOutput::Request {
                    req: CoordRequest::Relay { id: old(self).session_id, data: text },
                },
            ],
    {
        let req = CoordRequest::Relay { id: self.session_id, data: text };
        out.push(SessionOutput::Request { req });
        proof {
            assert(out@ =~= old(out)@ + seq![
                SessionOutput::Request {
                    req: CoordRequest::Relay { id: old(self).session_id, data: text },
                },
            ]);
        }
    }

    /// Note client activity (a ping, pong or data frame) at the given clock.
    pub fn on_client_activity(&mut self, now_ms: u64)
        requires
            old(self).wf(),
        ensures
            final(self).wf(),
            final(self).last_hb_ms == now_ms,
            final(self).state == old(self).state,
            final(self).session_id == old(self).session_id,
            final(self).pending == old(self).pending,
            final(self).next_send_id == old(self).next_send_id,
            final(self).relay_queue@ == old(self).relay_queue@,
    {
        self.last_hb_ms = now_ms;
    }

    /// The heartbeat timer fired: close the session exactly when the client
    /// has been silent longer than the timeout, otherwise ping it.
    pub fn on_hb_tick(&self, now_ms: u64) -> (r: HeartbeatAction)
        requires
            self.last_hb_ms <= now_ms,
        ensures
            r is Close <==> now_ms - self.last_hb_ms > CLIENT_TIMEOUT_MS,
    {
        if now_ms - self.last_hb_ms > CLIENT_TIMEOUT_MS {
            HeartbeatAction::Close
        } else {
            HeartbeatAction::Ping
        }
    }

    /// The session is going away: a session that got past login owes the
    /// coordinator a disconnect.
    pub fn on_close(&self) -> (r: Option<CoordRequest>)
        ensures
            self.state is PreLogin ==> r is None,
            !(self.state is PreLogin) ==> (r matches Some(req) && req == (CoordRequest::Disconnect {
                id: self.session_id,
            })),
    {
        match self.state {
            ClientState::PreLogin => None,
            _ => Some(CoordRequest::Disconnect { id: self.session_id }),
        }
    }
}

/// Outbound message ids are handed out strictly increasing by one from zero:
/// the id trail of a well-formed session is exactly the sequence of naturals
/// below its counter.
pub proof fn lemma_message_ids_sequential(s: ClientWs)
    requires
        s.wf(),
    ensures
        forall|i: int, j: int|
            0 <= i < j < s.emitted@.len() ==> s.emitted@[i] < s.emitted@[j],
        forall|i: int| 0 <= i < s.emitted@.len() ==> s.emitted@[i] == i,
{
}

} // verus!
