use matchroom::protocol::LoginData;
use matchroom::protocol::OutEvent;
use matchroom::protocol::PlayerCosmetics;
use matchroom::protocol::ReceivedMessage;
use matchroom::protocol::RoomConnectionType;
use matchroom::protocol::SerId;
use matchroom::session::ClientState;
use matchroom::session::ClientWs;
use matchroom::session::CoordRequest;
use matchroom::session::ErrorKind;
use matchroom::session::FrameBody;
use matchroom::session::HeartbeatAction;
use matchroom::session::JoinError;
use matchroom::session::SessionOutput;

fn login_msg(name: &str) -> ReceivedMessage {
    ReceivedMessage::Login {
        details: LoginData {
            username: name.to_string(),
            cosmetics: PlayerCosmetics { avatar: 0, color: 0 },
        },
    }
}

#[test]
fn message_ids_count_up_by_one_from_zero() {
    let mut s = ClientWs::new();
    assert_eq!(s.allocate_id(), 0);
    assert_eq!(s.allocate_id(), 1);
    assert_eq!(s.allocate_id(), 2);
    assert_eq!(s.next_send_id, 3);
}

#[test]
fn pre_login_accepts_only_login() {
    let mut s = ClientWs::new();
    let mut out = Vec::new();
    s.handle_message(7, ReceivedMessage::RoomFind {}, &mut out);
    assert!(matches!(s.state, ClientState::PreLogin));
    match &out[0] {
        SessionOutput::Frame {
            id: 0,
            body: FrameBody::ErrorFrame { origin_id: Some(7), kind: ErrorKind::LoginRequired },
        } => {}
        _ => panic!("a pre-login request other than login earns an error frame"),
    }
    out.clear();
    s.handle_message(8, login_msg("a"), &mut out);
    assert!(matches!(
        &out[0],
        SessionOutput::RequestReply { req: CoordRequest::Register { id: None, .. } }
    ));
    // the reply moves the session past the login gate
    s.on_register_reply(42, &mut out);
    assert!(matches!(s.state, ClientState::MatchMaking));
    assert_eq!(s.session_id, 42);
    match out.last().unwrap() {
        SessionOutput::Frame {
            body: FrameBody::LoginOk { request_id: 8, player_id },
            ..
        } => assert_eq!(*player_id, SerId(42)),
        _ => panic!("the login reply confirms with the echoed request id"),
    }
}

#[test]
fn matchmaking_gates_lobby_messages() {
    let mut s = ClientWs::new();
    let mut out = Vec::new();
    s.handle_message(0, login_msg("a"), &mut out);
    s.on_register_reply(1, &mut out);
    out.clear();
    s.handle_message(1, ReceivedMessage::RoomLeave {}, &mut out);
    assert!(matches!(
        &out[0],
        SessionOutput::Frame {
            body: FrameBody::ErrorFrame { kind: ErrorKind::InvalidMessageType, origin_id: Some(1) },
            ..
        }
    ));
    assert!(matches!(s.state, ClientState::MatchMaking));
}

#[test]
fn join_reply_codes() {
    let mut s = ClientWs::new();
    let mut out = Vec::new();
    s.handle_message(0, login_msg("a"), &mut out);
    s.on_register_reply(1, &mut out);
    s.handle_message(1, ReceivedMessage::RoomJoin { invite_id: SerId(9) }, &mut out);
    out.clear();
    s.on_join_reply(Err(JoinError::RoomNotFound), &mut out);
    assert!(matches!(s.state, ClientState::MatchMaking));
    match &out[0] {
        SessionOutput::Frame {
            body: FrameBody::RoomJoinErr { request_id: 1, result },
            ..
        } => assert_eq!(result.code(), "room_not_found"),
        _ => panic!("a failed join answers with its result code"),
    }
    assert_eq!(JoinError::RoomIsFull.code(), "room_is_full");
    assert_eq!(JoinError::AlreadyPlaying.code(), "already_playing");
}

#[test]
fn lobby_to_preplaying_to_playing() {
    let mut s = ClientWs::new();
    let mut out = Vec::new();
    s.handle_message(0, login_msg("a"), &mut out);
    s.on_register_reply(5, &mut out);
    s.handle_message(1, ReceivedMessage::RoomCreate {}, &mut out);
    s.on_create_reply(
        77,
        matchroom::protocol::PlayerObject {
            id: SerId(5),
            username: "a".to_string(),
            cosmetics: PlayerCosmetics { avatar: 0, color: 0 },
            is_host: true,
        },
        &mut out,
    );
    assert!(matches!(s.state, ClientState::Lobby));
    out.clear();
    // the start event parks the session on the id it was sent under
    s.on_event(
        OutEvent::EventRoomStart {
            connection_type: RoomConnectionType::ServerBroadcast,
            broadcast_id: "77".to_string(),
        },
        &mut out,
    );
    let ev_id = match &out[0] {
        SessionOutput::Frame { id, body: FrameBody::Event { .. } } => *id,
        _ => panic!("the start event goes out as a numbered frame"),
    };
    assert!(matches!(s.state, ClientState::PrePlaying(x) if x == ev_id));
    // a wrong acknowledgement id is refused
    out.clear();
    s.handle_message(2, ReceivedMessage::EventRoomStartAck { request_id: ev_id + 1 }, &mut out);
    assert!(matches!(
        &out[0],
        SessionOutput::Frame {
            body: FrameBody::ErrorFrame { kind: ErrorKind::InvalidRequestId, .. },
            ..
        }
    ));
    assert!(matches!(s.state, ClientState::PrePlaying(_)));
    // the right one starts play
    out.clear();
    s.handle_message(3, ReceivedMessage::EventRoomStartAck { request_id: ev_id }, &mut out);
    assert!(matches!(s.state, ClientState::Playing));
    assert!(out.is_empty());
}

#[test]
fn preplaying_buffers_and_flushes_in_order() {
    let mut s = ClientWs::new();
    let mut out = Vec::new();
    s.handle_message(0, login_msg("a"), &mut out);
    s.on_register_reply(5, &mut out);
    s.handle_message(1, ReceivedMessage::RoomCreate {}, &mut out);
    s.on_create_reply(
        77,
        matchroom::protocol::PlayerObject {
            id: SerId(5),
            username: "a".to_string(),
            cosmetics: PlayerCosmetics { avatar: 0, color: 0 },
            is_host: true,
        },
        &mut out,
    );
    out.clear();
    s.on_event(
        OutEvent::EventRoomStart {
            connection_type: RoomConnectionType::ServerBroadcast,
            broadcast_id: "77".to_string(),
        },
        &mut out,
    );
    let ev_id = match &out[0] {
        SessionOutput::Frame { id, .. } => *id,
        _ => unreachable!(),
    };
    out.clear();
    s.on_relay_raw("first".to_string(), &mut out);
    s.on_relay_raw("second".to_string(), &mut out);
    assert!(out.is_empty());
    s.handle_message(2, ReceivedMessage::EventRoomStartAck { request_id: ev_id }, &mut out);
    let texts: Vec<&str> = out
        .iter()
        .filter_map(|x| match x {
            SessionOutput::RawText { data } => Some(data.as_str()),
            _ => None,
        })
        .collect();
    assert_eq!(texts, ["first", "second"]);
    // during play, relays skip the buffer entirely
    out.clear();
    s.on_relay_raw("third".to_string(), &mut out);
    assert!(matches!(&out[0], SessionOutput::RawText { data } if data == "third"));
}

#[test]
fn preplaying_overflow_kicks_the_slow_client() {
    let mut s = ClientWs::new();
    let mut out = Vec::new();
    s.handle_message(0, login_msg("b"), &mut out);
    s.on_register_reply(6, &mut out);
    s.handle_message(1, ReceivedMessage::RoomCreate {}, &mut out);
    s.on_create_reply(
        78,
        matchroom::protocol::PlayerObject {
            id: SerId(6),
            username: "b".to_string(),
            cosmetics: PlayerCosmetics { avatar: 0, color: 0 },
            is_host: true,
        },
        &mut out,
    );
    s.on_event(
        OutEvent::EventRoomStart {
            connection_type: RoomConnectionType::ServerBroadcast,
            broadcast_id: "78".to_string(),
        },
        &mut out,
    );
    out.clear();
    for k in 0..64 {
        s.on_relay_raw(format!("m{}", k), &mut out);
    }
    assert!(out.is_empty());
    // the sixty-fifth delivery overflows the buffer and closes the session
    s.on_relay_raw("overflow".to_string(), &mut out);
    assert!(matches!(&out[0], SessionOutput::Close));
    // teardown after login owes the coordinator a disconnect
    match s.on_close() {
        Some(CoordRequest::Disconnect { id }) => assert_eq!(id, 6),
        _ => panic!("a session past login must disconnect on close"),
    }
}

#[test]
fn playing_forwards_raw_text_as_relay() {
    let mut s = ClientWs::new();
    let mut out = Vec::new();
    s.handle_message(0, login_msg("a"), &mut out);
    s.on_register_reply(5, &mut out);
    s.handle_message(1, ReceivedMessage::RoomCreate {}, &mut out);
    s.on_create_reply(
        77,
        matchroom::protocol::PlayerObject {
            id: SerId(5),
            username: "a".to_string(),
            cosmetics: PlayerCosmetics { avatar: 0, color: 0 },
            is_host: true,
        },
        &mut out,
    );
    s.on_event(
        OutEvent::EventRoomStart {
            connection_type: RoomConnectionType::ServerBroadcast,
            broadcast_id: "77".to_string(),
        },
        &mut out,
    );
    let ev_id = match s.state {
        ClientState::PrePlaying(x) => x,
        _ => unreachable!(),
    };
    s.handle_message(2, ReceivedMessage::EventRoomStartAck { request_id: ev_id }, &mut out);
    out.clear();
    s.handle_raw_text("{\"x\":1}".to_string(), &mut out);
    match &out[0] {
        SessionOutput::Request { req: CoordRequest::Relay { id, data } } => {
            assert_eq!(*id, 5);
            assert_eq!(data, "{\"x\":1}");
        }
        _ => panic!("playing text goes to the coordinator as a relay request"),
    }
}

#[test]
fn lobby_leave_confirms_and_returns_to_matchmaking() {
    let mut s = ClientWs::new();
    let mut out = Vec::new();
    s.handle_message(0, login_msg("a"), &mut out);
    s.on_register_reply(5, &mut out);
    s.handle_message(1, ReceivedMessage::RoomCreate {}, &mut out);
    s.on_create_reply(
        77,
        matchroom::protocol::PlayerObject {
            id: SerId(5),
            username: "a".to_string(),
            cosmetics: PlayerCosmetics { avatar: 0, color: 0 },
            is_host: true,
        },
        &mut out,
    );
    out.clear();
    s.handle_message(9, ReceivedMessage::RoomLeave {}, &mut out);
    assert!(matches!(s.state, ClientState::MatchMaking));
    assert!(matches!(&out[0], SessionOutput::Request { req: CoordRequest::Leave { id: 5 } }));
    assert!(matches!(
        &out[1],
        SessionOutput::Frame { body: FrameBody::RoomLeaveOk { request_id: 9 }, .. }
    ));
}

#[test]
fn lobby_ack_without_start_is_an_invalid_state() {
    let mut s = ClientWs::new();
    let mut out = Vec::new();
    s.handle_message(0, login_msg("a"), &mut out);
    s.on_register_reply(5, &mut out);
    s.handle_message(1, ReceivedMessage::RoomCreate {}, &mut out);
    s.on_create_reply(
        77,
        matchroom::protocol::PlayerObject {
            id: SerId(5),
            username: "a".to_string(),
            cosmetics: PlayerCosmetics { avatar: 0, color: 0 },
            is_host: true,
        },
        &mut out,
    );
    out.clear();
    s.handle_message(4, ReceivedMessage::EventRoomStartAck { request_id: 0 }, &mut out);
    match &out[0] {
        SessionOutput::Frame {
            body: FrameBody::ErrorFrame { kind, origin_id: Some(4) },
            ..
        } => {
            assert_eq!(kind.message(), "Invalid state");
            assert_eq!(kind.detail(), Some("No message to acknowledge"));
        }
        _ => panic!("an acknowledgement outside pre-playing is an invalid state"),
    }
}

#[test]
fn heartbeat_times_out_after_ten_seconds_of_silence() {
    let mut s = ClientWs::new();
    s.on_client_activity(1_000);
    assert_eq!(s.on_hb_tick(6_000), HeartbeatAction::Ping);
    assert_eq!(s.on_hb_tick(11_000), HeartbeatAction::Ping);
    assert_eq!(s.on_hb_tick(11_001), HeartbeatAction::Close);
    // fresh activity resets the clock
    s.on_client_activity(11_000);
    assert_eq!(s.on_hb_tick(12_000), HeartbeatAction::Ping);
}

#[test]
fn close_before_login_owes_nothing() {
    let s = ClientWs::new();
    assert!(s.on_close().is_none());
}

#[test]
fn error_frame_builders_carry_exact_fields() {
    let e = matchroom::protocol::Error::from_origin(9, "Invalid Json".to_string(), None);
    assert_eq!(e.mtype, "error");
    assert_eq!(e.origin_id, Some(9));
    assert_eq!(e.error, "Invalid Json");
    assert!(e.error_message.is_none());
    let e2 = matchroom::protocol::Error::from("Id missing".to_string(), None);
    assert_eq!(e2.origin_id, None);
    assert_eq!(e2.error, "Id missing");
    assert_eq!(ErrorKind::InvalidJson.message(), "Invalid Json");
    assert_eq!(ErrorKind::IdMissing.message(), "Id missing");
}
