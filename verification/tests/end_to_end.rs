use matchroom::codec::encode_id;
use matchroom::coordinator::Directive;
use matchroom::coordinator::JoinRoomResult;
use matchroom::coordinator::ServerActor;
use matchroom::protocol::LoginData;
use matchroom::protocol::PlayerCosmetics;
use matchroom::protocol::ReceivedMessage;
use matchroom::protocol::RoomConnectionType;
use matchroom::protocol::SerId;
use matchroom::session::ClientState;
use matchroom::session::ClientWs;
use matchroom::session::CoordRequest;
use matchroom::session::SessionOutput;

/// Deliver coordinator directives to the two sessions behind addresses 1 and
/// 2, collecting what each would write to its socket.
fn deliver(
    directives: Vec<Directive>,
    s1: &mut ClientWs,
    s2: &mut ClientWs,
    sock1: &mut Vec<String>,
    sock2: &mut Vec<String>,
) {
    for d in directives {
        let mut outputs = Vec::new();
        let (session, sock) = match &d {
            Directive::SendEvent { addr: 1, .. }
            | Directive::SendGameEvent { addr: 1, .. }
            | Directive::SendRelay { addr: 1, .. } => (&mut *s1, &mut *sock1),
            _ => (&mut *s2, &mut *sock2),
        };
        match d {
            Directive::SendEvent { event, .. } => session.on_event(event, &mut outputs),
            Directive::SendGameEvent { event, .. } => session.on_game_event(event, &mut outputs),
            Directive::SendRelay { data, .. } => session.on_relay_raw(data, &mut outputs),
            Directive::Schedule { .. } | Directive::Cancel { .. } => continue,
        }
        for o in outputs {
            match o {
                SessionOutput::RawText { data } => sock.push(data),
                SessionOutput::Frame { .. } => {}
                SessionOutput::Close => panic!("no session should close in this flow"),
                _ => {}
            }
        }
    }
}

#[test]
fn two_player_match_with_relay() {
    let mut c = ServerActor::new();
    let mut s1 = ClientWs::new();
    let mut s2 = ClientWs::new();
    let mut sock1: Vec<String> = Vec::new();
    let mut sock2: Vec<String> = Vec::new();

    // both clients log in through their sessions
    let mut outs = Vec::new();
    s1.handle_message(
        0,
        ReceivedMessage::Login {
            details: LoginData {
                username: "a".to_string(),
                cosmetics: PlayerCosmetics { avatar: 0, color: 0 },
            },
        },
        &mut outs,
    );
    let a = match outs.pop() {
        Some(SessionOutput::RequestReply { req: CoordRequest::Register { id, login } }) => {
            let assigned = c.register_session(id, 1, login);
            s1.on_register_reply(assigned, &mut Vec::new());
            assigned
        }
        _ => panic!("login must ask the coordinator"),
    };
    s2.handle_message(
        0,
        ReceivedMessage::Login {
            details: LoginData {
                username: "b".to_string(),
                cosmetics: PlayerCosmetics { avatar: 0, color: 0 },
            },
        },
        &mut outs,
    );
    let b = match outs.pop() {
        Some(SessionOutput::RequestReply { req: CoordRequest::Register { id, login } }) => {
            let assigned = c.register_session(id, 2, login);
            s2.on_register_reply(assigned, &mut Vec::new());
            assigned
        }
        _ => panic!("login must ask the coordinator"),
    };

    // a creates a private room, b joins it by invite
    let mut directives = Vec::new();
    s1.handle_message(1, ReceivedMessage::RoomCreate {}, &mut outs);
    let invite = match outs.pop() {
        Some(SessionOutput::RequestReply { req: CoordRequest::Create { id } }) => {
            let created = c.create_room(id, &mut directives);
            let room_id = created.room_id;
            s1.on_create_reply(created.room_id, created.player, &mut Vec::new());
            room_id
        }
        _ => panic!("a room creation must ask the coordinator"),
    };
    assert!(matches!(s1.state, ClientState::Lobby));
    s2.handle_message(1, ReceivedMessage::RoomJoin { invite_id: SerId(invite) }, &mut outs);
    match outs.pop() {
        Some(SessionOutput::RequestReply { req: CoordRequest::Join { id, room_id } }) => {
            match c.join_room(id, room_id, &mut directives) {
                JoinRoomResult::Success(players) => s2.on_join_reply(Ok(players), &mut Vec::new()),
                _ => panic!("the invite join must succeed"),
            }
        }
        _ => panic!("a lobby join must ask the coordinator"),
    }
    assert!(matches!(s2.state, ClientState::Lobby));
    directives.clear();

    // the host starts the room; both sessions park on their start event id
    c.start_room(a, RoomConnectionType::ServerBroadcast, &mut directives);
    deliver(directives, &mut s1, &mut s2, &mut sock1, &mut sock2);
    let ack1 = match s1.state {
        ClientState::PrePlaying(x) => x,
        _ => panic!("a must be pre-playing after the start event"),
    };
    let ack2 = match s2.state {
        ClientState::PrePlaying(x) => x,
        _ => panic!("b must be pre-playing after the start event"),
    };

    // both acknowledge with the right request id and start playing
    s1.handle_message(2, ReceivedMessage::EventRoomStartAck { request_id: ack1 }, &mut Vec::new());
    s2.handle_message(2, ReceivedMessage::EventRoomStartAck { request_id: ack2 }, &mut Vec::new());
    assert!(matches!(s1.state, ClientState::Playing));
    assert!(matches!(s2.state, ClientState::Playing));

    // a sends one opaque frame; exactly b receives it, rewritten
    let mut relay_outs = Vec::new();
    s1.handle_raw_text("{\"x\":1}".to_string(), &mut relay_outs);
    let mut directives = Vec::new();
    match relay_outs.pop() {
        Some(SessionOutput::Request { req: CoordRequest::Relay { id, data } }) => {
            c.send_relay_mex(id, &data, &mut directives);
        }
        _ => panic!("playing text is forwarded as a relay request"),
    }
    sock1.clear();
    sock2.clear();
    deliver(directives, &mut s1, &mut s2, &mut sock1, &mut sock2);
    assert!(sock1.is_empty());
    assert_eq!(sock2, vec![format!("{{\"sender\":\"{}\",\"x\":1}}", encode_id(a))]);
    let _ = b;
}
