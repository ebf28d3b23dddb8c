use matchroom::coordinator::Directive;
use matchroom::coordinator::FindRoomResult;
use matchroom::coordinator::JoinRoomResult;
use matchroom::coordinator::RoomState;
use matchroom::coordinator::ServerActor;
use matchroom::protocol::IdType;
use matchroom::protocol::LoginData;
use matchroom::protocol::OutEvent;
use matchroom::protocol::OutGameEvent;
use matchroom::protocol::PlayerCosmetics;
use matchroom::protocol::RoomConnectionType;
use matchroom::protocol::SerId;
use matchroom::codec::encode_id;

fn login(name: &str) -> LoginData {
    LoginData {
        username: name.to_string(),
        cosmetics: PlayerCosmetics { avatar: 0, color: 0 },
    }
}

fn register(c: &mut ServerActor, name: &str, addr: u64) -> IdType {
    c.register_session(None, addr, login(name))
}

fn find_ok(c: &mut ServerActor, id: IdType, out: &mut Vec<Directive>) -> (IdType, usize, bool) {
    match c.find_room(id, out) {
        FindRoomResult::Success { room_id, players, just_created } => {
            (room_id, players.len(), just_created)
        }
        FindRoomResult::GameIsFull => panic!("matchmaking never reports a full game"),
    }
}

#[test]
fn login_and_matchmake_from_empty() {
    let mut c = ServerActor::new();
    let mut out = Vec::new();
    let a = register(&mut c, "a", 1);
    assert_eq!(c.players.get(&a).unwrap().obj.username, "a");
    let (room_id, n, just_created) = find_ok(&mut c, a, &mut out);
    assert!(just_created);
    assert_eq!(n, 1);
    assert!(c.pub_rooms.contains(&room_id));
    assert!(c.pub_rooms_available.contains(&room_id));
    assert_eq!(c.players.get(&a).unwrap().room, Some(room_id));
    assert!(c.players.get(&a).unwrap().obj.is_host);
}

#[test]
fn min_player_countdown_schedules_and_cancels() {
    let mut c = ServerActor::new();
    let mut out = Vec::new();
    let a = register(&mut c, "a", 1);
    let b = register(&mut c, "b", 2);
    let d = register(&mut c, "d", 3);
    let e = register(&mut c, "e", 4);
    let (room, _, created) = find_ok(&mut c, a, &mut out);
    assert!(created);
    assert!(c.rooms.get(&room).unwrap().start_countdown_handle.is_none());
    let (r2, _, _) = find_ok(&mut c, b, &mut out);
    assert_eq!(r2, room);
    assert!(c.rooms.get(&room).unwrap().start_countdown_handle.is_none());
    out.clear();
    let (r3, n3, _) = find_ok(&mut c, d, &mut out);
    assert_eq!(r3, room);
    assert_eq!(n3, 3);
    // the third member arms the countdown and asks the runtime to schedule it
    let handle = c.rooms.get(&room).unwrap().start_countdown_handle;
    assert!(handle.is_some());
    assert!(out.iter().any(|x| matches!(x, Directive::Schedule { .. })));
    // a fourth member leaves the countdown armed
    let (r4, _, _) = find_ok(&mut c, e, &mut out);
    assert_eq!(r4, room);
    assert_eq!(c.rooms.get(&room).unwrap().start_countdown_handle, handle);
    // one leave keeps the room at the minimum: still armed
    out.clear();
    c.leave_room(a, &mut out);
    assert_eq!(c.rooms.get(&room).unwrap().players.len(), 3);
    assert_eq!(c.rooms.get(&room).unwrap().start_countdown_handle, handle);
    assert!(!out.iter().any(|x| matches!(x, Directive::Cancel { .. })));
    // dropping below the minimum cancels the countdown
    out.clear();
    c.leave_room(b, &mut out);
    assert_eq!(c.rooms.get(&room).unwrap().players.len(), 2);
    assert!(c.rooms.get(&room).unwrap().start_countdown_handle.is_none());
    let h = handle.unwrap();
    assert!(out
        .iter()
        .any(|x| matches!(x, Directive::Cancel { handle } if *handle == h)));
}

#[test]
fn private_room_flow() {
    let mut c = ServerActor::new();
    let mut out = Vec::new();
    let a = register(&mut c, "a", 10);
    let b = register(&mut c, "b", 20);
    let created = c.create_room(a, &mut out);
    assert_eq!(created.player.id, SerId(a));
    assert!(created.player.is_host);
    // private rooms never enter the public pool
    assert!(!c.pub_rooms.contains(&created.room_id));
    out.clear();
    let res = c.join_room(b, created.room_id, &mut out);
    match res {
        JoinRoomResult::Success(players) => {
            assert_eq!(players.len(), 2);
            assert_eq!(players[0].id, SerId(a));
            assert_eq!(players[1].id, SerId(b));
        }
        _ => panic!("join by invite must succeed"),
    }
    // the join is broadcast to the whole room, the host included
    let mut joined_to = Vec::new();
    for d in &out {
        if let Directive::SendEvent { addr, event: OutEvent::EventPlayerJoined { player } } = d {
            assert_eq!(player.id, SerId(b));
            joined_to.push(*addr);
        }
    }
    assert!(joined_to.contains(&10));
    assert!(joined_to.contains(&20));
}

#[test]
fn join_error_variants() {
    let mut c = ServerActor::new();
    let mut out = Vec::new();
    let a = register(&mut c, "a", 1);
    assert!(matches!(
        c.join_room(a, 12345, &mut out),
        JoinRoomResult::RoomNotFound
    ));
    // fill a public room to its limit of eight
    let host = register(&mut c, "host", 2);
    let (room, _, _) = find_ok(&mut c, host, &mut out);
    for k in 0..7u64 {
        let p = register(&mut c, "p", 100 + k);
        assert!(matches!(c.join_room(p, room, &mut out), JoinRoomResult::Success(_)));
    }
    assert_eq!(c.rooms.get(&room).unwrap().players.len(), 8);
    let late = register(&mut c, "late", 999);
    assert!(matches!(c.join_room(late, room, &mut out), JoinRoomResult::RoomIsFull));
    // a full room has left the available pool
    assert!(!c.pub_rooms_available.contains(&room));
    // a started room answers AlreadyPlaying
    let mut c2 = ServerActor::new();
    let a2 = register(&mut c2, "a", 1);
    let b2 = register(&mut c2, "b", 2);
    let created = c2.create_room(a2, &mut out);
    assert!(matches!(c2.join_room(b2, created.room_id, &mut out), JoinRoomResult::Success(_)));
    c2.start_room(a2, RoomConnectionType::ServerBroadcast, &mut out);
    let b3 = register(&mut c2, "c", 3);
    assert!(matches!(
        c2.join_room(b3, created.room_id, &mut out),
        JoinRoomResult::AlreadyPlaying
    ));
}

#[test]
fn start_gates_and_in_game_fan_out() {
    let mut c = ServerActor::new();
    let mut out = Vec::new();
    let a = register(&mut c, "a", 10);
    let b = register(&mut c, "b", 20);
    let created = c.create_room(a, &mut out);
    let room = created.room_id;
    assert!(matches!(c.join_room(b, room, &mut out), JoinRoomResult::Success(_)));
    out.clear();
    c.start_room(a, RoomConnectionType::ServerBroadcast, &mut out);
    let rd = c.rooms.get(&room).unwrap();
    assert!(matches!(rd.state, RoomState::Playing));
    assert_eq!(rd.in_game_count, 2);
    assert!(c.players.get(&a).unwrap().in_game);
    assert!(c.players.get(&b).unwrap().in_game);
    // both members got the start event with the room id in decimal
    let mut started_to = Vec::new();
    for d in &out {
        if let Directive::SendEvent {
            addr,
            event: OutEvent::EventRoomStart { broadcast_id, .. },
        } = d
        {
            assert_eq!(*broadcast_id, format!("{}", room));
            started_to.push(*addr);
        }
    }
    assert_eq!(started_to.len(), 2);
    assert!(started_to.contains(&10) && started_to.contains(&20));
    // a relay from a goes exactly to b, rewritten to name the sender
    out.clear();
    c.send_relay_mex(a, "{\"x\":1}", &mut out);
    assert_eq!(out.len(), 1);
    match &out[0] {
        Directive::SendRelay { addr, data } => {
            assert_eq!(*addr, 20);
            assert_eq!(*data, format!("{{\"sender\":\"{}\",\"x\":1}}", encode_id(a)));
        }
        _ => panic!("expected exactly one relay delivery"),
    }
    // an empty payload is dropped
    out.clear();
    c.send_relay_mex(a, "", &mut out);
    assert!(out.is_empty());
}

#[test]
fn start_requires_two_players() {
    let mut c = ServerActor::new();
    let mut out = Vec::new();
    let a = register(&mut c, "a", 1);
    let created = c.create_room(a, &mut out);
    out.clear();
    c.start_room(a, RoomConnectionType::ServerBroadcast, &mut out);
    assert!(matches!(
        c.rooms.get(&created.room_id).unwrap().state,
        RoomState::Matchmaking
    ));
    assert!(out.is_empty());
}

#[test]
fn leave_during_game_promotes_and_uses_in_game_event() {
    let mut c = ServerActor::new();
    let mut out = Vec::new();
    let a = register(&mut c, "a", 10);
    let b = register(&mut c, "b", 20);
    let created = c.create_room(a, &mut out);
    let room = created.room_id;
    assert!(matches!(c.join_room(b, room, &mut out), JoinRoomResult::Success(_)));
    c.start_room(a, RoomConnectionType::ServerBroadcast, &mut out);
    out.clear();
    // b disconnects mid-game: a, in-game, gets the in-game variant with no
    // new host, since a already was the host
    c.disconnect(b, &mut out);
    assert!(c.players.get(&b).is_none());
    let mut got_in_game_event = false;
    for d in &out {
        match d {
            Directive::SendGameEvent {
                addr,
                event: OutGameEvent::PlayerLeft { player, new_host },
            } => {
                assert_eq!(*addr, 10);
                assert_eq!(*player, SerId(b));
                assert!(new_host.is_none());
                got_in_game_event = true;
            }
            Directive::SendEvent { event: OutEvent::EventPlayerLeft { .. }, .. } => {
                panic!("an in-game recipient must get the in-game variant");
            }
            _ => {}
        }
    }
    assert!(got_in_game_event);
    assert_eq!(c.rooms.get(&room).unwrap().in_game_count, 1);
}

#[test]
fn leave_twice_is_idempotent() {
    let mut c = ServerActor::new();
    let mut out = Vec::new();
    let a = register(&mut c, "a", 1);
    let b = register(&mut c, "b", 2);
    let created = c.create_room(a, &mut out);
    assert!(matches!(c.join_room(b, created.room_id, &mut out), JoinRoomResult::Success(_)));
    c.leave_room(a, &mut out);
    assert_eq!(c.players.get(&a).unwrap().room, None);
    let rooms_before = c.rooms.len();
    out.clear();
    // the second leave changes nothing and says nothing
    c.leave_room(a, &mut out);
    assert!(out.is_empty());
    assert_eq!(c.rooms.len(), rooms_before);
    assert_eq!(c.players.get(&a).unwrap().room, None);
}

#[test]
fn find_then_leave_leaves_no_residue() {
    let mut c = ServerActor::new();
    let mut out = Vec::new();
    let a = register(&mut c, "a", 1);
    let (_room, _, created) = find_ok(&mut c, a, &mut out);
    assert!(created);
    c.leave_room(a, &mut out);
    assert!(c.rooms.is_empty());
    assert!(c.pub_rooms.is_empty());
    assert!(c.pub_rooms_available.is_empty());
    assert_eq!(c.players.get(&a).unwrap().room, None);
}

#[test]
fn all_disconnected_empties_registries() {
    let mut c = ServerActor::new();
    let mut out = Vec::new();
    let a = register(&mut c, "a", 1);
    let b = register(&mut c, "b", 2);
    let d = register(&mut c, "d", 3);
    let (_room, _, _) = find_ok(&mut c, a, &mut out);
    let (_r2, _, _) = find_ok(&mut c, b, &mut out);
    let created = c.create_room(d, &mut out);
    assert!(!c.rooms.is_empty());
    let _ = created;
    c.disconnect(a, &mut out);
    c.disconnect(b, &mut out);
    c.disconnect(d, &mut out);
    assert!(c.players.is_empty());
    assert!(c.rooms.is_empty());
    assert!(c.pub_rooms.is_empty());
    assert!(c.pub_rooms_available.is_empty());
}

#[test]
fn relogin_updates_only_roomless_players() {
    let mut c = ServerActor::new();
    let mut out = Vec::new();
    let a = register(&mut c, "a", 1);
    let r = c.register_session(
        Some(a),
        1,
        LoginData {
            username: "anna".to_string(),
            cosmetics: PlayerCosmetics { avatar: 3, color: 9 },
        },
    );
    assert_eq!(r, a);
    assert_eq!(c.players.get(&a).unwrap().obj.username, "anna");
    assert_eq!(c.players.get(&a).unwrap().obj.cosmetics, PlayerCosmetics { avatar: 3, color: 9 });
    // once in a room, a re-login no longer overwrites the profile
    let _ = c.create_room(a, &mut out);
    let r2 = c.register_session(Some(a), 1, login("other"));
    assert_eq!(r2, a);
    assert_eq!(c.players.get(&a).unwrap().obj.username, "anna");
}

#[test]
fn edit_cosmetics_no_op_and_broadcast() {
    let mut c = ServerActor::new();
    let mut out = Vec::new();
    let a = register(&mut c, "a", 10);
    let b = register(&mut c, "b", 20);
    let created = c.create_room(a, &mut out);
    assert!(matches!(c.join_room(b, created.room_id, &mut out), JoinRoomResult::Success(_)));
    out.clear();
    // unchanged cosmetics: nothing happens
    c.edit_cosmetics(a, PlayerCosmetics { avatar: 0, color: 0 }, &mut out);
    assert!(out.is_empty());
    // a change is stored and told to the other member only
    c.edit_cosmetics(a, PlayerCosmetics { avatar: 5, color: 7 }, &mut out);
    assert_eq!(
        c.players.get(&a).unwrap().obj.cosmetics,
        PlayerCosmetics { avatar: 5, color: 7 }
    );
    assert_eq!(out.len(), 1);
    match &out[0] {
        Directive::SendEvent {
            addr,
            event: OutEvent::EventPlayerAvatarChange { player, cosmetics },
        } => {
            assert_eq!(*addr, 20);
            assert_eq!(*player, SerId(a));
            assert_eq!(*cosmetics, PlayerCosmetics { avatar: 5, color: 7 });
        }
        _ => panic!("expected one avatar-change event for the other member"),
    }
}

#[test]
fn game_end_returns_room_to_matchmaking() {
    let mut c = ServerActor::new();
    let mut out = Vec::new();
    let a = register(&mut c, "a", 10);
    let b = register(&mut c, "b", 20);
    let created = c.create_room(a, &mut out);
    let room = created.room_id;
    assert!(matches!(c.join_room(b, room, &mut out), JoinRoomResult::Success(_)));
    // before the game starts there is nothing to end
    assert!(c.game_end_request(a).is_none());
    c.start_room(a, RoomConnectionType::ServerBroadcast, &mut out);
    let ack = c.game_end_request(a).expect("the first report ends the game");
    assert_eq!(ack.0.len(), 2);
    assert!(matches!(c.rooms.get(&room).unwrap().state, RoomState::Matchmaking));
    assert!(!c.players.get(&a).unwrap().in_game);
    assert_eq!(c.rooms.get(&room).unwrap().in_game_count, 1);
    // a second report by the same player finds it no longer in-game
    assert!(c.game_end_request(a).is_none());
}

#[test]
fn find_room_join_broadcasts_like_explicit_join() {
    let mut c = ServerActor::new();
    let mut out = Vec::new();
    let a = register(&mut c, "a", 10);
    let b = register(&mut c, "b", 20);
    let (room, _, created) = find_ok(&mut c, a, &mut out);
    assert!(created);
    out.clear();
    // the second seeker lands in the same public room, and the join event
    // reaches the sitting member and the joiner alike
    let (r2, n2, created2) = find_ok(&mut c, b, &mut out);
    assert_eq!(r2, room);
    assert_eq!(n2, 2);
    assert!(!created2);
    let mut joined_to = Vec::new();
    for d in &out {
        if let Directive::SendEvent { addr, event: OutEvent::EventPlayerJoined { player } } = d {
            assert_eq!(player.id, SerId(b));
            joined_to.push(*addr);
        }
    }
    assert!(joined_to.contains(&10));
    assert!(joined_to.contains(&20));
}

#[test]
fn countdown_schedule_carries_delay_and_fires_the_start() {
    let mut c = ServerActor::new();
    let mut out = Vec::new();
    let a = register(&mut c, "a", 1);
    let b = register(&mut c, "b", 2);
    let d = register(&mut c, "d", 3);
    let (room, _, _) = find_ok(&mut c, a, &mut out);
    let _ = find_ok(&mut c, b, &mut out);
    out.clear();
    let _ = find_ok(&mut c, d, &mut out);
    let scheduled_player = out
        .iter()
        .find_map(|x| match x {
            Directive::Schedule { player_id, delay_secs, .. } => {
                assert_eq!(*delay_secs, 30);
                Some(*player_id)
            }
            _ => None,
        })
        .expect("the third member schedules the countdown");
    // the runtime fires the countdown: the room starts for everyone
    out.clear();
    c.start_room(scheduled_player, RoomConnectionType::ServerBroadcast, &mut out);
    assert!(matches!(c.rooms.get(&room).unwrap().state, RoomState::Playing));
    assert_eq!(c.rooms.get(&room).unwrap().in_game_count, 3);
    assert!(!c.pub_rooms_available.contains(&room));
    assert!(c.pub_rooms.contains(&room));
}

#[test]
fn restart_sweeps_out_stragglers_from_the_last_game() {
    let mut c = ServerActor::new();
    let mut out = Vec::new();
    let a = register(&mut c, "a", 10);
    let b = register(&mut c, "b", 20);
    let d = register(&mut c, "d", 30);
    let created = c.create_room(a, &mut out);
    let room = created.room_id;
    assert!(matches!(c.join_room(b, room, &mut out), JoinRoomResult::Success(_)));
    assert!(matches!(c.join_room(d, room, &mut out), JoinRoomResult::Success(_)));
    c.start_room(a, RoomConnectionType::ServerBroadcast, &mut out);
    assert_eq!(c.rooms.get(&room).unwrap().in_game_count, 3);
    // a reports its game over; b and d linger in-game
    assert!(c.game_end_request(a).is_some());
    assert_eq!(c.rooms.get(&room).unwrap().in_game_count, 2);
    out.clear();
    // restarting the room kicks the stragglers and starts with the rest
    c.start_room(a, RoomConnectionType::ServerBroadcast, &mut out);
    let rd = c.rooms.get(&room).unwrap();
    assert!(matches!(rd.state, RoomState::Playing));
    assert_eq!(rd.players.len(), 1);
    assert_eq!(rd.players[0], a);
    assert_eq!(rd.in_game_count, 1);
    assert!(c.players.get(&a).unwrap().in_game);
    for p in [b, d] {
        let u = c.players.get(&p).unwrap();
        assert_eq!(u.room, None);
        assert!(!u.in_game);
        assert!(!u.obj.is_host);
    }
    // the start event went only to the surviving member
    let mut started_to = Vec::new();
    for dd in &out {
        if let Directive::SendEvent { addr, event: OutEvent::EventRoomStart { .. } } = dd {
            started_to.push(*addr);
        }
    }
    assert_eq!(started_to, vec![10]);
}
