use vstd::prelude::*;
use std::collections::HashMap;

use crate::codec::dec_chars_of;
use crate::codec::u64_to_dec;
use crate::protocol::IdType;
use crate::protocol::LoginData;
use crate::protocol::OutEvent;
use crate::protocol::OutGameEvent;
use crate::protocol::PlayerCosmetics;
use crate::protocol::PlayerObject;
use crate::protocol::RoomConnectionType;
use crate::protocol::SerId;
use crate::MAX_PLAYERS_PER_ROOM;
use crate::MIN_PLAYERS_PER_ROOM;
use crate::ROOM_COUNTDOWN_ON_MIN_PLAYERS;

verus! {

broadcast use vstd::std_specs::hash::group_hash_axioms;

/// One registered player as the coordinator sees it: the public object, a
/// back-reference to its room, the in-game flag, and the opaque token under
/// which the runtime reaches the owning session's mailbox.
pub struct UserData {
    pub addr: u64,
    pub obj: PlayerObject,
    pub room: Option<IdType>,
    pub in_game: bool,
}

impl Clone for UserData {
    fn clone(&self) -> (r: Self)
        ensures
            r == *self,
    {
        UserData {
            addr: self.addr,
            obj: self.obj.clone(),
            room: self.room,
            in_game: self.in_game,
        }
    }
}

/// Lifecycle state of a room.
#[derive(Clone, Copy, Debug, PartialEq, Eq, Structural)]
pub enum RoomState {
    Matchmaking,
    Playing,
}

/// One room: lifecycle state, its members, how many of them are in-game, and
/// the token of the pending start countdown, if one is armed.
pub struct RoomData {
    pub state: RoomState,
    pub players: Vec<IdType>,
    pub in_game_count: u32,
    pub start_countdown_handle: Option<u64>,
}

/// An effect the coordinator asks the runtime to perform: deliver an event or
/// relay payload to a session's mailbox, arm a start countdown, or cancel one.
pub enum Directive {
    /// Push a lobby event to the session mailbox behind `addr`.
    SendEvent { addr: u64, event: OutEvent },
    /// Push an in-game event to the session mailbox behind `addr`.
    SendGameEvent { addr: u64, event: OutGameEvent },
    /// Push a raw relay payload to the session mailbox behind `addr`.
    SendRelay { addr: u64, data: String },
    /// After `delay_secs`, unless cancelled, feed `StartRoom` for `player_id`
    /// back into the coordinator.
    Schedule { handle: u64, player_id: IdType, delay_secs: u64 },
    /// Cancel the countdown previously armed under `handle`.
    Cancel { handle: u64 },
}

/// Reply to public matchmaking. The full variant is reserved: matchmaking
/// always finds or creates a room.
pub enum FindRoomResult {
    Success { room_id: IdType, players: Vec<PlayerObject>, just_created: bool },
    GameIsFull,
}

/// Reply to private room creation.
pub struct CreateRoomResult {
    pub room_id: IdType,
    pub player: PlayerObject,
}

/// Reply to joining a room by id.
pub enum JoinRoomResult {
    Success(Vec<PlayerObject>),
    RoomNotFound,
    RoomIsFull,
    AlreadyPlaying,
}

/// Reply to a player's end-of-game report: the room's member list.
pub struct GameEndAck(pub Vec<PlayerObject>);

/// Whether `m` is a key of `players` whose record satisfies `p`.
pub open spec fn member_counted(
    players: Map<IdType, UserData>,
    m: IdType,
    p: spec_fn(UserData) -> bool,
) -> nat {
    if players.contains_key(m) && p(players[m]) {
        1nat
    } else {
        0nat
    }
}

/// Number of entries of `members` whose player record satisfies `p`.
pub open spec fn count_members(
    members: Seq<IdType>,
    players: Map<IdType, UserData>,
    p: spec_fn(UserData) -> bool,
) -> nat
    decreases members.len(),
{
    if members.len() == 0 {
        0nat
    } else {
        count_members(members.drop_last(), players, p) + member_counted(
            players,
            members.last(),
            p,
        )
    }
}

/// Number of members whose record is marked in-game.
pub open spec fn in_game_count_of(members: Seq<IdType>, players: Map<IdType, UserData>) -> nat {
    count_members(members, players, |u: UserData| u.in_game)
}

/// Number of members whose record is marked host.
pub open spec fn host_count_of(members: Seq<IdType>, players: Map<IdType, UserData>) -> nat {
    count_members(members, players, |u: UserData| u.obj.is_host)
}

/// Two player maps whose records the predicate cannot tell apart on any
/// member give the same count.
pub proof fn lemma_count_agree(
    members: Seq<IdType>,
    m1: Map<IdType, UserData>,
    m2: Map<IdType, UserData>,
    p: spec_fn(UserData) -> bool,
)
    requires
        forall|i: int|
            0 <= i < members.len() ==> {
                let k = #[trigger] members[i];
                m1.contains_key(k) == m2.contains_key(k) && (m1.contains_key(k) ==> p(m1[k]) == p(
                    m2[k],
                ))
            },
    ensures
        count_members(members, m1, p) == count_members(members, m2, p),
    decreases members.len(),
{
    if members.len() > 0 {
        assert(members.last() == members[members.len() - 1]);
        assert(forall|i: int| 0 <= i < members.len() - 1 ==> members.drop_last()[i] == members[i]);
        lemma_count_agree(members.drop_last(), m1, m2, p);
    }
}

/// Updating the record of one member changes the count by the difference the
/// predicate sees at that member.
pub proof fn lemma_count_update_member(
    members: Seq<IdType>,
    players: Map<IdType, UserData>,
    k: IdType,
    v: UserData,
    p: spec_fn(UserData) -> bool,
)
    requires
        members.no_duplicates(),
        members.contains(k),
    ensures
        count_members(members, players.insert(k, v), p) + member_counted(players, k, p)
            == count_members(members, players, p) + (if p(v) {
            1nat
        } else {
            0nat
        }),
    decreases members.len(),
{
    let m2 = players.insert(k, v);
    if members.len() > 0 {
        let rest = members.drop_last();
        if members.last() == k {
            assert(!rest.contains(k)) by {
                if rest.contains(k) {
                    let i = choose|i: int| 0 <= i < rest.len() && rest[i] == k;
                    assert(members[i] == k);
                }
            }
            lemma_count_agree(rest, players, m2, p);
        } else {
            assert(rest.contains(k)) by {
                let i = choose|i: int| 0 <= i < members.len() && members[i] == k;
                assert(0 <= i < members.len() - 1);
                assert(rest[i] == k);
            }
            lemma_count_update_member(rest, players, k, v, p);
        }
    }
}

/// Removing one member from the list removes exactly its own contribution.
pub proof fn lemma_count_remove_value(
    members: Seq<IdType>,
    players: Map<IdType, UserData>,
    k: IdType,
    p: spec_fn(UserData) -> bool,
)
    requires
        members.no_duplicates(),
        members.contains(k),
    ensures
        count_members(members.remove_value(k), players, p) + member_counted(players, k, p)
            == count_members(members, players, p),
    decreases members.len(),
{
    let i = members.index_of(k);
    members.index_of_first_ensures(k);
    let removed = members.remove_value(k);
    if i == members.len() - 1 {
        assert(removed =~= members.drop_last());
    } else {
        assert(members.len() >= 2);
        let rest = members.drop_last();
        assert(rest.contains(k)) by {
            assert(rest[i] == k);
        }
        lemma_count_remove_value(rest, players, k, p);
        assert(removed =~= rest.remove_value(k).push(members.last())) by {
            rest.index_of_first_ensures(k);
            assert(rest.remove_value(k) =~= rest.remove(rest.index_of(k)));
            assert(rest.index_of(k) == i) by {
                if rest.index_of(k) < i {
                    assert(members[rest.index_of(k)] == k);
                }
            }
            assert forall|j: int| 0 <= j < removed.len() implies removed[j] == rest.remove_value(
                k,
            ).push(members.last())[j] by {}
        }
        assert(removed.drop_last() =~= rest.remove_value(k));
        assert(removed.last() == members.last());
    }
}

/// Appending one member adds exactly its own contribution.
pub proof fn lemma_count_push(
    members: Seq<IdType>,
    players: Map<IdType, UserData>,
    k: IdType,
    p: spec_fn(UserData) -> bool,
)
    ensures
        count_members(members.push(k), players, p) == count_members(members, players, p)
            + member_counted(players, k, p),
{
    assert(members.push(k).drop_last() =~= members);
    assert(members.push(k).last() == k);
}

/// When every member satisfies the predicate the count is the whole length.
pub proof fn lemma_count_all(
    members: Seq<IdType>,
    players: Map<IdType, UserData>,
    p: spec_fn(UserData) -> bool,
)
    requires
        forall|i: int|
            0 <= i < members.len() ==> players.contains_key(#[trigger] members[i]) && p(
                players[members[i]],
            ),
    ensures
        count_members(members, players, p) == members.len(),
    decreases members.len(),
{
    if members.len() > 0 {
        assert(forall|i: int| 0 <= i < members.len() - 1 ==> members.drop_last()[i] == members[i]);
        lemma_count_all(members.drop_last(), players, p);
        assert(members.last() == members[members.len() - 1]);
    }
}

/// Well-formedness of one room against the player registry: members are
/// living players pointing back at the room, the in-game counter matches the
/// members, exactly one member is host, and a countdown is armed only in a
/// matchmaking room holding at least the minimum and less than the maximum
/// number of players.
pub open spec fn room_wf(rid: IdType, r: RoomData, players: Map<IdType, UserData>) -> bool {
    &&& r.players@.no_duplicates()
    &&& r.players@.len() >= 1
    &&& r.players@.len() <= MAX_PLAYERS_PER_ROOM
    &&& forall|i: int|
        0 <= i < r.players@.len() ==> players.contains_key(#[trigger] r.players@[i])
            && players[r.players@[i]].room == Some(rid)
    &&& r.in_game_count == in_game_count_of(r.players@, players)
    &&& host_count_of(r.players@, players) == 1
    &&& r.start_countdown_handle is Some ==> r.state == RoomState::Matchmaking
        && MIN_PLAYERS_PER_ROOM <= r.players@.len() < MAX_PLAYERS_PER_ROOM
}

/// Well-formedness of one player record: the public object carries the
/// registry key, the room back-reference is live, and a roomless player is
/// neither host nor in-game.
pub open spec fn player_wf(pid: IdType, u: UserData, rooms: Map<IdType, RoomData>) -> bool {
    &&& u.obj.id == SerId(pid)
    &&& u.room matches Some(rid) ==> rooms.contains_key(rid) && rooms[rid].players@.contains(pid)
    &&& u.room is None ==> !u.obj.is_host && !u.in_game
}

/// The single-writer coordinator: the player registry, the room registry, and
/// the two indices over the public matchmaking pool.
pub struct ServerActor {
    pub players: HashMap<IdType, UserData>,
    pub rooms: HashMap<IdType, RoomData>,
    pub pub_rooms: Vec<IdType>,
    pub pub_rooms_available: Vec<IdType>,
    pub next_handle: u64,
}

impl ServerActor {
    /// The registry invariants: every contract of the coordinator preserves
    /// this predicate.
    pub open spec fn wf(self) -> bool {
        &&& forall|pid: IdType|
            self.players@.contains_key(pid) ==> player_wf(
                pid,
                #[trigger] self.players@[pid],
                self.rooms@,
            )
        &&& forall|rid: IdType|
            self.rooms@.contains_key(rid) ==> room_wf(
                rid,
                #[trigger] self.rooms@[rid],
                self.players@,
            )
        &&& self.pub_rooms@.no_duplicates()
        &&& self.pub_rooms_available@.no_duplicates()
        &&& forall|rid: IdType|
            #[trigger] self.pub_rooms_available@.contains(rid) ==> self.pub_rooms@.contains(rid)
        &&& forall|rid: IdType|
            #[trigger] self.pub_rooms@.contains(rid) ==> self.rooms@.contains_key(rid)
        &&& forall|rid: IdType|
            #[trigger] self.pub_rooms@.contains(rid) ==> (self.pub_rooms_available@.contains(rid)
                <==> self.rooms@[rid].state == RoomState::Matchmaking
                && self.rooms@[rid].players@.len() < MAX_PLAYERS_PER_ROOM)
    }

    /// A coordinator with empty registries.
    pub fn new() -> (r: ServerActor)
        ensures
            r.wf(),
            r.players@ == Map::<IdType, UserData>::empty(),
            r.rooms@ == Map::<IdType, RoomData>::empty(),
            r.pub_rooms@ == Seq::<IdType>::empty(),
            r.pub_rooms_available@ == Seq::<IdType>::empty(),
    {
        let r = ServerActor {
            players: HashMap::new(),
            rooms: HashMap::new(),
            pub_rooms: Vec::new(),
            pub_rooms_available: Vec::new(),
            next_handle: 0,
        };
        proof {
            assert(r.pub_rooms@ =~= Seq::<IdType>::empty());
            assert(r.pub_rooms_available@ =~= Seq::<IdType>::empty());
        }
        r
    }

    /// Register a new session, or re-login an existing one. With an id the
    /// player must already be registered; name and cosmetics are overwritten
    /// only while the player is roomless, and the same id is returned. With
    /// no id a fresh id is allocated against the registry and a new roomless
    /// record is inserted.
    pub fn register_session(&mut self, id: Option<IdType>, addr: u64, obj: LoginData) -> (r:
        IdType)
        requires
            old(self).wf(),
            id matches Some(i) ==> old(self).players@.contains_key(i),
        ensures
            final(self).wf(),
            final(self).rooms@ == old(self).rooms@,
            final(self).pub_rooms@ == old(self).pub_rooms@,
            final(self).pub_rooms_available@ == old(self).pub_rooms_available@,
            final(self).next_handle == old(self).next_handle,
            id matches Some(i) ==> {
                &&& r == i
                &&& old(self).players@[i].room is Some ==> final(self).players@ == old(self).players@
                &&& old(self).players@[i].room is None ==> final(self).players@ == old(self).players@.insert(
                    i,
                    UserData {
                        addr: old(self).players@[i].addr,
                        obj: PlayerObject {
                            id: old(self).players@[i].obj.id,
                            username: obj.username,
                            cosmetics: obj.cosmetics,
                            is_host: old(self).players@[i].obj.is_host,
                        },
                        room: None,
                        in_game: old(self).players@[i].in_game,
                    },
                )
            },
            id is None ==> !old(self).players@.contains_key(r) && final(self).players@ == old(self).players@.insert(
                r,
                UserData {
                    addr,
                    obj: PlayerObject {
                        id: SerId(r),
                        username: obj.username,
                        cosmetics: obj.cosmetics,
                        is_host: false,
                    },
                    room: None,
                    in_game: false,
                },
            ),
    {
        let ghost old_players = old(self).players@;
        match id {
            Some(i) => {
                let mut u = self.players.remove(&i).unwrap();
                match u.room {
                    Some(_) => {
                        self.players.insert(i, u);
                        proof {
                            assert(self.players@ =~= old_players);
                        }
                    },
                    None => {
                        u.obj.username = obj.username;
                        u.obj.cosmetics = obj.cosmetics;
                        self.players.insert(i, u);
                        proof {
                            self.lemma_wf_after_roomless_update(*old(self), i);
                        }
                    },
                }
                i
            },
            None => {
                let fresh = alloc_fresh_id(&self.players);
                let record = UserData {
                    addr,
                    obj: PlayerObject {
                        id: SerId(fresh),
                        username: obj.username,
                        cosmetics: obj.cosmetics,
                        is_host: false,
                    },
                    room: None,
                    in_game: false,
                };
                self.players.insert(fresh, record);
                proof {
                    self.lemma_wf_after_roomless_update(*old(self), fresh);
                }
                fresh
            },
        }
    }

    /// Remove a player from its current room, if it has one: cancel the
    /// countdown when the membership drops below the minimum, restore public
    /// availability, promote a new host when the host left, broadcast the
    /// departure to the remaining members, and drop the room once empty.
    /// A player with no room is left untouched, so a second leave in a row
    /// changes nothing.
    #[verifier::rlimit(100)]
    pub fn leave_room(&mut self, pid: IdType, out: &mut Vec<Directive>)
        requires
            old(self).wf(),
        ensures
            final(self).wf(),
            (!old(self).players@.contains_key(pid) || old(self).players@[pid].room is None) ==> (
            st_eq(*final(self), *old(self)) && final(out)@ == old(out)@),
            final(self).players@.dom() == old(self).players@.dom(),
            final(self).next_handle == old(self).next_handle,
            forall|q: IdType|
                #[trigger] final(self).players@.contains_key(q) ==> {
                    let o = old(self).players@[q];
                    let n = final(self).players@[q];
                    n.addr == o.addr && n.obj.id == o.obj.id && n.obj.username == o.obj.username
                        && n.obj.cosmetics == o.obj.cosmetics && (q != pid ==> n.room == o.room
                        && n.in_game == o.in_game)
                },
            old(self).players@.contains_key(pid) ==> final(self).players@[pid].room is None && !final(self).players@[pid].obj.is_host && !final(self).players@[pid].in_game,
            forall|r: IdType|
                #[trigger] final(self).rooms@.contains_key(r) ==> old(self).rooms@.contains_key(r),
            forall|r: IdType|
                #[trigger] final(self).rooms@.contains_key(r) ==> !final(self).rooms@[r].players@.contains(pid),
            forall|r: IdType|
                #[trigger] old(self).rooms@.contains_key(r) && !(old(self).players@.contains_key(
                    pid,
                ) && old(self).players@[pid].room == Some(r)) ==> final(self).rooms@.contains_key(r)
                    && final(self).rooms@[r] == old(self).rooms@[r],
            old(self).players@.contains_key(pid) ==> (old(self).players@[pid].room matches Some(
                rid,
            ) ==> {
                let oroom = old(self).rooms@[rid];
                let cancel_seq = match oroom.start_countdown_handle {
                    Some(h) => if oroom.players@.len() - 1 < MIN_PLAYERS_PER_ROOM {
                        seq![Directive::Cancel { handle: h }]
                    } else {
                        Seq::<Directive>::empty()
                    },
                    None => Seq::<Directive>::empty(),
                };
                if oroom.players@.len() == 1 {
                    &&& !final(self).rooms@.contains_key(rid)
                    &&& final(self).pub_rooms@ == old(self).pub_rooms@.remove_value(rid)
                    &&& final(self).pub_rooms_available@ == old(self).pub_rooms_available@.remove_value(rid)
                    &&& final(out)@ == old(out)@ + cancel_seq
                } else {
                    &&& final(self).rooms@.contains_key(rid)
                    &&& final(self).rooms@[rid].players@ == oroom.players@.remove_value(pid)
                    &&& final(self).rooms@[rid].state == oroom.state
                    &&& final(self).rooms@[rid].start_countdown_handle == (
                    if oroom.players@.len() - 1 < MIN_PLAYERS_PER_ROOM {
                        None
                    } else {
                        oroom.start_countdown_handle
                    })
                    &&& final(self).pub_rooms@ == old(self).pub_rooms@
                    &&& final(self).pub_rooms_available@ == (if old(self).pub_rooms@.contains(rid)
                        && oroom.state == RoomState::Matchmaking && !old(self).pub_rooms_available@.contains(rid) {
                        old(self).pub_rooms_available@.push(rid)
                    } else {
                        old(self).pub_rooms_available@
                    })
                    &&& final(out)@ == old(out)@ + cancel_seq + leave_directives(
                        final(self).rooms@[rid].players@,
                        final(self).players@,
                        SerId(pid),
                        if old(self).players@[pid].obj.is_host {
                            Some(SerId(final(self).rooms@[rid].players@[0]))
                        } else {
                            None
                        },
                    )
                }
            }),
    {
        let ghost s0 = *old(self);
        let (room_id, was_in_game, was_host) = match self.players.get(&pid) {
            None => {
                return ;
            },
            Some(u) => match u.room {
                None => {
                    return ;
                },
                Some(r) => (r, u.in_game, u.obj.is_host),
            },
        };
        proof {
            assert(s0.players@[pid].room == Some(room_id));
            assert(s0.rooms@.contains_key(room_id));
            assert(room_wf(room_id, s0.rooms@[room_id], s0.players@));
        }
        // clear the leaving player's record
        let mut u = self.players.remove(&pid).unwrap();
        u.room = None;
        u.obj.is_host = false;
        u.in_game = false;
        self.players.insert(pid, u);
        let ghost map1 = self.players@;
        proof {
            assert(map1.dom() =~= s0.players@.dom());
        }
        // shrink the room
        let mut room = self.rooms.remove(&room_id).unwrap();
        let ghost oroom = s0.rooms@[room_id];
        let ghost old_members = oroom.players@;
        vec_remove_id(&mut room.players, pid);
        let ghost new_members = room.players@;
        proof {
            lemma_remove_value_props(old_members, pid);
            assert(old_members.contains(pid));
            assert(new_members.len() == old_members.len() - 1);
            assert(new_members.no_duplicates());
            assert(forall|y: IdType|
                #[trigger] new_members.contains(y) <==> (old_members.contains(y) && y != pid));
            assert forall|j: int| 0 <= j < new_members.len() implies #[trigger] new_members[j]
                != pid && old_members.contains(new_members[j]) by {
                assert(new_members.contains(new_members[j]));
            }
        }
        if was_in_game {
            proof {
                lemma_count_member_pos(old_members, s0.players@, pid, |x: UserData| x.in_game);
            }
            room.in_game_count = room.in_game_count - 1;
        }
        proof {
            // the shrunken room's in-game counter matches the shrunken list
            lemma_count_remove_value(old_members, s0.players@, pid, |x: UserData| x.in_game);
            lemma_count_agree(new_members, s0.players@, map1, |x: UserData| x.in_game);
            assert(room.in_game_count == in_game_count_of(new_members, map1));
            // the host count lost exactly the leaver's contribution
            lemma_count_remove_value(old_members, s0.players@, pid, |x: UserData| x.obj.is_host);
            lemma_count_agree(new_members, s0.players@, map1, |x: UserData| x.obj.is_host);
            assert(host_count_of(new_members, map1) == (if was_host {
                0nat
            } else {
                1nat
            }));
        }
        if room.players.len() < MIN_PLAYERS_PER_ROOM {
            match room.start_countdown_handle {
                Some(h) => {
                    out.push(Directive::Cancel { handle: h });
                    room.start_countdown_handle = None;
                },
                None => {},
            }
        }
        if room.players.len() == 0 {
            proof {
                assert(old_members.len() == 1);
                lemma_remove_value_props(s0.pub_rooms@, room_id);
                lemma_remove_value_props(s0.pub_rooms_available@, room_id);
            }
            vec_remove_id(&mut self.pub_rooms, room_id);
            vec_remove_id(&mut self.pub_rooms_available, room_id);
            proof {
                assert(self.rooms@ =~= s0.rooms@.remove(room_id));
                assert(old_members[0] == pid) by {
                    assert(old_members.contains(pid));
                }
                assert forall|q: IdType| self.players@.contains_key(q) implies player_wf(
                    q,
                    #[trigger] self.players@[q],
                    self.rooms@,
                ) by {
                    if q != pid {
                        assert(player_wf(q, s0.players@[q], s0.rooms@));
                        match s0.players@[q].room {
                            Some(r2) => {
                                assert(s0.rooms@[r2].players@.contains(q));
                                assert(r2 != room_id) by {
                                    if r2 == room_id {
                                        assert(old_members.contains(q));
                                    }
                                }
                            },
                            None => {},
                        }
                    }
                }
                assert forall|rid: IdType| self.rooms@.contains_key(rid) implies room_wf(
                    rid,
                    #[trigger] self.rooms@[rid],
                    self.players@,
                ) by {
                    let r2 = self.rooms@[rid];
                    assert(room_wf(rid, r2, s0.players@));
                    assert(forall|j: int|
                        0 <= j < r2.players@.len() ==> #[trigger] r2.players@[j] != pid) by {
                        if exists|j: int|
                            0 <= j < r2.players@.len() && #[trigger] r2.players@[j] == pid {
                            let j = choose|j: int|
                                0 <= j < r2.players@.len() && #[trigger] r2.players@[j] == pid;
                            assert(s0.players@[pid].room == Some(rid));
                        }
                    }
                    lemma_count_agree(r2.players@, s0.players@, self.players@, |x: UserData| x.in_game);
                    lemma_count_agree(
                        r2.players@,
                        s0.players@,
                        self.players@,
                        |x: UserData| x.obj.is_host,
                    );
                }
            }
        } else {
            let push_avail = room.players.len() < MAX_PLAYERS_PER_ROOM && matches!(
                room.state,
                RoomState::Matchmaking,
            ) && vec_contains_id(&self.pub_rooms, room_id) && !vec_contains_id(
                &self.pub_rooms_available,
                room_id,
            );
            let ghost avail0 = s0.pub_rooms_available@;
            if push_avail {
                self.pub_rooms_available.push(room_id);
                proof {
                    lemma_push_props(avail0, room_id);
                }
            }
            let new_host_opt: Option<SerId>;
            if was_host {
                let first = room.players[0];
                proof {
                    assert(new_members.contains(first));
                    lemma_remove_value_props(old_members, pid);
                    assert(old_members.contains(first) && first != pid);
                }
                let mut h = self.players.remove(&first).unwrap();
                h.obj.is_host = true;
                let hid = h.obj.id;
                self.players.insert(first, h);
                new_host_opt = Some(hid);
                proof {
                    assert(self.players@.dom() =~= s0.players@.dom());
                    assert(self.players@ =~= map1.insert(first, self.players@[first]));
                    // promotion raises the host count back to one
                    assert(!(map1.contains_key(first) && map1[first].obj.is_host)) by {
                        if map1[first].obj.is_host {
                            lemma_count_member_pos(
                                new_members,
                                map1,
                                first,
                                |x: UserData| x.obj.is_host,
                            );
                        }
                    }
                    lemma_count_update_member(
                        new_members,
                        map1,
                        first,
                        self.players@[first],
                        |x: UserData| x.obj.is_host,
                    );
                    assert(host_count_of(new_members, self.players@) == 1);
                    lemma_count_update_member(
                        new_members,
                        map1,
                        first,
                        self.players@[first],
                        |x: UserData| x.in_game,
                    );
                    assert(in_game_count_of(new_members, self.players@) == in_game_count_of(
                        new_members,
                        map1,
                    ));
                }
            } else {
                new_host_opt = None;
                proof {
                    assert(self.players@ == map1);
                }
            }
            broadcast_leave_room(&self.players, &room.players, SerId(pid), new_host_opt, out);
            let ghost kept_room = room;
            self.rooms.insert(room_id, room);
            proof {
                assert(self.rooms@ =~= s0.rooms@.insert(room_id, kept_room));
                let fmap = self.players@;
                assert(new_members.len() < MAX_PLAYERS_PER_ROOM);
                assert forall|q: IdType| self.players@.contains_key(q) implies player_wf(
                    q,
                    #[trigger] self.players@[q],
                    self.rooms@,
                ) by {
                    if q != pid {
                        assert(player_wf(q, s0.players@[q], s0.rooms@));
                        match s0.players@[q].room {
                            Some(r2) => {
                                if r2 == room_id {
                                    assert(old_members.contains(q));
                                    assert(new_members.contains(q));
                                } else {
                                    assert(s0.rooms@[r2].players@.contains(q));
                                }
                            },
                            None => {},
                        }
                    }
                }
                assert forall|rid: IdType| self.rooms@.contains_key(rid) implies room_wf(
                    rid,
                    #[trigger] self.rooms@[rid],
                    self.players@,
                ) by {
                    let r2 = self.rooms@[rid];
                    if rid == room_id {
                        assert(forall|j: int|
                            0 <= j < new_members.len() ==> old_members.contains(
                                #[trigger] new_members[j],
                            ) && new_members[j] != pid);
                        assert forall|j: int| 0 <= j < r2.players@.len() implies fmap.contains_key(
                            #[trigger] r2.players@[j],
                        ) && fmap[r2.players@[j]].room == Some(rid) by {
                            let m = r2.players@[j];
                            assert(old_members.contains(m) && m != pid);
                            assert(s0.players@.contains_key(m));
                        }
                    } else {
                        assert(room_wf(rid, r2, s0.players@));
                        assert forall|j: int|
                            0 <= j < r2.players@.len() implies #[trigger] r2.players@[j] != pid
                            && (was_host ==> r2.players@[j] != new_members[0]) by {
                            let m = r2.players@[j];
                            assert(s0.players@[m].room == Some(rid));
                            if m == pid {
                                assert(s0.players@[pid].room == Some(room_id));
                            }
                            if was_host && m == new_members[0] {
                                assert(old_members.contains(m));
                                assert(s0.players@[m].room == Some(room_id));
                            }
                        }
                        lemma_count_agree(
                            r2.players@,
                            s0.players@,
                            self.players@,
                            |x: UserData| x.in_game,
                        );
                        lemma_count_agree(
                            r2.players@,
                            s0.players@,
                            self.players@,
                            |x: UserData| x.obj.is_host,
                        );
                    }
                }
                // the public pool indices stay coherent
                let avail1 = self.pub_rooms_available@;
                assert(avail1.no_duplicates());
                assert forall|y: IdType| #[trigger] avail1.contains(y) implies self.pub_rooms@.contains(
                    y,
                ) by {
                    if push_avail {
                        assert(avail0.contains(y) || y == room_id);
                    }
                }
                assert forall|rid2: IdType| #[trigger] self.pub_rooms@.contains(rid2) implies (
                avail1.contains(rid2) <==> self.rooms@[rid2].state == RoomState::Matchmaking
                    && self.rooms@[rid2].players@.len() < MAX_PLAYERS_PER_ROOM) by {
                    if rid2 == room_id {
                        assert(self.rooms@[rid2] == kept_room);
                        if push_avail {
                            assert(avail1.contains(room_id));
                        } else {
                            if kept_room.state == RoomState::Matchmaking {
                                assert(avail0.contains(room_id));
                            } else {
                                assert(!avail0.contains(room_id));
                                if push_avail {
                                }
                            }
                        }
                    } else {
                        assert(self.rooms@[rid2] == s0.rooms@[rid2]);
                        if push_avail {
                            assert(avail1.contains(rid2) <==> avail0.contains(rid2));
                        }
                    }
                }
            }
        }
    }

    /// Disconnect a session: leave the current room, then drop the player
    /// record entirely.
    pub fn disconnect(&mut self, id: IdType, out: &mut Vec<Directive>)
        requires
            old(self).wf(),
        ensures
            final(self).wf(),
            !final(self).players@.contains_key(id),
            final(self).players@ == old(self).players@.remove(id) || (old(self).players@.contains_key(id) && old(self).players@[id].room is Some),
            forall|q: IdType|
                q != id ==> final(self).players@.contains_key(q) == old(self).players@.contains_key(q),
            forall|r: IdType|
                #[trigger] final(self).rooms@.contains_key(r) ==> old(self).rooms@.contains_key(r)
                    && !final(self).rooms@[r].players@.contains(id),
    {
        let ghost s0 = *old(self);
        self.leave_room(id, out);
        let ghost s1 = *self;
        self.players.remove(&id);
        proof {
            if !s0.players@.contains_key(id) || s0.players@[id].room is None {
                assert(self.players@ =~= s0.players@.remove(id));
            }
            assert forall|q: IdType| self.players@.contains_key(q) implies player_wf(
                q,
                #[trigger] self.players@[q],
                self.rooms@,
            ) by {
                assert(player_wf(q, s1.players@[q], s1.rooms@));
            }
            assert forall|rid: IdType| self.rooms@.contains_key(rid) implies room_wf(
                rid,
                #[trigger] self.rooms@[rid],
                self.players@,
            ) by {
                let r2 = self.rooms@[rid];
                assert(room_wf(rid, r2, s1.players@));
                assert(!r2.players@.contains(id));
                assert forall|j: int| 0 <= j < r2.players@.len() implies #[trigger] r2.players@[j]
                    != id by {
                    assert(r2.players@.contains(r2.players@[j]));
                }
                lemma_count_agree(r2.players@, s1.players@, self.players@, |x: UserData| x.in_game);
                lemma_count_agree(
                    r2.players@,
                    s1.players@,
                    self.players@,
                    |x: UserData| x.obj.is_host,
                );
            }
        }
    }

    /// Create a room with the given registered, roomless player as its sole
    /// member and host. A public room is entered into both pool indices.
    fn create_room_impl(&mut self, host_id: IdType, public: bool) -> (rid: IdType)
        requires
            old(self).wf(),
            old(self).players@.contains_key(host_id),
            old(self).players@[host_id].room is None,
        ensures
            final(self).wf(),
            !old(self).rooms@.contains_key(rid),
            final(self).rooms@.contains_key(rid),
            final(self).rooms@[rid].state == RoomState::Matchmaking,
            final(self).rooms@[rid].players@ == seq![host_id],
            final(self).rooms@[rid].in_game_count == 0,
            final(self).rooms@[rid].start_countdown_handle is None,
            forall|r: IdType|
                r != rid ==> #[trigger] final(self).rooms@.contains_key(r) == old(self).rooms@.contains_key(r) && (old(self).rooms@.contains_key(r) ==> final(self).rooms@[r] == old(self).rooms@[r]),
            final(self).players@ == old(self).players@.insert(
                host_id,
                UserData {
                    addr: old(self).players@[host_id].addr,
                    obj: PlayerObject {
                        id: old(self).players@[host_id].obj.id,
                        username: old(self).players@[host_id].obj.username,
                        cosmetics: old(self).players@[host_id].obj.cosmetics,
                        is_host: true,
                    },
                    room: Some(rid),
                    in_game: false,
                },
            ),
            public ==> final(self).pub_rooms@ == old(self).pub_rooms@.push(rid) && final(self).pub_rooms_available@ == old(self).pub_rooms_available@.push(rid),
            !public ==> final(self).pub_rooms@ == old(self).pub_rooms@ && final(self).pub_rooms_available@ == old(self).pub_rooms_available@,
            final(self).next_handle == old(self).next_handle,
    {
        let ghost s0 = *old(self);
        let rid = alloc_fresh_id(&self.rooms);
        let mut members: Vec<IdType> = Vec::new();
        members.push(host_id);
        let room = RoomData {
            state: RoomState::Matchmaking,
            players: members,
            in_game_count: 0,
            start_countdown_handle: None,
        };
        proof {
            assert(room.players@ =~= seq![host_id]);
        }
        self.rooms.insert(rid, room);
        let mut u = self.players.remove(&host_id).unwrap();
        u.obj.is_host = true;
        u.room = Some(rid);
        self.players.insert(host_id, u);
        if public {
            proof {
                lemma_push_props(s0.pub_rooms@, rid);
                lemma_push_props(s0.pub_rooms_available@, rid);
            }
            self.pub_rooms.push(rid);
            self.pub_rooms_available.push(rid);
        }
        proof {
            let fmap = self.players@;
            assert(fmap =~= s0.players@.insert(host_id, fmap[host_id]));
            assert(!s0.players@[host_id].in_game);
            assert forall|q: IdType| self.players@.contains_key(q) implies player_wf(
                q,
                #[trigger] self.players@[q],
                self.rooms@,
            ) by {
                if q != host_id {
                    assert(player_wf(q, s0.players@[q], s0.rooms@));
                } else {
                    assert(self.rooms@[rid].players@[0] == host_id);
                }
            }
            assert forall|r2: IdType| self.rooms@.contains_key(r2) implies room_wf(
                r2,
                #[trigger] self.rooms@[r2],
                self.players@,
            ) by {
                let rm = self.rooms@[r2];
                if r2 == rid {
                    assert(rm.players@ == seq![host_id]);
                    assert(rm.players@ =~= Seq::<IdType>::empty().push(host_id));
                    lemma_count_push(Seq::<IdType>::empty(), fmap, host_id, |x: UserData| x.in_game);
                    lemma_count_push(
                        Seq::<IdType>::empty(),
                        fmap,
                        host_id,
                        |x: UserData| x.obj.is_host,
                    );
                    assert(member_counted(fmap, host_id, |x: UserData| x.in_game) == 0);
                    assert(member_counted(fmap, host_id, |x: UserData| x.obj.is_host) == 1);
                    assert(in_game_count_of(rm.players@, fmap) == 0);
                    assert(host_count_of(rm.players@, fmap) == 1);
                    assert(rm.players@.no_duplicates());
                } else {
                    assert(room_wf(r2, rm, s0.players@));
                    assert forall|j: int| 0 <= j < rm.players@.len() implies #[trigger] rm.players@[j]
                        != host_id by {
                        assert(s0.players@[rm.players@[j]].room == Some(r2));
                    }
                    lemma_count_agree(rm.players@, s0.players@, fmap, |x: UserData| x.in_game);
                    lemma_count_agree(rm.players@, s0.players@, fmap, |x: UserData| x.obj.is_host);
                }
            }
            if public {
                assert forall|r2: IdType| #[trigger] self.pub_rooms@.contains(r2) implies (
                self.pub_rooms_available@.contains(r2) <==> self.rooms@[r2].state
                    == RoomState::Matchmaking && self.rooms@[r2].players@.len()
                    < MAX_PLAYERS_PER_ROOM) by {
                    if r2 != rid {
                        assert(s0.pub_rooms@.contains(r2));
                        assert(self.rooms@[r2] == s0.rooms@[r2]);
                    }
                }
            }
        }
        rid
    }

    /// Join a roomless player into the room named by `room_id`: report a
    /// missing room, a started room or a full room without touching anything;
    /// otherwise add the player, broadcast the join to the whole room, arm
    /// the countdown when the minimum is reached, retire the room from the
    /// available pool (cancelling any countdown) when the maximum is reached,
    /// and reply with the member list after insertion.
    #[verifier::rlimit(100)]
    fn join_room_impl(&mut self, id: IdType, room_id: IdType, out: &mut Vec<Directive>) -> (r:
        JoinRoomResult)
        requires
            old(self).wf(),
            old(self).players@.contains_key(id),
            old(self).players@[id].room is None,
        ensures
            final(self).wf(),
            r is RoomNotFound <==> !old(self).rooms@.contains_key(room_id),
            old(self).rooms@.contains_key(room_id) ==> {
                let oroom = old(self).rooms@[room_id];
                &&& (r is AlreadyPlaying <==> oroom.state != RoomState::Matchmaking)
                &&& (r is RoomIsFull <==> oroom.state == RoomState::Matchmaking
                    && oroom.players@.len() >= MAX_PLAYERS_PER_ROOM)
                &&& (r is Success <==> oroom.state == RoomState::Matchmaking
                    && oroom.players@.len() < MAX_PLAYERS_PER_ROOM)
            },
            !(r is Success) ==> st_eq(*final(self), *old(self)) && final(out)@ == old(out)@,
            r matches JoinRoomResult::Success(list) ==> {
                let oroom = old(self).rooms@[room_id];
                let newlen = oroom.players@.len() + 1;
                let fmap = final(self).players@;
                let nmembers = oroom.players@.push(id);
                &&& fmap == old(self).players@.insert(
                    id,
                    UserData {
                        addr: old(self).players@[id].addr,
                        obj: old(self).players@[id].obj,
                        room: Some(room_id),
                        in_game: false,
                    },
                )
                &&& final(self).rooms@.contains_key(room_id)
                &&& final(self).rooms@[room_id].players@ == nmembers
                &&& final(self).rooms@[room_id].state == RoomState::Matchmaking
                &&& final(self).rooms@[room_id].in_game_count == oroom.in_game_count
                &&& final(self).rooms@[room_id].start_countdown_handle == (if newlen
                    == MIN_PLAYERS_PER_ROOM {
                    Some(old(self).next_handle)
                } else if newlen == MAX_PLAYERS_PER_ROOM {
                    None
                } else {
                    oroom.start_countdown_handle
                })
                &&& forall|r2: IdType|
                    r2 != room_id ==> #[trigger] final(self).rooms@.contains_key(r2) == old(self).rooms@.contains_key(r2) && (old(self).rooms@.contains_key(r2) ==> final(self).rooms@[r2] == old(self).rooms@[r2])
                &&& final(self).pub_rooms@ == old(self).pub_rooms@
                &&& final(self).pub_rooms_available@ == (if newlen == MAX_PLAYERS_PER_ROOM {
                    old(self).pub_rooms_available@.remove_value(room_id)
                } else {
                    old(self).pub_rooms_available@
                })
                &&& final(self).next_handle == (if newlen != MIN_PLAYERS_PER_ROOM {
                    old(self).next_handle
                } else if old(self).next_handle == u64::MAX {
                    0u64
                } else {
                    (old(self).next_handle + 1) as u64
                })
                &&& list@ == player_objs(nmembers, fmap)
                &&& final(out)@ == old(out)@ + broadcast_directives(
                    nmembers,
                    fmap,
                    OutEvent::EventPlayerJoined { player: fmap[id].obj },
                    None,
                ) + (if newlen == MIN_PLAYERS_PER_ROOM {
                    seq![
                        Directive::Schedule {
                            handle: old(self).next_handle,
                            player_id: id,
                            delay_secs: ROOM_COUNTDOWN_ON_MIN_PLAYERS,
                        },
                    ]
                } else {
                    Seq::<Directive>::empty()
                }) + (if newlen == MAX_PLAYERS_PER_ROOM {
                    match oroom.start_countdown_handle {
                        Some(h) => seq![Directive::Cancel { handle: h }],
                        None => Seq::<Directive>::empty(),
                    }
                } else {
                    Seq::<Directive>::empty()
                })
            },
    {
        let ghost s0 = *old(self);
        if !self.rooms.contains_key(&room_id) {
            return JoinRoomResult::RoomNotFound;
        }
        let mut room = self.rooms.remove(&room_id).unwrap();
        if !matches!(room.state, RoomState::Matchmaking) {
            self.rooms.insert(room_id, room);
            proof {
                assert(self.rooms@ =~= s0.rooms@);
            }
            return JoinRoomResult::AlreadyPlaying;
        }
        if room.players.len() >= MAX_PLAYERS_PER_ROOM {
            self.rooms.insert(room_id, room);
            proof {
                assert(self.rooms@ =~= s0.rooms@);
            }
            return JoinRoomResult::RoomIsFull;
        }
        let ghost old_members = room.players@;
        proof {
            assert(room_wf(room_id, s0.rooms@[room_id], s0.players@));
            assert(!old_members.contains(id)) by {
                if old_members.contains(id) {
                    let j = choose|j: int| 0 <= j < old_members.len() && old_members[j] == id;
                    assert(s0.players@[id].room == Some(room_id));
                }
            }
            lemma_push_props(old_members, id);
        }
        room.players.push(id);
        let ghost nmembers = room.players@;
        let mut u = self.players.remove(&id).unwrap();
        u.room = Some(room_id);
        self.players.insert(id, u);
        let ghost fmap = self.players@;
        proof {
            assert(!s0.players@[id].in_game && !s0.players@[id].obj.is_host);
            assert(fmap =~= s0.players@.insert(id, fmap[id]));
            // counts gain only the joiner's contribution, which is zero
            lemma_count_agree(old_members, s0.players@, fmap, |x: UserData| x.in_game);
            lemma_count_agree(old_members, s0.players@, fmap, |x: UserData| x.obj.is_host);
            lemma_count_push(old_members, fmap, id, |x: UserData| x.in_game);
            lemma_count_push(old_members, fmap, id, |x: UserData| x.obj.is_host);
            assert(in_game_count_of(nmembers, fmap) == in_game_count_of(old_members, s0.players@));
            assert(host_count_of(nmembers, fmap) == 1);
        }
        let ghost base_out = out@;
        let ev_player = self.players.get(&id).unwrap().obj.clone();
        broadcast_event_room(
            &self.players,
            &room.players,
            &OutEvent::EventPlayerJoined { player: ev_player },
            None,
            out,
        );
        let ghost oroom_handle = room.start_countdown_handle;
        if room.players.len() == MIN_PLAYERS_PER_ROOM {
            let h = self.next_handle;
            self.next_handle = if h == u64::MAX {
                0
            } else {
                h + 1
            };
            out.push(
                Directive::Schedule {
                    handle: h,
                    player_id: id,
                    delay_secs: ROOM_COUNTDOWN_ON_MIN_PLAYERS,
                },
            );
            room.start_countdown_handle = Some(h);
        }
        if room.players.len() == MAX_PLAYERS_PER_ROOM {
            match room.start_countdown_handle {
                Some(h2) => {
                    out.push(Directive::Cancel { handle: h2 });
                    room.start_countdown_handle = None;
                },
                None => {},
            }
            proof {
                lemma_remove_value_props(s0.pub_rooms_available@, room_id);
            }
            vec_remove_id(&mut self.pub_rooms_available, room_id);
        }
        let reply = collect_players(&self.players, &room.players);
        let ghost kept_room = room;
        self.rooms.insert(room_id, room);
        proof {
            assert(self.rooms@ =~= s0.rooms@.insert(room_id, kept_room));
            assert forall|q: IdType| self.players@.contains_key(q) implies player_wf(
                q,
                #[trigger] self.players@[q],
                self.rooms@,
            ) by {
                if q != id {
                    assert(player_wf(q, s0.players@[q], s0.rooms@));
                    match s0.players@[q].room {
                        Some(r2) => {
                            if r2 == room_id {
                                assert(old_members.contains(q));
                                assert(nmembers.contains(q));
                            } else {
                                assert(s0.rooms@[r2].players@.contains(q));
                            }
                        },
                        None => {},
                    }
                } else {
                    assert(nmembers[nmembers.len() - 1] == id);
                    assert(nmembers.contains(id));
                }
            }
            assert forall|r2: IdType| self.rooms@.contains_key(r2) implies room_wf(
                r2,
                #[trigger] self.rooms@[r2],
                self.players@,
            ) by {
                let rm = self.rooms@[r2];
                if r2 == room_id {
                    assert forall|j: int| 0 <= j < rm.players@.len() implies fmap.contains_key(
                        #[trigger] rm.players@[j],
                    ) && fmap[rm.players@[j]].room == Some(room_id) by {
                        let m = rm.players@[j];
                        if j < rm.players@.len() - 1 {
                            assert(m == old_members[j]);
                            assert(s0.players@[m].room == Some(room_id));
                        } else {
                            assert(m == id);
                        }
                    }
                } else {
                    assert(room_wf(r2, rm, s0.players@));
                    assert forall|j: int| 0 <= j < rm.players@.len() implies #[trigger] rm.players@[j]
                        != id by {
                        assert(s0.players@[rm.players@[j]].room == Some(r2));
                    }
                    lemma_count_agree(rm.players@, s0.players@, fmap, |x: UserData| x.in_game);
                    lemma_count_agree(rm.players@, s0.players@, fmap, |x: UserData| x.obj.is_host);
                }
            }
            // the public pool indices stay coherent
            assert forall|r2: IdType| #[trigger] self.pub_rooms@.contains(r2) implies (
            self.pub_rooms_available@.contains(r2) <==> self.rooms@[r2].state
                == RoomState::Matchmaking && self.rooms@[r2].players@.len() < MAX_PLAYERS_PER_ROOM)
                by {
                if r2 != room_id {
                    assert(self.rooms@[r2] == s0.rooms@[r2]);
                    if nmembers.len() == MAX_PLAYERS_PER_ROOM {
                        assert(self.pub_rooms_available@.contains(r2) == s0.pub_rooms_available@.contains(
                            r2,
                        ));
                    }
                } else {
                    if nmembers.len() == MAX_PLAYERS_PER_ROOM {
                        assert(!self.pub_rooms_available@.contains(room_id));
                    } else {
                        assert(self.pub_rooms_available@ == s0.pub_rooms_available@);
                        assert(old_members.len() < MAX_PLAYERS_PER_ROOM);
                    }
                }
            }
            assert forall|y: IdType| #[trigger] self.pub_rooms_available@.contains(y) implies self.pub_rooms@.contains(
                y,
            ) by {
                if nmembers.len() == MAX_PLAYERS_PER_ROOM {
                    assert(s0.pub_rooms_available@.contains(y));
                }
            }
            // the reply record and directive trail have the stated shape
            assert(fmap[id] == UserData {
                addr: s0.players@[id].addr,
                obj: s0.players@[id].obj,
                room: Some(room_id),
                in_game: false,
            });
            let bd = broadcast_directives(
                nmembers,
                fmap,
                OutEvent::EventPlayerJoined { player: fmap[id].obj },
                None,
            );
            let sched_part = if nmembers.len() == MIN_PLAYERS_PER_ROOM {
                seq![
                    Directive::Schedule {
                        handle: s0.next_handle,
                        player_id: id,
                        delay_secs: ROOM_COUNTDOWN_ON_MIN_PLAYERS,
                    },
                ]
            } else {
                Seq::<Directive>::empty()
            };
            let cancel_part = if nmembers.len() == MAX_PLAYERS_PER_ROOM {
                match oroom_handle {
                    Some(h) => seq![Directive::Cancel { handle: h }],
                    None => Seq::<Directive>::empty(),
                }
            } else {
                Seq::<Directive>::empty()
            };
            assert(out@ =~= base_out + bd + sched_part + cancel_part);
        }
        JoinRoomResult::Success(reply)
    }

    /// Create a private room: leave any current room first, then open a room
    /// with the caller as sole member and host. Private creation touches
    /// neither public pool index. The reply carries the new room's id and the
    /// caller's player object.
    pub fn create_room(&mut self, id: IdType, out: &mut Vec<Directive>) -> (r: CreateRoomResult)
        requires
            old(self).wf(),
            old(self).players@.contains_key(id),
        ensures
            final(self).wf(),
            old(self).players@[id].room is None ==> !old(self).rooms@.contains_key(r.room_id),
            final(self).rooms@.contains_key(r.room_id),
            final(self).rooms@[r.room_id].state == RoomState::Matchmaking,
            final(self).rooms@[r.room_id].players@ == seq![id],
            final(self).rooms@[r.room_id].in_game_count == 0,
            final(self).rooms@[r.room_id].start_countdown_handle is None,
            final(self).players@.contains_key(id),
            final(self).players@[id].room == Some(r.room_id),
            final(self).players@[id].obj.is_host,
            r.player == final(self).players@[id].obj,
            r.player.id == SerId(id),
            old(self).players@[id].room is None ==> final(self).pub_rooms@ == old(self).pub_rooms@
                && final(self).pub_rooms_available@ == old(self).pub_rooms_available@ && final(out)@ == old(out)@ && final(self).players@ == old(self).players@.insert(
                id,
                UserData {
                    addr: old(self).players@[id].addr,
                    obj: PlayerObject {
                        id: old(self).players@[id].obj.id,
                        username: old(self).players@[id].obj.username,
                        cosmetics: old(self).players@[id].obj.cosmetics,
                        is_host: true,
                    },
                    room: Some(r.room_id),
                    in_game: false,
                },
            ) && (forall|r2: IdType|
                r2 != r.room_id ==> #[trigger] final(self).rooms@.contains_key(r2) == old(self).rooms@.contains_key(r2) && (old(self).rooms@.contains_key(r2) ==> final(self).rooms@[r2] == old(self).rooms@[r2])),
    {
        self.leave_room(id, out);
        let rid = self.create_room_impl(id, false);
        let p = self.players.get(&id).unwrap().obj.clone();
        CreateRoomResult { room_id: rid, player: p }
    }

    /// Join a specific room by invite id: leave any current room first, then
    /// enter the target room as `join_room_impl` describes.
    pub fn join_room(&mut self, id: IdType, room_id: IdType, out: &mut Vec<Directive>) -> (r:
        JoinRoomResult)
        requires
            old(self).wf(),
            old(self).players@.contains_key(id),
        ensures
            final(self).wf(),
            old(self).players@[id].room is None ==> {
                &&& (r is RoomNotFound <==> !old(self).rooms@.contains_key(room_id))
                &&& (old(self).rooms@.contains_key(room_id) ==> {
                    let oroom = old(self).rooms@[room_id];
                    &&& (r is AlreadyPlaying <==> oroom.state != RoomState::Matchmaking)
                    &&& (r is RoomIsFull <==> oroom.state == RoomState::Matchmaking
                        && oroom.players@.len() >= MAX_PLAYERS_PER_ROOM)
                    &&& (r is Success <==> oroom.state == RoomState::Matchmaking
                        && oroom.players@.len() < MAX_PLAYERS_PER_ROOM)
                })
                &&& (!(r is Success) ==> st_eq(*final(self), *old(self)) && final(out)@ == old(out)@)
                &&& (r matches JoinRoomResult::Success(list) ==> {
                    let oroom = old(self).rooms@[room_id];
                    let fmap = final(self).players@;
                    let nmembers = oroom.players@.push(id);
                    &&& fmap == old(self).players@.insert(
                        id,
                        UserData {
                            addr: old(self).players@[id].addr,
                            obj: old(self).players@[id].obj,
                            room: Some(room_id),
                            in_game: false,
                        },
                    )
                    &&& final(self).rooms@.contains_key(room_id)
                    &&& final(self).rooms@[room_id].players@ == nmembers
                    &&& final(self).rooms@[room_id].state == RoomState::Matchmaking
                    &&& list@ == player_objs(nmembers, fmap)
                    &&& final(out)@ == old(out)@ + broadcast_directives(
                        nmembers,
                        fmap,
                        OutEvent::EventPlayerJoined { player: fmap[id].obj },
                        None,
                    ) + (if nmembers.len() == MIN_PLAYERS_PER_ROOM {
                        seq![
                            Directive::Schedule {
                                handle: old(self).next_handle,
                                player_id: id,
                                delay_secs: ROOM_COUNTDOWN_ON_MIN_PLAYERS,
                            },
                        ]
                    } else {
                        Seq::<Directive>::empty()
                    }) + (if nmembers.len() == MAX_PLAYERS_PER_ROOM {
                        match oroom.start_countdown_handle {
                            Some(h) => seq![Directive::Cancel { handle: h }],
                            None => Seq::<Directive>::empty(),
                        }
                    } else {
                        Seq::<Directive>::empty()
                    })
                })
            },
            r is Success ==> final(self).rooms@.contains_key(room_id) && final(self).players@.contains_key(id) && final(self).players@[id].room == Some(room_id),
    {
        self.leave_room(id, out);
        self.join_room_impl(id, room_id, out)
    }

    /// Public matchmaking: leave any current room, then join the first room
    /// of the available pool, or, when the pool is empty, open a fresh public
    /// room with the caller as host. The reply always succeeds and carries
    /// the member list after insertion and whether the room is new.
    pub fn find_room(&mut self, id: IdType, out: &mut Vec<Directive>) -> (r: FindRoomResult)
        requires
            old(self).wf(),
            old(self).players@.contains_key(id),
        ensures
            final(self).wf(),
            r is Success,
            r matches FindRoomResult::Success { room_id, players, just_created } ==> {
                &&& final(self).rooms@.contains_key(room_id)
                &&& final(self).players@.contains_key(id)
                &&& final(self).players@[id].room == Some(room_id)
                &&& final(self).rooms@[room_id].players@.contains(id)
                &&& players@ == player_objs(
                    final(self).rooms@[room_id].players@,
                    final(self).players@,
                )
                &&& final(self).pub_rooms@.contains(room_id)
            },
            old(self).players@[id].room is None ==> (r matches FindRoomResult::Success {
                room_id,
                players,
                just_created,
            } ==> {
                if old(self).pub_rooms_available@.len() > 0 {
                    &&& just_created == false
                    &&& room_id == old(self).pub_rooms_available@[0]
                    &&& final(self).rooms@[room_id].players@ == old(self).rooms@[room_id].players@.push(id)
                    &&& final(out)@ == old(out)@ + broadcast_directives(
                        old(self).rooms@[room_id].players@.push(id),
                        final(self).players@,
                        OutEvent::EventPlayerJoined { player: final(self).players@[id].obj },
                        None,
                    ) + (if old(self).rooms@[room_id].players@.len() + 1 == MIN_PLAYERS_PER_ROOM {
                        seq![
                            Directive::Schedule {
                                handle: old(self).next_handle,
                                player_id: id,
                                delay_secs: ROOM_COUNTDOWN_ON_MIN_PLAYERS,
                            },
                        ]
                    } else {
                        Seq::<Directive>::empty()
                    }) + (if old(self).rooms@[room_id].players@.len() + 1 == MAX_PLAYERS_PER_ROOM {
                        match old(self).rooms@[room_id].start_countdown_handle {
                            Some(h) => seq![Directive::Cancel { handle: h }],
                            None => Seq::<Directive>::empty(),
                        }
                    } else {
                        Seq::<Directive>::empty()
                    })
                } else {
                    &&& just_created == true
                    &&& !old(self).rooms@.contains_key(room_id)
                    &&& final(self).rooms@[room_id].players@ == seq![id]
                    &&& final(self).pub_rooms@ == old(self).pub_rooms@.push(room_id)
                    &&& final(self).pub_rooms_available@ == old(self).pub_rooms_available@.push(
                        room_id,
                    )
                    &&& final(out)@ == old(out)@
                }
            }),
    {
        self.leave_room(id, out);
        if self.pub_rooms_available.len() > 0 {
            let cand = self.pub_rooms_available[0];
            proof {
                assert(self.pub_rooms_available@.contains(cand));
                assert(self.pub_rooms@.contains(cand));
            }
            let res = self.join_room_impl(id, cand, out);
            match res {
                JoinRoomResult::Success(list) => {
                    proof {
                        assert(self.rooms@[cand].players@.contains(id)) by {
                            let n = self.rooms@[cand].players@.len();
                            assert(self.rooms@[cand].players@[n - 1] == id);
                        }
                    }
                    FindRoomResult::Success { room_id: cand, players: list, just_created: false }
                },
                _ => vstd::pervasive::unreached(),
            }
        } else {
            let rid = self.create_room_impl(id, true);
            let room_members = self.rooms.get(&rid).unwrap();
            let list = collect_players(&self.players, &room_members.players);
            proof {
                assert(self.rooms@[rid].players@[0] == id);
                assert(self.rooms@[rid].players@.contains(id));
                assert(self.pub_rooms@.contains(rid)) by {
                    assert(self.pub_rooms@[self.pub_rooms@.len() - 1] == rid);
                }
            }
            FindRoomResult::Success { room_id: rid, players: list, just_created: true }
        }
    }

    /// Change a player's cosmetics. An unchanged value is a no-op; otherwise
    /// the new value is stored and, when the player is in a room, every other
    /// member is told.
    pub fn edit_cosmetics(&mut self, id: IdType, obj: PlayerCosmetics, out: &mut Vec<Directive>)
        requires
            old(self).wf(),
            old(self).players@.contains_key(id),
        ensures
            final(self).wf(),
            final(self).rooms@ == old(self).rooms@,
            final(self).pub_rooms@ == old(self).pub_rooms@,
            final(self).pub_rooms_available@ == old(self).pub_rooms_available@,
            final(self).next_handle == old(self).next_handle,
            old(self).players@[id].obj.cosmetics == obj ==> final(self).players@ == old(self).players@ && final(out)@ == old(out)@,
            old(self).players@[id].obj.cosmetics != obj ==> {
                &&& final(self).players@ == old(self).players@.insert(
                    id,
                    UserData {
                        addr: old(self).players@[id].addr,
                        obj: PlayerObject {
                            id: old(self).players@[id].obj.id,
                            username: old(self).players@[id].obj.username,
                            cosmetics: obj,
                            is_host: old(self).players@[id].obj.is_host,
                        },
                        room: old(self).players@[id].room,
                        in_game: old(self).players@[id].in_game,
                    },
                )
                &&& final(out)@ == old(out)@ + (match old(self).players@[id].room {
                    Some(rid) => broadcast_directives(
                        old(self).rooms@[rid].players@,
                        final(self).players@,
                        OutEvent::EventPlayerAvatarChange { player: SerId(id), cosmetics: obj },
                        Some(id),
                    ),
                    None => Seq::<Directive>::empty(),
                })
            },
    {
        let ghost s0 = *old(self);
        let same = {
            let u = self.players.get(&id).unwrap();
            u.obj.cosmetics == obj
        };
        if same {
            return ;
        }
        let mut u = self.players.remove(&id).unwrap();
        u.obj.cosmetics = obj;
        let room_of = u.room;
        self.players.insert(id, u);
        proof {
            assert(self.players@ =~= s0.players@.insert(id, self.players@[id]));
            assert forall|q: IdType| self.players@.contains_key(q) implies player_wf(
                q,
                #[trigger] self.players@[q],
                self.rooms@,
            ) by {
                assert(player_wf(q, s0.players@[q], s0.rooms@));
            }
            assert forall|rid: IdType| self.rooms@.contains_key(rid) implies room_wf(
                rid,
                #[trigger] self.rooms@[rid],
                self.players@,
            ) by {
                let rm = self.rooms@[rid];
                assert(room_wf(rid, rm, s0.players@));
                lemma_count_agree(rm.players@, s0.players@, self.players@, |x: UserData| x.in_game);
                lemma_count_agree(
                    rm.players@,
                    s0.players@,
                    self.players@,
                    |x: UserData| x.obj.is_host,
                );
            }
        }
        match room_of {
            Some(rid) => {
                proof {
                    assert(s0.players@[id].room == Some(rid));
                    assert(s0.rooms@.contains_key(rid));
                }
                let members = self.rooms.get(&rid).unwrap();
                broadcast_event_room(
                    &self.players,
                    &members.players,
                    &OutEvent::EventPlayerAvatarChange { player: SerId(id), cosmetics: obj },
                    Some(id),
                    out,
                );
            },
            None => {},
        }
    }

    /// Start the caller's room: cancel any countdown, retire the room from
    /// the available pool, move it to the playing state, sweep out members
    /// still in-game from an earlier match, push the start event to every
    /// member, and mark them all in-game. A caller without a room, a room
    /// already playing, or a room of fewer than two players is left
    /// untouched.
    #[verifier::rlimit(100)]
    pub fn start_room(
        &mut self,
        id: IdType,
        conn_type: RoomConnectionType,
        out: &mut Vec<Directive>,
    )
        requires
            old(self).wf(),
        ensures
            final(self).wf(),
            (!old(self).players@.contains_key(id) || old(self).players@[id].room is None) ==> (
            st_eq(*final(self), *old(self)) && final(out)@ == old(out)@),
            old(self).players@.contains_key(id) ==> (old(self).players@[id].room matches Some(rid)
                ==> {
                let oroom = old(self).rooms@[rid];
                &&& ((oroom.state != RoomState::Matchmaking || oroom.players@.len() < 2) ==> (st_eq(
                    *final(self),
                    *old(self),
                ) && final(out)@ == old(out)@))
                &&& ((oroom.state == RoomState::Matchmaking && oroom.players@.len() >= 2) ==> {
                    &&& (final(self).rooms@.contains_key(rid) ==> {
                        let nroom = final(self).rooms@[rid];
                        &&& nroom.state == RoomState::Playing
                        &&& nroom.start_countdown_handle is None
                        &&& nroom.in_game_count == nroom.players@.len()
                        &&& forall|j: int|
                            0 <= j < nroom.players@.len() ==> final(self).players@.contains_key(
                                #[trigger] nroom.players@[j],
                            ) && final(self).players@[nroom.players@[j]].in_game
                        &&& !final(self).pub_rooms_available@.contains(rid)
                    })
                    &&& (oroom.in_game_count == 0 ==> {
                        &&& final(self).rooms@.contains_key(rid)
                        &&& final(self).rooms@[rid].players@ == oroom.players@
                        &&& final(self).players@.dom() == old(self).players@.dom()
                        &&& (forall|q: IdType|
                            #[trigger] final(self).players@.contains_key(q) ==> {
                                let o = old(self).players@[q];
                                let n = final(self).players@[q];
                                n.addr == o.addr && n.obj == o.obj && n.room == o.room
                                    && n.in_game == (o.in_game || oroom.players@.contains(q))
                            })
                        &&& final(self).pub_rooms@ == old(self).pub_rooms@
                        &&& final(self).pub_rooms_available@ == old(self).pub_rooms_available@.remove_value(rid)
                        &&& (forall|r2: IdType|
                            r2 != rid ==> #[trigger] final(self).rooms@.contains_key(r2) == old(self).rooms@.contains_key(r2) && (old(self).rooms@.contains_key(r2)
                                ==> final(self).rooms@[r2] == old(self).rooms@[r2]))
                        &&& (exists|bid: String|
                            (#[trigger] bid@) == dec_chars_of(rid as nat) && final(out)@ == old(out)@ + (match oroom.start_countdown_handle {
                                Some(h) => seq![Directive::Cancel { handle: h }],
                                None => Seq::<Directive>::empty(),
                            }) + all_directives(
                                oroom.players@,
                                final(self).players@,
                                OutEvent::EventRoomStart {
                                    connection_type: conn_type,
                                    broadcast_id: bid,
                                },
                            ))
                    })
                })
            }),
    {
        let ghost s0 = *old(self);
        let rid = match self.players.get(&id) {
            None => {
                return ;
            },
            Some(u) => match u.room {
                None => {
                    return ;
                },
                Some(r) => r,
            },
        };
        proof {
            assert(s0.rooms@.contains_key(rid));
            assert(room_wf(rid, s0.rooms@[rid], s0.players@));
        }
        let mut room = self.rooms.remove(&rid).unwrap();
        if !matches!(room.state, RoomState::Matchmaking) || room.players.len() < 2 {
            self.rooms.insert(rid, room);
            proof {
                assert(self.rooms@ =~= s0.rooms@);
            }
            return ;
        }
        match room.start_countdown_handle {
            Some(h) => {
                out.push(Directive::Cancel { handle: h });
                room.start_countdown_handle = None;
            },
            None => {},
        }
        proof {
            lemma_remove_value_props(s0.pub_rooms_available@, rid);
        }
        vec_remove_id(&mut self.pub_rooms_available, rid);
        room.state = RoomState::Playing;
        let stragglers_present = room.in_game_count > 0;
        let ghost started_room = room;
        self.rooms.insert(rid, room);
        let ghost out1 = out@;
        proof {
            assert(self.rooms@ =~= s0.rooms@.insert(rid, started_room));
            assert(self.rooms@.dom() =~= s0.rooms@.dom());
            assert forall|q: IdType| self.players@.contains_key(q) implies player_wf(
                q,
                #[trigger] self.players@[q],
                self.rooms@,
            ) by {
                assert(player_wf(q, s0.players@[q], s0.rooms@));
            }
            assert forall|r2: IdType| self.rooms@.contains_key(r2) implies room_wf(
                r2,
                #[trigger] self.rooms@[r2],
                self.players@,
            ) by {
                assert(room_wf(r2, s0.rooms@[r2], s0.players@));
            }
            assert forall|r2: IdType| #[trigger] self.pub_rooms@.contains(r2) implies (
            self.pub_rooms_available@.contains(r2) <==> self.rooms@[r2].state
                == RoomState::Matchmaking && self.rooms@[r2].players@.len() < MAX_PLAYERS_PER_ROOM)
                by {
                if r2 == rid {
                    assert(!self.pub_rooms_available@.contains(rid));
                } else {
                    assert(self.rooms@[r2] == s0.rooms@[r2]);
                    assert(self.pub_rooms_available@.contains(r2) == s0.pub_rooms_available@.contains(
                        r2,
                    ));
                }
            }
            assert(self.wf());
        }
        if stragglers_present {
            let mut stragglers: Vec<IdType> = Vec::new();
            {
                let rm = self.rooms.get(&rid).unwrap();
                let mut i: usize = 0;
                while i < rm.players.len()
                    invariant
                        0 <= i <= rm.players@.len(),
                    decreases rm.players@.len() - i,
                {
                    let m = rm.players[i];
                    match self.players.get(&m) {
                        Some(u) => {
                            if u.in_game {
                                stragglers.push(m);
                            }
                        },
                        None => {},
                    }
                    i += 1;
                }
            }
            let mut k: usize = 0;
            while k < stragglers.len()
                invariant
                    0 <= k <= stragglers@.len(),
                    self.wf(),
                    !self.pub_rooms_available@.contains(rid),
                    self.rooms@.contains_key(rid) ==> self.rooms@[rid].state == RoomState::Playing,
                decreases stragglers@.len() - k,
            {
                let ghost sk = *self;
                let m = stragglers[k];
                self.leave_room(m, out);
                proof {
                    if sk.players@.contains_key(m) && sk.players@[m].room is Some {
                        let r3 = sk.players@[m].room->Some_0;
                        if sk.rooms@[r3].players@.len() == 1 {
                            lemma_remove_value_props(sk.pub_rooms_available@, r3);
                        } else {
                            if sk.pub_rooms@.contains(r3) && sk.rooms@[r3].state
                                == RoomState::Matchmaking && !sk.pub_rooms_available@.contains(r3) {
                                lemma_push_props(sk.pub_rooms_available@, r3);
                            }
                        }
                    }
                }
                k += 1;
            }
            if !self.rooms.contains_key(&rid) {
                return ;
            }
        }
        let ghost s2 = *self;
        let mut room = self.rooms.remove(&rid).unwrap();
        proof {
            assert(room_wf(rid, s2.rooms@[rid], s2.players@));
        }
        let bid = u64_to_dec(rid);
        let ev = OutEvent::EventRoomStart { connection_type: conn_type, broadcast_id: bid };
        broadcast_all_room(&self.players, &room.players, &ev, out);
        let ghost map_a = self.players@;
        let ghost members = room.players@;
        let mut i: usize = 0;
        while i < room.players.len()
            invariant
                0 <= i <= members.len(),
                members == room.players@,
                members.no_duplicates(),
                map_a == s2.players@,
                self.rooms@ == s2.rooms@.remove(rid),
                self.pub_rooms@ == s2.pub_rooms@,
                self.pub_rooms_available@ == s2.pub_rooms_available@,
                self.next_handle == s2.next_handle,
                forall|j: int| 0 <= j < members.len() ==> map_a.contains_key(#[trigger] members[j]),
                forall|q: IdType|
                    #[trigger] self.players@.contains_key(q) == map_a.contains_key(q),
                forall|j: int|
                    0 <= j < i ==> self.players@.contains_key(#[trigger] members[j])
                        && self.players@[members[j]] == (UserData {
                        addr: map_a[members[j]].addr,
                        obj: map_a[members[j]].obj,
                        room: map_a[members[j]].room,
                        in_game: true,
                    }),
                forall|q: IdType|
                    map_a.contains_key(q) && !members.take(i as int).contains(q)
                        ==> self.players@.contains_key(q) && self.players@[q] == map_a[q],
            decreases members.len() - i,
        {
            let m = room.players[i];
            proof {
                if members.take(i as int).contains(m) {
                    let j = choose|j: int| 0 <= j < i && members.take(i as int)[j] == m;
                    assert(members[j] == m && members[i as int] == m);
                }
            }
            let mut u = self.players.remove(&m).unwrap();
            u.in_game = true;
            self.players.insert(m, u);
            proof {
                assert forall|q: IdType|
                    map_a.contains_key(q) && !members.take(i + 1 as int).contains(q) implies self.players@.contains_key(
                    q,
                ) && self.players@[q] == map_a[q] by {
                    assert(!members.take(i as int).contains(q)) by {
                        if members.take(i as int).contains(q) {
                            let j = choose|j: int|
                                0 <= j < i && members.take(i as int)[j] == q;
                            assert(members.take(i + 1 as int)[j] == q);
                        }
                    }
                    assert(q != m) by {
                        assert(members.take(i + 1 as int)[i as int] == m);
                    }
                }
            }
            i += 1;
        }
        let n = room.players.len();
        room.in_game_count = n as u32;
        let ghost done_room = room;
        self.rooms.insert(rid, room);
        proof {
            assert(self.rooms@ =~= s2.rooms@.insert(rid, done_room));
            assert(members.take(members.len() as int) =~= members);
            let fmap = self.players@;
            assert forall|q: IdType| fmap.contains_key(q) implies player_wf(
                q,
                #[trigger] fmap[q],
                self.rooms@,
            ) by {
                assert(player_wf(q, s2.players@[q], s2.rooms@));
                if members.contains(q) {
                    let j = choose|j: int| 0 <= j < members.len() && members[j] == q;
                }
            }
            assert forall|r2: IdType| self.rooms@.contains_key(r2) implies room_wf(
                r2,
                #[trigger] self.rooms@[r2],
                fmap,
            ) by {
                let rm = self.rooms@[r2];
                if r2 == rid {
                    assert forall|j: int| 0 <= j < rm.players@.len() implies fmap.contains_key(
                        #[trigger] rm.players@[j],
                    ) && fmap[rm.players@[j]].room == Some(rid) && fmap[rm.players@[j]].in_game
                        by {
                        assert(s2.players@[members[j]].room == Some(rid));
                    }
                    lemma_count_all(members, fmap, |x: UserData| x.in_game);
                    lemma_count_agree(members, s2.players@, fmap, |x: UserData| x.obj.is_host);
                } else {
                    assert(room_wf(r2, rm, s2.players@));
                    assert forall|j: int| 0 <= j < rm.players@.len() implies !members.contains(
                        #[trigger] rm.players@[j],
                    ) by {
                        let q = rm.players@[j];
                        assert(s2.players@[q].room == Some(r2));
                        if members.contains(q) {
                            let jj = choose|jj: int| 0 <= jj < members.len() && members[jj] == q;
                            assert(s2.players@[q].room == Some(rid));
                        }
                    }
                    assert forall|j: int| 0 <= j < rm.players@.len() implies {
                        let q = #[trigger] rm.players@[j];
                        fmap.contains_key(q) && fmap[q] == s2.players@[q]
                    } by {
                        let q = rm.players@[j];
                        assert(!members.contains(q));
                        assert(!members.take(members.len() as int).contains(q));
                    }
                    lemma_count_agree(rm.players@, s2.players@, fmap, |x: UserData| x.in_game);
                    lemma_count_agree(rm.players@, s2.players@, fmap, |x: UserData| x.obj.is_host);
                }
            }
            assert forall|r2: IdType| #[trigger] self.pub_rooms@.contains(r2) implies (
            self.pub_rooms_available@.contains(r2) <==> self.rooms@[r2].state
                == RoomState::Matchmaking && self.rooms@[r2].players@.len() < MAX_PLAYERS_PER_ROOM)
                by {
                if r2 == rid {
                    assert(!self.pub_rooms_available@.contains(rid));
                } else {
                    assert(self.rooms@[r2] == s2.rooms@[r2]);
                }
            }
            // the directive trail of the straggler-free start
            if s0.players@.contains_key(id) && s0.players@[id].room == Some(rid)
                && s0.rooms@[rid].in_game_count == 0 && s0.rooms@[rid].state
                == RoomState::Matchmaking && s0.rooms@[rid].players@.len() >= 2 {
                assert(in_game_count_of(s0.rooms@[rid].players@, s0.players@) == 0);
                assert forall|j: int|
                    0 <= j < members.len() implies !(#[trigger] s0.players@.contains_key(
                    members[j],
                ) && s0.players@[members[j]].in_game) by {
                    if s0.players@.contains_key(members[j]) && s0.players@[members[j]].in_game {
                        lemma_count_member_pos(
                            s0.rooms@[rid].players@,
                            s0.players@,
                            members[j],
                            |x: UserData| x.in_game,
                        );
                    }
                }
                lemma_all_directives_agree(members, map_a, fmap, ev);
                assert(out@ =~= out1 + all_directives(members, fmap, ev));
                assert(bid@ == dec_chars_of(rid as nat));
            }
        }
    }

    /// Fan a relay payload out to the sender's room: the payload, which must
    /// open with a brace, is rewritten to carry the sender's wire id and
    /// pushed to every in-game member other than the sender. Nothing in the
    /// registries changes. Empty or braceless payloads and roomless senders
    /// are dropped.
    pub fn send_relay_mex(&mut self, sender_id: IdType, data: &str, out: &mut Vec<Directive>)
        requires
            old(self).wf(),
            old(self).players@.contains_key(sender_id),
        ensures
            final(self).wf(),
            st_eq(*final(self), *old(self)),
            (data@.len() == 0 || data@[0] != '{' || old(self).players@[sender_id].room is None)
                ==> final(out)@ == old(out)@,
            (data@.len() > 0 && data@[0] == '{') ==> (old(self).players@[sender_id].room matches Some(
                rid,
            ) ==> exists|raw: String|
                (#[trigger] raw@) == crate::codec::relay_chars(sender_id, data@) && final(out)@
                    == old(out)@ + relay_directives(
                    old(self).rooms@[rid].players@,
                    old(self).players@,
                    sender_id,
                    raw,
                )),
    {
        if data.is_empty() {
            return ;
        }
        let room_id = match self.players.get(&sender_id).unwrap().room {
            None => {
                return ;
            },
            Some(r) => r,
        };
        let raw = match crate::codec::build_relay_payload(sender_id, data) {
            None => {
                return ;
            },
            Some(r) => r,
        };
        let members = self.rooms.get(&room_id).unwrap();
        broadcast_relay_room(&self.players, &members.players, sender_id, &raw, out);
    }

    /// A player reports its game over: the room returns to matchmaking, the
    /// player's in-game flag is cleared and counted off, a public room with a
    /// free seat re-enters the available pool, and the member list is
    /// returned. A roomless or not-in-game caller gets nothing and changes
    /// nothing.
    pub fn game_end_request(&mut self, id: IdType) -> (r: Option<GameEndAck>)
        requires
            old(self).wf(),
            old(self).players@.contains_key(id),
        ensures
            final(self).wf(),
            r is None <==> (old(self).players@[id].room is None || !old(self).players@[id].in_game),
            r is None ==> st_eq(*final(self), *old(self)),
            r matches Some(ack) ==> (old(self).players@[id].room matches Some(rid) ==> {
                let oroom = old(self).rooms@[rid];
                &&& final(self).players@ == old(self).players@.insert(
                    id,
                    UserData {
                        addr: old(self).players@[id].addr,
                        obj: old(self).players@[id].obj,
                        room: Some(rid),
                        in_game: false,
                    },
                )
                &&& final(self).rooms@.contains_key(rid)
                &&& final(self).rooms@[rid].state == RoomState::Matchmaking
                &&& final(self).rooms@[rid].players@ == oroom.players@
                &&& final(self).rooms@[rid].in_game_count == oroom.in_game_count - 1
                &&& final(self).rooms@[rid].start_countdown_handle == oroom.start_countdown_handle
                &&& (forall|r2: IdType|
                    r2 != rid ==> #[trigger] final(self).rooms@.contains_key(r2) == old(self).rooms@.contains_key(r2) && (old(self).rooms@.contains_key(r2) ==> final(self).rooms@[r2] == old(self).rooms@[r2]))
                &&& final(self).pub_rooms@ == old(self).pub_rooms@
                &&& final(self).pub_rooms_available@ == (if old(self).pub_rooms@.contains(rid)
                    && oroom.players@.len() < MAX_PLAYERS_PER_ROOM && !old(self).pub_rooms_available@.contains(rid) {
                    old(self).pub_rooms_available@.push(rid)
                } else {
                    old(self).pub_rooms_available@
                })
                &&& final(self).next_handle == old(self).next_handle
                &&& ack.0@ == player_objs(oroom.players@, final(self).players@)
            }),
    {
        let ghost s0 = *old(self);
        let (room_id, was_in_game) = {
            let u = self.players.get(&id).unwrap();
            match u.room {
                None => {
                    return None;
                },
                Some(r) => (r, u.in_game),
            }
        };
        if !was_in_game {
            return None;
        }
        proof {
            assert(s0.rooms@.contains_key(room_id));
            assert(room_wf(room_id, s0.rooms@[room_id], s0.players@));
        }
        let mut u = self.players.remove(&id).unwrap();
        u.in_game = false;
        self.players.insert(id, u);
        let ghost fmap = self.players@;
        let mut room = self.rooms.remove(&room_id).unwrap();
        let ghost old_members = room.players@;
        proof {
            assert(fmap =~= s0.players@.insert(id, fmap[id]));
            assert(old_members.contains(id)) by {
                assert(s0.players@[id].room == Some(room_id));
            }
            lemma_count_member_pos(old_members, s0.players@, id, |x: UserData| x.in_game);
            lemma_count_update_member(old_members, s0.players@, id, fmap[id], |x: UserData| x.in_game);
            lemma_count_update_member(
                old_members,
                s0.players@,
                id,
                fmap[id],
                |x: UserData| x.obj.is_host,
            );
            assert(in_game_count_of(old_members, fmap) == in_game_count_of(
                old_members,
                s0.players@,
            ) - 1);
            assert(host_count_of(old_members, fmap) == host_count_of(old_members, s0.players@));
        }
        room.state = RoomState::Matchmaking;
        room.in_game_count = room.in_game_count - 1;
        let push_avail = room.players.len() < MAX_PLAYERS_PER_ROOM && vec_contains_id(
            &self.pub_rooms,
            room_id,
        ) && !vec_contains_id(&self.pub_rooms_available, room_id);
        if push_avail {
            proof {
                lemma_push_props(s0.pub_rooms_available@, room_id);
            }
            self.pub_rooms_available.push(room_id);
        }
        let list = collect_players(&self.players, &room.players);
        let ghost kept_room = room;
        self.rooms.insert(room_id, room);
        proof {
            assert(self.rooms@ =~= s0.rooms@.insert(room_id, kept_room));
            assert forall|q: IdType| self.players@.contains_key(q) implies player_wf(
                q,
                #[trigger] self.players@[q],
                self.rooms@,
            ) by {
                assert(player_wf(q, s0.players@[q], s0.rooms@));
            }
            assert forall|r2: IdType| self.rooms@.contains_key(r2) implies room_wf(
                r2,
                #[trigger] self.rooms@[r2],
                self.players@,
            ) by {
                let rm = self.rooms@[r2];
                if r2 != room_id {
                    assert(room_wf(r2, rm, s0.players@));
                    assert forall|j: int| 0 <= j < rm.players@.len() implies #[trigger] rm.players@[j]
                        != id by {
                        assert(s0.players@[rm.players@[j]].room == Some(r2));
                    }
                    lemma_count_agree(rm.players@, s0.players@, fmap, |x: UserData| x.in_game);
                    lemma_count_agree(rm.players@, s0.players@, fmap, |x: UserData| x.obj.is_host);
                }
            }
            assert forall|r2: IdType| #[trigger] self.pub_rooms@.contains(r2) implies (
            self.pub_rooms_available@.contains(r2) <==> self.rooms@[r2].state
                == RoomState::Matchmaking && self.rooms@[r2].players@.len() < MAX_PLAYERS_PER_ROOM)
                by {
                if r2 == room_id {
                    if !push_avail && kept_room.players@.len() < MAX_PLAYERS_PER_ROOM {
                        assert(s0.pub_rooms_available@.contains(room_id));
                    }
                } else {
                    assert(self.rooms@[r2] == s0.rooms@[r2]);
                    if push_avail {
                        assert(self.pub_rooms_available@.contains(r2)
                            == s0.pub_rooms_available@.contains(r2));
                    }
                }
            }
            assert forall|y: IdType| #[trigger] self.pub_rooms_available@.contains(y) implies self.pub_rooms@.contains(
                y,
            ) by {
                if push_avail && y != room_id {
                    assert(s0.pub_rooms_available@.contains(y));
                }
            }
        }
        Some(GameEndAck(list))
    }

    /// Inserting or replacing a roomless, non-host, non-in-game record keeps
    /// the registries well formed, because such a player is a member of no
    /// room.
    proof fn lemma_wf_after_roomless_update(self, prev: ServerActor, k: IdType)
        requires
            prev.wf(),
            self.rooms@ == prev.rooms@,
            self.pub_rooms@ == prev.pub_rooms@,
            self.pub_rooms_available@ == prev.pub_rooms_available@,
            prev.players@.contains_key(k) ==> prev.players@[k].room is None,
            self.players@.contains_key(k),
            self.players@[k].room is None,
            !self.players@[k].obj.is_host,
            !self.players@[k].in_game,
            self.players@[k].obj.id == SerId(k),
            forall|q: IdType|
                q != k ==> #[trigger] self.players@.contains_key(q)
                    == prev.players@.contains_key(q) && (prev.players@.contains_key(q)
                    ==> self.players@[q] == prev.players@[q]),
        ensures
            self.wf(),
    {
        assert forall|rid: IdType| self.rooms@.contains_key(rid) implies room_wf(
            rid,
            self.rooms@[rid],
            self.players@,
        ) by {
            let room = self.rooms@[rid];
            assert(room_wf(rid, room, prev.players@));
            assert(forall|j: int| 0 <= j < room.players@.len() ==> #[trigger] room.players@[j] != k)
                by {
                if exists|j: int| 0 <= j < room.players@.len() && #[trigger] room.players@[j] == k {
                    let j = choose|j: int|
                        0 <= j < room.players@.len() && #[trigger] room.players@[j] == k;
                    assert(prev.players@[k].room == Some(rid));
                }
            }
            lemma_count_agree(room.players@, prev.players@, self.players@, |u: UserData| u.in_game);
            lemma_count_agree(
                room.players@,
                prev.players@,
                self.players@,
                |u: UserData| u.obj.is_host,
            );
        }
    }
}

/// The two coordinator states hold the same registries.
pub open spec fn st_eq(a: ServerActor, b: ServerActor) -> bool {
    &&& a.players@ == b.players@
    &&& a.rooms@ == b.rooms@
    &&& a.pub_rooms@ == b.pub_rooms@
    &&& a.pub_rooms_available@ == b.pub_rooms_available@
    &&& a.next_handle == b.next_handle
}

/// A member that the predicate accepts makes the count positive.
pub proof fn lemma_count_member_pos(
    members: Seq<IdType>,
    players: Map<IdType, UserData>,
    k: IdType,
    p: spec_fn(UserData) -> bool,
)
    requires
        members.no_duplicates(),
        members.contains(k),
        players.contains_key(k),
        p(players[k]),
    ensures
        count_members(members, players, p) >= 1,
{
    lemma_count_remove_value(members, players, k, p);
}

/// Removing a value from a duplicate-free sequence keeps it duplicate-free
/// and removes exactly that value.
pub proof fn lemma_remove_value_props(s: Seq<IdType>, x: IdType)
    requires
        s.no_duplicates(),
    ensures
        s.remove_value(x).no_duplicates(),
        forall|y: IdType| #[trigger] s.remove_value(x).contains(y) <==> (s.contains(y) && y != x),
        s.contains(x) ==> s.remove_value(x).len() == s.len() - 1,
        !s.contains(x) ==> s.remove_value(x) == s,
{
    s.index_of_first_ensures(x);
    let r = s.remove_value(x);
    if s.contains(x) {
        let i = s.index_of_first(x)->Some_0;
        assert(r == s.remove(i));
        assert(forall|j: int| 0 <= j < i ==> r[j] == s[j]);
        assert(forall|j: int| i <= j < r.len() ==> r[j] == s[j + 1]);
        assert(r.no_duplicates()) by {
            assert forall|a: int, b: int| 0 <= a < b < r.len() implies r[a] != r[b] by {
                if b < i {
                } else if a >= i {
                    assert(r[a] == s[a + 1] && r[b] == s[b + 1]);
                } else {
                    assert(r[a] == s[a] && r[b] == s[b + 1]);
                }
            }
        }
        assert forall|y: IdType| #[trigger] r.contains(y) <==> (s.contains(y) && y != x) by {
            if r.contains(y) {
                let j = choose|j: int| 0 <= j < r.len() && r[j] == y;
                if j < i {
                    assert(s[j] == y);
                } else {
                    assert(s[j + 1] == y);
                }
                assert(s.contains(y));
                if y == x {
                    let jj = if j < i {
                        j
                    } else {
                        j + 1
                    };
                    assert(s[jj] == x && s[i] == x && jj != i);
                }
            }
            if s.contains(y) && y != x {
                let j = choose|j: int| 0 <= j < s.len() && s[j] == y;
                assert(j != i);
                if j < i {
                    assert(r[j] == y);
                } else {
                    assert(r[j - 1] == y);
                }
            }
        }
    }
}

/// Appending a value that a duplicate-free sequence lacks keeps it
/// duplicate-free and adds exactly that value.
pub proof fn lemma_push_props(s: Seq<IdType>, x: IdType)
    requires
        s.no_duplicates(),
        !s.contains(x),
    ensures
        s.push(x).no_duplicates(),
        forall|y: IdType| #[trigger] s.push(x).contains(y) <==> (s.contains(y) || y == x),
{
    let t = s.push(x);
    assert(t.no_duplicates()) by {
        assert forall|a: int, b: int| 0 <= a < b < t.len() implies t[a] != t[b] by {
            if b == t.len() - 1 {
                assert(t[a] == s[a]);
                assert(s.contains(s[a]));
            }
        }
    }
    assert forall|y: IdType| #[trigger] t.contains(y) implies (s.contains(y) || y == x) by {
        let i = choose|i: int| 0 <= i < t.len() && t[i] == y;
        if i < s.len() {
            assert(s[i] == y);
        }
    }
    assert forall|y: IdType| (s.contains(y) || y == x) implies #[trigger] t.contains(y) by {
        if s.contains(y) {
            let i = choose|i: int| 0 <= i < s.len() && s[i] == y;
            assert(t[i] == y);
        } else {
            assert(t[s.len() as int] == y);
        }
    }
}

/// With no players registered, no rooms and no pool entries can exist: since
/// every disconnect removes its player and the invariants forbid empty rooms
/// and dangling indices, a run that ends with every session disconnected
/// leaves all registries empty.
pub proof fn lemma_registries_empty_without_players(s: ServerActor)
    requires
        s.wf(),
        s.players@.dom() =~= Set::<IdType>::empty(),
    ensures
        s.rooms@.dom() =~= Set::<IdType>::empty(),
        s.pub_rooms@.len() == 0,
        s.pub_rooms_available@.len() == 0,
{
    assert forall|rid: IdType| !(#[trigger] s.rooms@.dom().contains(rid)) by {
        if s.rooms@.dom().contains(rid) {
            assert(room_wf(rid, s.rooms@[rid], s.players@));
            let m = s.rooms@[rid].players@[0];
            assert(s.players@.contains_key(m));
            assert(s.players@.dom().contains(m));
        }
    }
    if s.pub_rooms@.len() > 0 {
        assert(s.pub_rooms@.contains(s.pub_rooms@[0]));
        assert(s.rooms@.dom().contains(s.pub_rooms@[0]));
    }
    if s.pub_rooms_available@.len() > 0 {
        assert(s.pub_rooms_available@.contains(s.pub_rooms_available@[0]));
        assert(s.pub_rooms@.contains(s.pub_rooms_available@[0]));
        assert(s.rooms@.dom().contains(s.pub_rooms_available@[0]));
    }
}

/// Relies on rand::random through the thread-local generator: draws one
/// machine word. Nothing is promised of the value.
#[verifier::external_body]
fn random_id() -> IdType {
    rand::random()
}

/// Pick an id that is free in the given registry: rejection sampling against
/// the map, falling back to a linear scan, which must succeed because the
/// registry holds fewer ids than there are values.
fn alloc_fresh_id<V>(m: &HashMap<IdType, V>) -> (r: IdType)
    ensures
        !m@.contains_key(r),
{
    let mut tries: usize = 0;
    while tries < 64
        invariant
            tries <= 64,
        decreases 64 - tries,
    {
        let c = random_id();
        if !m.contains_key(&c) {
            return c;
        }
        tries += 1;
    }
    let n = m.len();
    let mut c: u64 = 0;
    let ghost mut seen: Set<IdType> = Set::empty();
    proof {
        assert(seen.len() == 0) by {
            assert(seen =~= Set::empty());
        }
    }
    while m.contains_key(&c)
        invariant
            n == m@.dom().len(),
            seen.finite(),
            seen.len() == c,
            seen.subset_of(m@.dom()),
            forall|x: IdType| seen.contains(x) <==> x < c,
        decreases m@.dom().len() - c,
    {
        proof {
            assert(m@.contains_key(c));
            assert(!seen.contains(c));
            seen = seen.insert(c);
            vstd::set_lib::lemma_len_subset(seen, m@.dom());
            assert(seen.len() == c + 1);
        }
        c = c + 1;
    }
    c
}

/// Directives of a lobby broadcast: one event per member that is neither
/// skipped nor in-game, in member order.
pub open spec fn broadcast_directives(
    members: Seq<IdType>,
    players: Map<IdType, UserData>,
    event: OutEvent,
    skip: Option<IdType>,
) -> Seq<Directive>
    decreases members.len(),
{
    if members.len() == 0 {
        Seq::empty()
    } else {
        let rest = broadcast_directives(members.drop_last(), players, event, skip);
        let m = members.last();
        if skip != Some(m) && players.contains_key(m) && !players[m].in_game {
            rest.push(Directive::SendEvent { addr: players[m].addr, event })
        } else {
            rest
        }
    }
}

/// Directives of a leave broadcast: in-game members get the in-game variant,
/// the others the lobby event, in member order.
pub open spec fn leave_directives(
    members: Seq<IdType>,
    players: Map<IdType, UserData>,
    left: SerId,
    new_host: Option<SerId>,
) -> Seq<Directive>
    decreases members.len(),
{
    if members.len() == 0 {
        Seq::empty()
    } else {
        let rest = leave_directives(members.drop_last(), players, left, new_host);
        let m = members.last();
        if players.contains_key(m) {
            if players[m].in_game {
                rest.push(
                    Directive::SendGameEvent {
                        addr: players[m].addr,
                        event: OutGameEvent::PlayerLeft { player: left, new_host },
                    },
                )
            } else {
                rest.push(
                    Directive::SendEvent {
                        addr: players[m].addr,
                        event: OutEvent::EventPlayerLeft { player: left, new_host },
                    },
                )
            }
        } else {
            rest
        }
    }
}

/// Directives of a start broadcast: one event per member, in member order.
pub open spec fn all_directives(
    members: Seq<IdType>,
    players: Map<IdType, UserData>,
    event: OutEvent,
) -> Seq<Directive>
    decreases members.len(),
{
    if members.len() == 0 {
        Seq::empty()
    } else {
        let rest = all_directives(members.drop_last(), players, event);
        let m = members.last();
        if players.contains_key(m) {
            rest.push(Directive::SendEvent { addr: players[m].addr, event })
        } else {
            rest
        }
    }
}

/// Directives of a relay fan-out: one raw payload per in-game member other
/// than the sender, in member order.
pub open spec fn relay_directives(
    members: Seq<IdType>,
    players: Map<IdType, UserData>,
    sender: IdType,
    data: String,
) -> Seq<Directive>
    decreases members.len(),
{
    if members.len() == 0 {
        Seq::empty()
    } else {
        let rest = relay_directives(members.drop_last(), players, sender, data);
        let m = members.last();
        if m != sender && players.contains_key(m) && players[m].in_game {
            rest.push(Directive::SendRelay { addr: players[m].addr, data })
        } else {
            rest
        }
    }
}

/// Append a lobby broadcast to `out`: the event goes to every member that is
/// neither the skipped player nor in-game.
fn broadcast_event_room(
    players: &HashMap<IdType, UserData>,
    members: &Vec<IdType>,
    event: &OutEvent,
    skip_id: Option<IdType>,
    out: &mut Vec<Directive>,
)
    ensures
        final(out)@ == old(out)@ + broadcast_directives(members@, players@, *event, skip_id),
{
    let ghost base = old(out)@;
    let mut i: usize = 0;
    while i < members.len()
        invariant
            0 <= i <= members@.len(),
            out@ == base + broadcast_directives(members@.take(i as int), players@, *event, skip_id),
        decreases members@.len() - i,
    {
        let m = members[i];
        let skip_this = match skip_id {
            Some(s) => s == m,
            None => false,
        };
        if !skip_this {
            match players.get(&m) {
                Some(u) => {
                    if !u.in_game {
                        out.push(Directive::SendEvent { addr: u.addr, event: event.clone() });
                    }
                },
                None => {},
            }
        }
        proof {
            assert(members@.take(i + 1 as int).drop_last() =~= members@.take(i as int));
            assert(members@.take(i + 1 as int).last() == members@[i as int]);
        }
        i += 1;
    }
    proof {
        assert(members@.take(members@.len() as int) =~= members@);
    }
}

/// Append a leave broadcast to `out`: in-game members get the in-game
/// variant, the others the lobby event.
fn broadcast_leave_room(
    players: &HashMap<IdType, UserData>,
    members: &Vec<IdType>,
    left: SerId,
    new_host: Option<SerId>,
    out: &mut Vec<Directive>,
)
    ensures
        final(out)@ == old(out)@ + leave_directives(members@, players@, left, new_host),
{
    let ghost base = old(out)@;
    let mut i: usize = 0;
    while i < members.len()
        invariant
            0 <= i <= members@.len(),
            out@ == base + leave_directives(members@.take(i as int), players@, left, new_host),
        decreases members@.len() - i,
    {
        let m = members[i];
        match players.get(&m) {
            Some(u) => {
                if u.in_game {
                    out.push(
                        Directive::SendGameEvent {
                            addr: u.addr,
                            event: OutGameEvent::PlayerLeft { player: left, new_host },
                        },
                    );
                } else {
                    out.push(
                        Directive::SendEvent {
                            addr: u.addr,
                            event: OutEvent::EventPlayerLeft { player: left, new_host },
                        },
                    );
                }
            },
            None => {},
        }
        proof {
            assert(members@.take(i + 1 as int).drop_last() =~= members@.take(i as int));
            assert(members@.take(i + 1 as int).last() == members@[i as int]);
        }
        i += 1;
    }
    proof {
        assert(members@.take(members@.len() as int) =~= members@);
    }
}

/// The public player objects of the given members, in member order.
pub open spec fn player_objs(members: Seq<IdType>, players: Map<IdType, UserData>) -> Seq<
    PlayerObject,
> {
    members.map_values(|m: IdType| players[m].obj)
}

/// Clone the public objects of the given members, in member order.
fn collect_players(players: &HashMap<IdType, UserData>, ids: &Vec<IdType>) -> (r: Vec<
    PlayerObject,
>)
    requires
        forall|i: int| 0 <= i < ids@.len() ==> players@.contains_key(#[trigger] ids@[i]),
    ensures
        r@ == player_objs(ids@, players@),
{
    let mut r: Vec<PlayerObject> = Vec::new();
    let mut i: usize = 0;
    while i < ids.len()
        invariant
            0 <= i <= ids@.len(),
            forall|j: int| 0 <= j < ids@.len() ==> players@.contains_key(#[trigger] ids@[j]),
            r@ == player_objs(ids@.take(i as int), players@),
        decreases ids@.len() - i,
    {
        let m = ids[i];
        r.push(players.get(&m).unwrap().obj.clone());
        proof {
            assert(r@ =~= player_objs(ids@.take(i + 1 as int), players@));
        }
        i += 1;
    }
    proof {
        assert(ids@.take(ids@.len() as int) =~= ids@);
    }
    r
}

/// Two player maps that agree on membership and mailbox tokens of every
/// member give the same start broadcast.
pub proof fn lemma_all_directives_agree(
    members: Seq<IdType>,
    m1: Map<IdType, UserData>,
    m2: Map<IdType, UserData>,
    event: OutEvent,
)
    requires
        forall|i: int|
            0 <= i < members.len() ==> {
                let k = #[trigger] members[i];
                m1.contains_key(k) == m2.contains_key(k) && (m1.contains_key(k) ==> m1[k].addr
                    == m2[k].addr)
            },
    ensures
        all_directives(members, m1, event) == all_directives(members, m2, event),
    decreases members.len(),
{
    if members.len() > 0 {
        assert(members.last() == members[members.len() - 1]);
        assert(forall|i: int| 0 <= i < members.len() - 1 ==> members.drop_last()[i] == members[i]);
        lemma_all_directives_agree(members.drop_last(), m1, m2, event);
    }
}

/// Append a start broadcast to `out`: the event goes to every member.
fn broadcast_all_room(
    players: &HashMap<IdType, UserData>,
    members: &Vec<IdType>,
    event: &OutEvent,
    out: &mut Vec<Directive>,
)
    ensures
        final(out)@ == old(out)@ + all_directives(members@, players@, *event),
{
    let ghost base = old(out)@;
    let mut i: usize = 0;
    while i < members.len()
        invariant
            0 <= i <= members@.len(),
            out@ == base + all_directives(members@.take(i as int), players@, *event),
        decreases members@.len() - i,
    {
        let m = members[i];
        match players.get(&m) {
            Some(u) => {
                out.push(Directive::SendEvent { addr: u.addr, event: event.clone() });
            },
            None => {},
        }
        proof {
            assert(members@.take(i + 1 as int).drop_last() =~= members@.take(i as int));
            assert(members@.take(i + 1 as int).last() == members@[i as int]);
        }
        i += 1;
    }
    proof {
        assert(members@.take(members@.len() as int) =~= members@);
    }
}

/// Append a relay fan-out to `out`: the raw payload goes to every in-game
/// member other than the sender.
fn broadcast_relay_room(
    players: &HashMap<IdType, UserData>,
    members: &Vec<IdType>,
    sender: IdType,
    raw: &String,
    out: &mut Vec<Directive>,
)
    ensures
        final(out)@ == old(out)@ + relay_directives(members@, players@, sender, *raw),
{
    let ghost base = old(out)@;
    let mut i: usize = 0;
    while i < members.len()
        invariant
            0 <= i <= members@.len(),
            out@ == base + relay_directives(members@.take(i as int), players@, sender, *raw),
        decreases members@.len() - i,
    {
        let m = members[i];
        if m != sender {
            match players.get(&m) {
                Some(u) => {
                    if u.in_game {
                        out.push(Directive::SendRelay { addr: u.addr, data: raw.clone() });
                    }
                },
                None => {},
            }
        }
        proof {
            assert(members@.take(i + 1 as int).drop_last() =~= members@.take(i as int));
            assert(members@.take(i + 1 as int).last() == members@[i as int]);
        }
        i += 1;
    }
    proof {
        assert(members@.take(members@.len() as int) =~= members@);
    }
}

/// Whether `x` occurs in `v`.
fn vec_contains_id(v: &Vec<IdType>, x: IdType) -> (b: bool)
    ensures
        b == v@.contains(x),
{
    let mut i: usize = 0;
    while i < v.len()
        invariant
            0 <= i <= v@.len(),
            forall|j: int| 0 <= j < i ==> v@[j] != x,
        decreases v@.len() - i,
    {
        if v[i] == x {
            return true;
        }
        i += 1;
    }
    false
}

/// Remove the first occurrence of `x` from `v`, if any.
fn vec_remove_id(v: &mut Vec<IdType>, x: IdType)
    ensures
        final(v)@ == old(v)@.remove_value(x),
{
    let ghost orig = old(v)@;
    let mut i: usize = 0;
    while i < v.len()
        invariant
            orig == old(v)@,
            v@ == orig,
            0 <= i <= v@.len(),
            forall|j: int| 0 <= j < i ==> v@[j] != x,
        decreases v@.len() - i,
    {
        if v[i] == x {
            proof {
                assert(orig[i as int] == x);
            }
            v.remove(i);
            proof {
                orig.index_of_first_ensures(x);
                let idx = orig.index_of_first(x)->Some_0;
                assert(idx == i) by {
                    if idx < i {
                        assert(orig[idx] == x);
                    } else if idx > i {
                        assert(orig[i as int] != x);
                    }
                }
                assert(v@ =~= orig.remove_value(x));
            }
            return ;
        }
        i += 1;
    }
    proof {
        assert(!orig.contains(x));
        orig.index_of_first_ensures(x);
        assert(v@ =~= orig.remove_value(x));
    }
}

} // verus!
