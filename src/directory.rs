//! The fleet of live rooms, keyed by room id, and the cross-room effects
//! that go through it: a player who joins one room is taken out of any
//! other room they were bound to.
use vstd::prelude::*;
use crate::config::GameConfig;
use crate::game::GameEvent;
use crate::message::ErrorCode;
use crate::registry::{stale_room, ConnectionRegistry};
use crate::room::{room_joined, room_left, JoinOutcome, Room};

verus! {

/// Some room in `rooms` has id `id`.
pub open spec fn has_room(rooms: Seq<Room>, id: Seq<char>) -> bool {
    exists|i: int| 0 <= i < rooms.len() && (#[trigger] rooms[i]).id@ == id
}

/// The room a player bound to `previous` must leave on joining `room_id`:
/// the previous room, when it is another one.
pub open spec fn stale_binding(previous: Option<String>, room_id: Seq<char>) -> Option<String> {
    match previous {
        Some(p) => if p@ != room_id {
            Some(p)
        } else {
            None
        },
        None => None,
    }
}

/// `id` names the room a player bound to `previous` must leave on joining
/// `room_id`.
pub open spec fn is_stale(previous: Option<String>, room_id: Seq<char>, id: Seq<char>) -> bool {
    stale_binding(previous, room_id) matches Some(st) && st@ == id
}

/// The outcome of the join itself, without the stale room.
pub open spec fn join_outcome(r: Result<(JoinOutcome, Option<String>), ErrorCode>) -> Result<
    JoinOutcome,
    ErrorCode,
> {
    match r {
        Ok((o, _)) => Ok(o),
        Err(e) => Err(e),
    }
}

/// All live rooms and the binding of players to rooms.
pub struct RoomDirectory {
    pub rooms: Vec<Room>,
    pub registry: ConnectionRegistry,
}

/// Index of the room with id `id`, if any.
fn find_room(rooms: &Vec<Room>, id: &String) -> (r: Option<usize>)
    ensures
        match r {
            Some(i) => i < rooms@.len() && rooms@[i as int].id@ == id@,
            None => !has_room(rooms@, id@),
        },
{
    let mut i: usize = 0;
    while i < rooms.len()
        invariant
            i <= rooms@.len(),
            forall|j: int| 0 <= j < i ==> (#[trigger] rooms@[j]).id@ != id@,
        decreases rooms.len() - i,
    {
        if rooms[i].id == *id {
            return Some(i);
        }
        i = i + 1;
    }
    None
}

impl RoomDirectory {
    /// Room ids are unique, every room and the registry are well formed.
    pub open spec fn wf(&self) -> bool {
        &&& forall|i: int, j: int|
            0 <= i < self.rooms@.len() && 0 <= j < self.rooms@.len() && i != j
                ==> (#[trigger] self.rooms@[i]).id@ != (#[trigger] self.rooms@[j]).id@
        &&& forall|i: int| 0 <= i < self.rooms@.len() ==> (#[trigger] self.rooms@[i]).wf()
        &&& self.registry.wf()
    }

    /// No rooms, nobody bound.
    pub fn new() -> (r: RoomDirectory)
        ensures
            r.wf(),
            r.rooms@.len() == 0,
    {
        RoomDirectory { rooms: Vec::new(), registry: ConnectionRegistry::new() }
    }

    /// Whether a room with id `room_id` is live.
    pub fn contains(&self, room_id: &String) -> (r: bool)
        ensures
            r == has_room(self.rooms@, room_id@),
    {
        find_room(&self.rooms, room_id).is_some()
    }

    /// Opens an empty room with id `room_id`; refused when that id is taken.
    pub fn create_room(
        &mut self,
        room_id: String,
        host: String,
        config: GameConfig,
        max_idle_secs: u64,
        now_ms: i64,
    ) -> (r: Result<(), ErrorCode>)
        requires
            old(self).wf(),
        ensures
            final(self).wf(),
            has_room(old(self).rooms@, room_id@) ==> r == Err::<(), ErrorCode>(
                ErrorCode::InvalidAction,
            ) && *final(self) == *old(self),
            !has_room(old(self).rooms@, room_id@) ==> r is Ok && final(self).rooms@.len()
                == old(self).rooms@.len() + 1 && final(self).rooms@.drop_last() == old(self).rooms@
                && final(self).rooms@.last().id == room_id && final(self).rooms@.last().player_order@.len()
                == 0,
    {
        if find_room(&self.rooms, &room_id).is_some() {
            return Err(ErrorCode::InvalidAction);
        }
        let ghost before = self.rooms@;
        let room = Room::new(room_id, host, config, max_idle_secs, now_ms);
        self.rooms.push(room);
        proof {
            let rs = self.rooms@;
            assert(rs.drop_last() =~= before);
            assert forall|i: int, j: int|
                0 <= i < rs.len() && 0 <= j < rs.len() && i != j implies (#[trigger] rs[i]).id@
                != (#[trigger] rs[j]).id@ by {
                if i == rs.len() - 1 {
                    assert(rs[j] == before[j]);
                } else if j == rs.len() - 1 {
                    assert(rs[i] == before[i]);
                } else {
                    assert(rs[i] == before[i] && rs[j] == before[j]);
                }
            }
            assert forall|i: int| 0 <= i < rs.len() implies (#[trigger] rs[i]).wf() by {
                if i < rs.len() - 1 {
                    assert(rs[i] == before[i]);
                }
            }
        }
        Ok(())
    }

    /// Closes the room with id `room_id`. Returns whether it was live.
    pub fn remove_room(&mut self, room_id: &String) -> (r: bool)
        requires
            old(self).wf(),
        ensures
            final(self).wf(),
            r == has_room(old(self).rooms@, room_id@),
            !has_room(final(self).rooms@, room_id@),
            forall|x: Seq<char>| x != room_id@ ==> #[trigger] has_room(final(self).rooms@, x)
                == has_room(old(self).rooms@, x),
    {
        match find_room(&self.rooms, room_id) {
            Some(k) => {
                let ghost before = self.rooms@;
                self.rooms.remove(k);
                proof {
                    let rs = self.rooms@;
                    assert forall|i: int, j: int|
                        0 <= i < rs.len() && 0 <= j < rs.len() && i != j implies (#[trigger] rs[i]).id@
                        != (#[trigger] rs[j]).id@ by {
                        let a = if i < k { i } else { i + 1 };
                        let b = if j < k { j } else { j + 1 };
                        assert(rs[i] == before[a] && rs[j] == before[b]);
                    }
                    assert forall|i: int| 0 <= i < rs.len() implies (#[trigger] rs[i]).wf() by {
                        let a = if i < k { i } else { i + 1 };
                        assert(rs[i] == before[a]);
                    }
                    assert forall|x: Seq<char>| #[trigger] has_room(rs, x) <==> has_room(before, x)
                        && x != room_id@ by {
                        if has_room(rs, x) {
                            let i = choose|i: int| 0 <= i < rs.len() && (#[trigger] rs[i]).id@ == x;
                            let a = if i < k { i } else { i + 1 };
                            assert(rs[i] == before[a]);
                        }
                        if has_room(before, x) && x != room_id@ {
                            let a = choose|a: int| 0 <= a < before.len() && (#[trigger] before[a]).id@ == x;
                            let i = if a < k { a } else { a - 1 };
                            assert(rs[i] == before[a]);
                        }
                    }
                }
                true
            },
            None => false,
        }
    }

    /// Takes `player_id` out of room `room_id` on behalf of another room
    /// they joined: the room, if live, leaves it as [`Room::leave`] does
    /// (see [`room_left`]). Every other room stays as it was.
    pub fn evict(&mut self, player_id: &String, room_id: &String, now_ms: i64)
        requires
            old(self).wf(),
        ensures
            final(self).wf(),
            final(self).rooms@.len() == old(self).rooms@.len(),
            forall|i: int| 0 <= i < final(self).rooms@.len() ==> (#[trigger] final(self).rooms@[i]).id
                == old(self).rooms@[i].id,
            forall|i: int|
                0 <= i < old(self).rooms@.len() && old(self).rooms@[i].id@ == room_id@ ==> exists|
                    r: Result<Vec<GameEvent>, ErrorCode>,
                | #[trigger] room_left(old(self).rooms@[i], final(self).rooms@[i], *player_id, now_ms, r),
            forall|i: int|
                0 <= i < old(self).rooms@.len() && old(self).rooms@[i].id@ != room_id@
                    ==> #[trigger] final(self).rooms@[i] == old(self).rooms@[i],
            final(self).registry == old(self).registry,
    {
        match find_room(&self.rooms, room_id) {
            Some(k) => {
                let ghost before = self.rooms@;
                let mut room = self.rooms.remove(k);
                let r = room.leave(player_id.clone(), now_ms);
                let ghost left = room;
                self.rooms.insert(k, room);
                proof {
                    let rs = self.rooms@;
                    assert(rs[k as int] == left);
                    assert(room_left(before[k as int], rs[k as int], *player_id, now_ms, r));
                    assert forall|i: int| 0 <= i < rs.len() implies (#[trigger] rs[i]).id == before[i].id
                        && rs[i].wf() by {
                        if i != k {
                            assert(rs[i] == before[i]);
                        }
                    }
                    assert forall|i: int, j: int|
                        0 <= i < rs.len() && 0 <= j < rs.len() && i != j implies (#[trigger] rs[i]).id@
                        != (#[trigger] rs[j]).id@ by {
                        assert(rs[i].id == before[i].id && rs[j].id == before[j].id);
                    }
                    assert forall|i: int| 0 <= i < before.len() && before[i].id@ != room_id@ implies #[trigger] rs[i]
                        == before[i] by {
                        assert(i != k);
                    }
                    assert forall|i: int| 0 <= i < before.len() && before[i].id@ == room_id@ implies exists|
                        r2: Result<Vec<GameEvent>, ErrorCode>,
                    | #[trigger] room_left(before[i], rs[i], *player_id, now_ms, r2) by {
                        if i != k {
                            assert(before[i].id@ != before[k as int].id@);
                        }
                    }
                }
            },
            None => {
                proof {
                    assert forall|i: int| 0 <= i < self.rooms@.len() && self.rooms@[i].id@ == room_id@ implies exists|
                        r2: Result<Vec<GameEvent>, ErrorCode>,
                    | #[trigger] room_left(self.rooms@[i], self.rooms@[i], *player_id, now_ms, r2) by {
                        assert(has_room(self.rooms@, room_id@));
                    }
                }
            },
        }
    }

    /// `player_id` joins room `room_id`. The player is bound to this room;
    /// when they were bound to another room, they are first taken out of
    /// it (see [`RoomDirectory::evict`]), and that room's id is returned
    /// beside the join's outcome. The join itself is [`Room::join`] on the
    /// room (see [`room_joined`]); all other rooms stay as they were.
    pub fn join_room(&mut self, room_id: &String, player_id: String, name: String, now_ms: i64) -> (r:
        Result<(JoinOutcome, Option<String>), ErrorCode>)
        requires
            old(self).wf(),
        ensures
            final(self).wf(),
            !has_room(old(self).rooms@, room_id@) ==> r == Err::<
                (JoinOutcome, Option<String>),
                ErrorCode,
            >(ErrorCode::RoomNotFound) && *final(self) == *old(self),
            has_room(old(self).rooms@, room_id@) ==> {
                &&& final(self).rooms@.len() == old(self).rooms@.len()
                &&& forall|i: int|
                    0 <= i < old(self).rooms@.len() && old(self).rooms@[i].id@ == room_id@
                        ==> #[trigger] room_joined(
                        old(self).rooms@[i],
                        final(self).rooms@[i],
                        player_id,
                        name,
                        now_ms,
                        join_outcome(r),
                    )
                &&& forall|i: int|
                    0 <= i < old(self).rooms@.len() && is_stale(
                        old(self).registry.room_of(player_id@),
                        room_id@,
                        old(self).rooms@[i].id@,
                    ) ==> exists|
                        rr: Result<Vec<GameEvent>, ErrorCode>,
                    | #[trigger] room_left(old(self).rooms@[i], final(self).rooms@[i], player_id, now_ms, rr)
                &&& forall|i: int|
                    0 <= i < old(self).rooms@.len() && old(self).rooms@[i].id@ != room_id@ && !is_stale(
                        old(self).registry.room_of(player_id@),
                        room_id@,
                        old(self).rooms@[i].id@,
                    ) ==> #[trigger] final(self).rooms@[i] == old(
                        self,
                    ).rooms@[i]
                &&& final(self).registry.room_of(player_id@) == Some(*room_id)
                &&& forall|p: Seq<char>| p != player_id@ ==> #[trigger] final(self).registry.room_of(p)
                    == old(self).registry.room_of(p)
                &&& r matches Ok((_, stale)) ==> stale == stale_binding(
                    old(self).registry.room_of(player_id@),
                    room_id@,
                )
            },
    {
        if find_room(&self.rooms, room_id).is_none() {
            return Err(ErrorCode::RoomNotFound);
        }
        let ghost start = self.rooms@;
        let previous = self.registry.register_connection(player_id.clone(), room_id.clone());
        let stale = stale_room(previous, room_id);
        assert(stale == stale_binding(old(self).registry.room_of(player_id@), room_id@));
        match &stale {
            Some(other) => {
                self.evict(&player_id, other, now_ms);
            },
            None => {},
        }
        let k = match find_room(&self.rooms, room_id) {
            Some(k) => k,
            None => {
                return Err(ErrorCode::RoomNotFound);
            },
        };
        let ghost before = self.rooms@;
        let ghost pid = player_id;
        let ghost pname = name;
        let mut room = self.rooms.remove(k);
        let outcome = room.join(player_id, name, now_ms);
        let ghost joined = room;
        self.rooms.insert(k, room);
        let ghost first = outcome;
        let r = match outcome {
            Ok(o) => Ok((o, stale)),
            Err(e) => Err(e),
        };
        proof {
            let rs = self.rooms@;
            assert(rs[k as int] == joined);
            assert(before[k as int] == old(self).rooms@[k as int]) by {
                if let Some(st) = stale {
                    assert(st@ != room_id@);
                }
            }
            assert forall|i: int| 0 <= i < old(self).rooms@.len() && old(self).rooms@[i].id@ == room_id@ implies #[trigger] room_joined(
                old(self).rooms@[i],
                rs[i],
                pid,
                pname,
                now_ms,
                join_outcome(r),
            ) by {
                assert(join_outcome(r) == first);
                assert(old(self).rooms@[i].id@ == old(self).rooms@[k as int].id@);
                assert(i == k);
            }
            assert forall|i: int| 0 <= i < before.len() && i != k implies #[trigger] rs[i] == before[i] by {}
            assert(start == old(self).rooms@);
            assert forall|i: int|
                0 <= i < start.len() && is_stale(old(self).registry.room_of(pid@), room_id@, start[i].id@)
                implies exists|rr: Result<Vec<GameEvent>, ErrorCode>|
                #[trigger] room_left(start[i], rs[i], pid, now_ms, rr) by {
                assert(start[i].id@ != room_id@);
                assert(i != k);
                assert(rs[i] == before[i]);
            }
            assert forall|i: int|
                0 <= i < start.len() && start[i].id@ != room_id@ && !is_stale(
                    old(self).registry.room_of(pid@),
                    room_id@,
                    start[i].id@,
                ) implies #[trigger] rs[i] == start[i] by {
                assert(i != k);
                assert(rs[i] == before[i]);
            }
            assert forall|i: int| 0 <= i < rs.len() implies (#[trigger] rs[i]).id == before[i].id
                && rs[i].wf() by {
                if i != k {
                    assert(rs[i] == before[i]);
                }
            }
            assert forall|i: int, j: int|
                0 <= i < rs.len() && 0 <= j < rs.len() && i != j implies (#[trigger] rs[i]).id@
                != (#[trigger] rs[j]).id@ by {
                assert(rs[i].id == before[i].id && rs[j].id == before[j].id);
            }
        }
        r
    }
}

} // verus!
