//! One room: the state machine together with the room's registry of
//! players and connections, its lifecycle flags, and what each connected
//! player is shown.
use vstd::prelude::*;
use crate::config::GameConfig;
use crate::game::{
    has_id, has_player, strings_unique, table_of, ChatMessage, GameEvent, GameState, Player, Role,
    find_id,
};
use crate::message::{ErrorCode, GameStateType};

verus! {

/// One row of a state snapshot as one recipient sees it.
#[derive(Debug, Clone)]
pub struct PlayerView {
    pub id: String,
    pub name: String,
    pub is_alive: bool,
    /// Readiness, shown in the lobby only.
    pub is_ready: Option<bool>,
    pub role: Option<Role>,
    pub word: Option<String>,
}

/// Whether `s` discloses every role and word to everyone.
pub open spec fn discloses_all(s: GameState) -> bool {
    s is GameOver
}

/// The readiness shown for `id` in `s`: in the lobby only.
pub open spec fn readiness_in(s: GameState, id: Seq<char>) -> Option<bool> {
    match s {
        GameState::Lobby { ready_players, .. } => Some(has_id(ready_players@, id)),
        _ => None,
    }
}

/// Player `p` as `recipient` sees them in state `s`: role and word only for
/// the recipient's own row, unless the game is over.
pub open spec fn row_for(s: GameState, p: Player, recipient: Seq<char>) -> PlayerView {
    let own = discloses_all(s) || p.id@ == recipient;
    PlayerView {
        id: p.id,
        name: p.name,
        is_alive: p.is_alive,
        is_ready: readiness_in(s, p.id@),
        role: if own {
            p.role
        } else {
            None
        },
        word: if own {
            p.word
        } else {
            None
        },
    }
}

fn copy_word(w: &Option<String>) -> (r: Option<String>)
    ensures
        r == *w,
{
    match w {
        Some(x) => Some(x.clone()),
        None => None,
    }
}

/// The table of `state` as `recipient` sees it (see [`row_for`]).
pub fn snapshot_for(state: &GameState, recipient: &String) -> (r: Vec<PlayerView>)
    ensures
        r@.len() == table_of(*state).len(),
        forall|i: int|
            0 <= i < r@.len() ==> #[trigger] r@[i] == row_for(*state, table_of(*state)[i], recipient@),
{
    let players = state.get_players_with_roles();
    let everything = match state {
        GameState::GameOver { .. } => true,
        _ => false,
    };
    let mut rows: Vec<PlayerView> = Vec::new();
    let mut i: usize = 0;
    while i < players.len()
        invariant
            players@ == table_of(*state),
            everything == discloses_all(*state),
            i <= players@.len(),
            rows@.len() == i,
            forall|j: int| 0 <= j < i ==> #[trigger] rows@[j] == row_for(*state, players@[j], recipient@),
        decreases players.len() - i,
    {
        let p = &players[i];
        let own = everything || p.id == *recipient;
        let is_ready = match state {
            GameState::Lobby { ready_players, .. } => Some(find_id(ready_players, &p.id).is_some()),
            _ => None,
        };
        rows.push(
            PlayerView {
                id: p.id.clone(),
                name: p.name.clone(),
                is_alive: p.is_alive,
                is_ready,
                role: if own {
                    p.role
                } else {
                    None
                },
                word: if own {
                    copy_word(&p.word)
                } else {
                    None
                },
            },
        );
        i = i + 1;
    }
    rows
}

/// Until the game is over, a snapshot never shows one player's role or
/// word to another: every row other than the recipient's own carries
/// neither.
pub proof fn lemma_snapshot_privacy(s: GameState, recipient: Seq<char>, p: Player)
    requires
        !(s is GameOver),
        p.id@ != recipient,
    ensures
        row_for(s, p, recipient).role is None,
        row_for(s, p, recipient).word is None,
{
}

/// A room may be removed when nobody is in it and it is not brand new, or
/// when it has been empty and idle for longer than `max_idle_secs`; never
/// twice.
pub open spec fn deletion_due(
    is_deleted: bool,
    is_empty: bool,
    is_new: bool,
    idle_secs: int,
    max_idle_secs: u64,
) -> bool {
    !is_deleted && ((is_empty && !is_new) || (idle_secs > max_idle_secs && is_empty))
}

/// Every seated player of the lobby `s` is ready, and there are enough of
/// them to start.
pub open spec fn all_ready_in(s: GameState) -> bool {
    s matches GameState::Lobby { players, ready_players, min_players, .. } && players@.len()
        == ready_players@.len() && ready_players@.len() >= min_players
}

/// How a join was taken.
#[derive(Debug, Clone)]
pub enum JoinOutcome {
    /// A new player was seated.
    Joined(GameEvent),
    /// A known player came back: only their connection is renewed.
    Reconnected,
}

/// The lifecycle and registry of `after` are those of `before`: only the
/// state may have changed.
pub open spec fn room_frame(before: Room, after: Room) -> bool {
    &&& after.id == before.id
    &&& after.player_order == before.player_order
    &&& after.connected == before.connected
    &&& after.is_new_room == before.is_new_room
    &&& after.is_deleted == before.is_deleted
    &&& after.last_activity_ms == before.last_activity_ms
    &&& after.max_idle_secs == before.max_idle_secs
    &&& after.config == before.config
}

/// The seat a new player takes.
pub open spec fn newcomer(id: String, name: String, now_ms: i64) -> Player {
    Player { id, name, role: None, word: None, is_alive: true, last_action: now_ms }
}

/// `ids` with `id` added at the end unless it is already there.
pub open spec fn with_id(ids: Seq<String>, id: String) -> Seq<String> {
    if has_id(ids, id@) {
        ids
    } else {
        ids.push(id)
    }
}

/// What a join of `id` under `name` does to the room `before`. A deleted
/// room refuses it. A registered id reconnects: only its connection is
/// renewed. A new id is seated by the state machine (see
/// [`crate::game::player_added`]): when that succeeds the player is
/// registered at the end of the join order and connected, and the room is
/// no longer new; when it fails, nothing changes.
pub open spec fn room_joined(
    before: Room,
    after: Room,
    id: String,
    name: String,
    now_ms: i64,
    r: Result<JoinOutcome, ErrorCode>,
) -> bool {
    if before.is_deleted {
        r == Err::<JoinOutcome, ErrorCode>(ErrorCode::RoomDeleted) && after == before
    } else if has_id(before.player_order@, id@) {
        &&& r matches Ok(JoinOutcome::Reconnected)
        &&& after == (Room { connected: after.connected, ..before })
        &&& after.connected@ == with_id(before.connected@, id)
    } else {
        &&& exists|first: Result<GameEvent, ErrorCode>|
            #[trigger] crate::game::player_added(
                before.state,
                after.state,
                newcomer(id, name, now_ms),
                first,
            ) && match first {
                Ok(e) => r matches Ok(JoinOutcome::Joined(j)) && j == e,
                Err(e) => r == Err::<JoinOutcome, ErrorCode>(e),
            }
        &&& r is Ok ==> {
            &&& after.player_order@ == before.player_order@.push(id)
            &&& after.connected@ == with_id(before.connected@, id)
            &&& !after.is_new_room
            &&& after.id == before.id
            &&& after.is_deleted == before.is_deleted
            &&& after.config == before.config
        }
        &&& r is Err ==> after == before
    }
}

/// After the state `mid`, a vote that every alive player has completed is
/// closed and its result applied, giving the events `events`; otherwise
/// nothing more happens.
pub open spec fn vote_settled(
    mid: GameState,
    after: GameState,
    events: Seq<GameEvent>,
    config: GameConfig,
    now_ms: i64,
) -> bool {
    if mid is VotePhase && crate::game::all_alive_voted(
        mid->VotePhase_players@,
        mid->VotePhase_votes@,
    ) {
        &&& events.len() == 2
        &&& events[0] matches GameEvent::VotePhaseComplete(vs) && vs@ == mid->VotePhase_votes@
        &&& exists|closed: GameState|
            #[trigger] crate::game::result_opened(mid, closed, mid->VotePhase_votes@, config, now_ms)
                && crate::game::result_applied(closed, after, Ok(events[1]), config, now_ms)
    } else {
        events.len() == 0 && after == mid
    }
}

/// A registered player left the running game `before` (any phase but the
/// lobby and the finished game): the state machine marks them out (see
/// [`crate::game::player_left_game`]), reporting `first`, and then a vote
/// they were the last to hold up is settled (see [`vote_settled`]).
pub open spec fn left_running(
    before: GameState,
    mid: GameState,
    after: GameState,
    events: Seq<GameEvent>,
    first: Result<GameEvent, ErrorCode>,
    id: String,
    config: GameConfig,
    now_ms: i64,
) -> bool {
    let lead: int = if first is Ok {
        1
    } else {
        0
    };
    &&& crate::game::player_left_game(before, mid, id, first)
    &&& events.len() >= lead
    &&& first matches Ok(e) ==> events[0] == e
    &&& vote_settled(mid, after, events.subrange(lead, events.len() as int), config, now_ms)
}

/// What `id` leaving does to the room `before`. A deleted room refuses it;
/// leaving a room one is not registered in changes nothing. Otherwise the
/// leave succeeds and the player loses their connection. In the lobby the
/// state machine removes them (see [`crate::game::player_removed`]) and
/// they leave the join order; after the game they are taken off the table
/// and leave the join order; during a game they stay registered and are
/// marked out (see [`left_running`]).
pub open spec fn room_left(
    before: Room,
    after: Room,
    id: String,
    now_ms: i64,
    r: Result<Vec<GameEvent>, ErrorCode>,
) -> bool {
    if before.is_deleted {
        r == Err::<Vec<GameEvent>, ErrorCode>(ErrorCode::RoomDeleted) && after == before
    } else if !has_id(before.player_order@, id@) {
        r matches Ok(events) && events@.len() == 0 && after == before
    } else {
        &&& r matches Ok(events) && match before.state {
            GameState::Lobby { .. } => exists|first: Result<GameEvent, ErrorCode>|
                #[trigger] crate::game::player_removed(before.state, after.state, id, first)
                    && match first {
                    Ok(e) => events@ == seq![e],
                    Err(_) => events@.len() == 0,
                },
            GameState::GameOver { .. } => events@.len() == 0 && crate::game::forgotten(
                before.state,
                after.state,
                id@,
            ),
            _ => exists|mid: GameState, first: Result<GameEvent, ErrorCode>|
                #[trigger] left_running(
                    before.state,
                    mid,
                    after.state,
                    events@,
                    first,
                    id,
                    before.config,
                    now_ms,
                ),
        }
        &&& !has_id(after.connected@, id@)
        &&& forall|x: Seq<char>| x != id@ ==> #[trigger] has_id(after.connected@, x) == has_id(
            before.connected@,
            x,
        )
        &&& (before.state is Lobby || before.state is GameOver) ==> forall|x: Seq<char>|
            #[trigger] has_id(after.player_order@, x) == (has_id(before.player_order@, x) && x != id@)
        &&& !(before.state is Lobby || before.state is GameOver) ==> after.player_order
            == before.player_order
        &&& after.id == before.id
        &&& after.is_deleted == before.is_deleted
        &&& after.config == before.config
    }
}

/// What a kick does to the room `before`: refused in a deleted room;
/// otherwise exactly the state machine's kick (see
/// [`crate::game::player_kicked`]), and on success the target leaves the
/// join order and the connections.
pub open spec fn room_kicked(
    before: Room,
    after: Room,
    kicker_id: String,
    target_id: String,
    r: Result<GameEvent, ErrorCode>,
) -> bool {
    if before.is_deleted {
        r == Err::<GameEvent, ErrorCode>(ErrorCode::RoomDeleted) && after == before
    } else {
        &&& crate::game::player_kicked(before.state, after.state, kicker_id, target_id, r)
        &&& r is Err ==> after == before
        &&& r is Ok ==> {
            &&& forall|x: Seq<char>| #[trigger] has_id(after.player_order@, x) == (has_id(
                before.player_order@,
                x,
            ) && x != target_id@)
            &&& forall|x: Seq<char>| #[trigger] has_id(after.connected@, x) == (has_id(
                before.connected@,
                x,
            ) && x != target_id@)
            &&& !has_player(table_of(after.state), target_id@)
            &&& after.id == before.id
            &&& after.config == before.config
        }
    }
}

/// A ready intent from `id`: the state machine takes `before` to `mid`
/// with outcome `first` (see [`crate::game::ready_applied`]). A refusal is
/// the intent's result. When the intent makes every seated player ready,
/// with enough of them, the game starts from `mid` (see
/// [`crate::game::game_started`]); without a word pair that start fails
/// with `InternalError`, leaving `mid`.
pub open spec fn ready_step(
    before: GameState,
    mid: GameState,
    first: Result<GameEvent, ErrorCode>,
    after: GameState,
    r: Result<Vec<GameEvent>, ErrorCode>,
    id: String,
    word_pair: Option<(String, String)>,
    player_order: Seq<String>,
    config: GameConfig,
    now_ms: i64,
) -> bool {
    &&& crate::game::ready_applied(before, mid, id, first, config, now_ms)
    &&& match first {
        Err(e) => r == Err::<Vec<GameEvent>, ErrorCode>(e) && after == mid,
        Ok(ev) => if (ev matches GameEvent::PlayerReady(_, true)) && all_ready_in(mid) {
            if word_pair is None {
                r == Err::<Vec<GameEvent>, ErrorCode>(ErrorCode::InternalError) && after == mid
            } else {
                r matches Ok(events) && events@.len() == 2 && events@[0] == ev
                    && crate::game::game_started(
                    mid,
                    after,
                    word_pair,
                    player_order,
                    config,
                    now_ms,
                    Ok(events@[1]),
                )
            }
        } else {
            r matches Ok(events) && events@ == seq![ev] && after == mid
        },
    }
}

/// A description from `id`: the state machine records it, taking `before`
/// to `mid` with outcome `first` (see [`crate::game::description_applied`]),
/// and on success the turn passes at once (see [`crate::game::turn_advanced`]).
pub open spec fn describe_step(
    before: GameState,
    mid: GameState,
    first: Result<GameEvent, ErrorCode>,
    after: GameState,
    r: Result<Vec<GameEvent>, ErrorCode>,
    id: String,
    text: String,
    config: GameConfig,
    now_ms: i64,
) -> bool {
    &&& crate::game::description_applied(before, mid, id, text, first)
    &&& match first {
        Err(e) => r == Err::<Vec<GameEvent>, ErrorCode>(e) && after == mid,
        Ok(ev) => r matches Ok(events) && events@.len() == 2 && events@[0] == ev
            && crate::game::turn_advanced(mid, after, Ok(events@[1]), config, now_ms),
    }
}

/// A vote: the state machine takes `before` to `mid` with outcome `first`
/// (see [`crate::game::vote_applied`]); a vote that completes the ballots
/// is followed at once by applying the result (see
/// [`crate::game::result_applied`]).
pub open spec fn vote_step(
    before: GameState,
    mid: GameState,
    first: Result<GameEvent, ErrorCode>,
    after: GameState,
    r: Result<Vec<GameEvent>, ErrorCode>,
    voter_id: String,
    target_id: String,
    config: GameConfig,
    now_ms: i64,
) -> bool {
    &&& crate::game::vote_applied(before, mid, voter_id, target_id, first, config, now_ms)
    &&& match first {
        Err(e) => r == Err::<Vec<GameEvent>, ErrorCode>(e) && after == mid,
        Ok(ev) => if ev is VotePhaseComplete {
            r matches Ok(events) && events@.len() == 2 && events@[0] == ev
                && crate::game::result_applied(mid, after, Ok(events@[1]), config, now_ms)
        } else {
            r matches Ok(events) && events@ == seq![ev] && after == mid
        },
    }
}

/// A chat outcome `first` of the state machine, as the room reports it.
pub open spec fn message_result(first: Result<GameEvent, ErrorCode>, r: Result<ChatMessage, ErrorCode>) -> bool {
    match first {
        Ok(GameEvent::ChatMessageAdded(m)) => r == Ok::<ChatMessage, ErrorCode>(m),
        Ok(GameEvent::EliminatedChatMessageAdded(m)) => r == Ok::<ChatMessage, ErrorCode>(m),
        Ok(_) => r == Err::<ChatMessage, ErrorCode>(ErrorCode::InternalError),
        Err(e) => r == Err::<ChatMessage, ErrorCode>(e),
    }
}

/// A vote timeout: the missing ballots are filled in and tallied (see
/// [`crate::game::vote_timed_out`]), and the result is applied at once.
pub open spec fn vote_timeout_step(
    before: GameState,
    mid: GameState,
    after: GameState,
    r: Result<Vec<GameEvent>, ErrorCode>,
    config: GameConfig,
    now_ms: i64,
) -> bool {
    exists|first: Result<GameEvent, ErrorCode>|
        #[trigger] crate::game::vote_timed_out(before, mid, first, config, now_ms) && match first {
            Ok(ev) => r matches Ok(events) && events@.len() == 2 && events@[0] == ev
                && crate::game::result_applied(mid, after, Ok(events@[1]), config, now_ms),
            Err(_) => false,
        }
}

/// What the periodic check does to `before` at `now_ms`: nothing when no
/// timeout is due; the forced passing of the turn, the completed and
/// tallied vote with its result applied, or the result applied, for the
/// describe, vote and result timeouts. It always succeeds.
pub open spec fn timeout_applied(
    before: GameState,
    after: GameState,
    r: Result<Vec<GameEvent>, ErrorCode>,
    config: GameConfig,
    now_ms: i64,
) -> bool {
    match crate::game::timeout_due(before, now_ms) {
        crate::game::TimeoutResult::NoTimeout => r matches Ok(events) && events@.len() == 0
            && after == before,
        crate::game::TimeoutResult::DescribeTimeout(_) => r matches Ok(events) && events@.len() == 1
            && crate::game::turn_advanced(before, after, Ok(events@[0]), config, now_ms),
        crate::game::TimeoutResult::VoteTimeout => exists|mid: GameState|
            #[trigger] vote_timeout_step(before, mid, after, r, config, now_ms),
        crate::game::TimeoutResult::ResultTimeout => r matches Ok(events) && events@.len() == 1
            && crate::game::result_applied(before, after, Ok(events@[0]), config, now_ms),
    }
}

/// The one-second tick: the countdown is stored in `mid` (see
/// [`crate::game::countdown_step`]) and returned while time is left; once
/// none is, the periodic check runs on `mid` at once (see
/// [`timeout_applied`]).
pub open spec fn tick_step(
    before: GameState,
    mid: GameState,
    after: GameState,
    r: Result<(Option<u64>, Vec<GameEvent>), ErrorCode>,
    config: GameConfig,
    now_ms: i64,
) -> bool {
    exists|left: Option<u64>|
        #[trigger] crate::game::countdown_step(before, mid, now_ms, left) && match left {
            Some(secs) => r matches Ok((Some(x), events)) && x == secs && events@.len() == 0
                && after == mid,
            None => r matches Ok((None, events)) && timeout_applied(
                mid,
                after,
                Ok(events),
                config,
                now_ms,
            ),
        }
}

/// A room: its state machine, the ids of its players in join order, the
/// ids that currently have a connection, and its lifecycle. Timestamps are
/// in milliseconds.
pub struct Room {
    pub id: String,
    pub state: GameState,
    pub player_order: Vec<String>,
    pub connected: Vec<String>,
    pub is_new_room: bool,
    pub is_deleted: bool,
    pub last_activity_ms: i64,
    pub max_idle_secs: u64,
    pub config: GameConfig,
}

/// Seconds between `from_ms` and `to_ms`, never negative.
pub open spec fn idle_seconds(from_ms: i64, to_ms: i64) -> int {
    if to_ms > from_ms {
        (to_ms - from_ms) / 1000
    } else {
        0
    }
}

/// Appends `id` to a list of unique ids unless it is already there.
fn insert_id(ids: &mut Vec<String>, id: &String)
    requires
        strings_unique(old(ids)@),
    ensures
        strings_unique(final(ids)@),
        has_id(old(ids)@, id@) ==> final(ids)@ == old(ids)@,
        !has_id(old(ids)@, id@) ==> final(ids)@ == old(ids)@.push(*id),
{
    if find_id(ids, id).is_some() {
        return ;
    }
    let ghost before = ids@;
    ids.push(id.clone());
    proof {
        let s = ids@;
        assert forall|a: int, b: int| 0 <= a < s.len() && 0 <= b < s.len() && a != b implies (#[trigger] s[a])@
            != (#[trigger] s[b])@ by {
            if a == s.len() - 1 {
                assert(s[b] == before[b]);
            } else if b == s.len() - 1 {
                assert(s[a] == before[a]);
            } else {
                assert(s[a] == before[a] && s[b] == before[b]);
            }
        }
    }
}

impl Room {
    /// The room's invariant: a well-formed state and duplicate-free id lists.
    pub open spec fn wf(&self) -> bool {
        &&& self.state.wf()
        &&& strings_unique(self.player_order@)
        &&& strings_unique(self.connected@)
    }

    /// A new, empty room in the lobby.
    pub fn new(id: String, host: String, config: GameConfig, max_idle_secs: u64, now_ms: i64) -> (r: Room)
        ensures
            r.wf(),
            r.id == id,
            r.state is Lobby,
            table_of(r.state).len() == 0,
            r.state->Lobby_host == host,
            r.state->Lobby_min_players == config.min_players,
            r.state->Lobby_max_players == config.max_players,
            r.player_order@.len() == 0,
            r.connected@.len() == 0,
            r.is_new_room,
            !r.is_deleted,
            r.last_activity_ms == now_ms,
            r.max_idle_secs == max_idle_secs,
            r.config == config,
    {
        Room {
            id,
            state: GameState::new(config.min_players, config.max_players, host),
            player_order: Vec::new(),
            connected: Vec::new(),
            is_new_room: true,
            is_deleted: false,
            last_activity_ms: now_ms,
            max_idle_secs,
            config,
        }
    }

    /// Number of players registered in the room.
    pub fn player_count(&self) -> (r: usize)
        ensures
            r == self.player_order@.len(),
    {
        self.player_order.len()
    }

    /// Records activity at `now_ms`.
    pub fn update_activity(&mut self, now_ms: i64)
        ensures
            *final(self) == (Room { last_activity_ms: now_ms, ..*old(self) }),
    {
        self.last_activity_ms = now_ms;
    }

    /// Whether the room is due for removal at `now_ms` (see [`deletion_due`]).
    pub fn should_be_deleted(&self, now_ms: i64) -> (r: bool)
        ensures
            r == deletion_due(
                self.is_deleted,
                self.player_order@.len() == 0,
                self.is_new_room,
                idle_seconds(self.last_activity_ms, now_ms),
                self.max_idle_secs,
            ),
    {
        let idle: i128 = if now_ms > self.last_activity_ms {
            ((now_ms as i128) - (self.last_activity_ms as i128)) / 1000
        } else {
            0
        };
        let empty = self.player_order.len() == 0;
        !self.is_deleted && ((empty && !self.is_new_room) || (idle > self.max_idle_secs as i128
            && empty))
    }

    /// Marks the room deleted. Returns whether this call did it: a room is
    /// deleted once, and every later intent is refused.
    pub fn delete(&mut self) -> (r: bool)
        ensures
            r == !old(self).is_deleted,
            *final(self) == (Room { is_deleted: true, ..*old(self) }),
    {
        if self.is_deleted {
            return false;
        }
        self.is_deleted = true;
        true
    }

    /// Whether `player_id` is the host.
    pub fn is_host(&self, player_id: &String) -> (r: bool)
        ensures
            r == (crate::game::host_of(self.state) matches Some(h) && h@ == player_id@),
    {
        match self.state.get_host() {
            Some(h) => h == *player_id,
            None => false,
        }
    }

    /// A player joins (see [`room_joined`]).
    pub fn join(&mut self, player_id: String, name: String, now_ms: i64) -> (r: Result<
        JoinOutcome,
        ErrorCode,
    >)
        requires
            old(self).wf(),
        ensures
            final(self).wf(),
            room_joined(*old(self), *final(self), player_id, name, now_ms, r),
    {
        if self.is_deleted {
            return Err(ErrorCode::RoomDeleted);
        }
        if find_id(&self.player_order, &player_id).is_some() {
            insert_id(&mut self.connected, &player_id);
            return Ok(JoinOutcome::Reconnected);
        }
        let player = Player::new(player_id.clone(), name, now_ms);
        let ghost seat = player;
        let outcome = self.state.add_player(player);
        let event = match outcome {
            Ok(e) => e,
            Err(e) => {
                proof {
                    assert(crate::game::player_added(old(self).state, self.state, seat, Err(e)));
                }
                return Err(e);
            },
        };
        proof {
            assert(crate::game::player_added(old(self).state, self.state, seat, Ok(event)));
        }
        insert_id(&mut self.player_order, &player_id);
        insert_id(&mut self.connected, &player_id);
        self.is_new_room = false;
        Ok(JoinOutcome::Joined(event))
    }

    /// A player's connection went away: the player stays registered.
    pub fn disconnect(&mut self, player_id: &String)
        requires
            old(self).wf(),
        ensures
            final(self).wf(),
            final(self).state == old(self).state,
            final(self).player_order == old(self).player_order,
            forall|x: Seq<char>| #[trigger] has_id(final(self).connected@, x) <==> has_id(
                old(self).connected@,
                x,
            ) && x != player_id@,
    {
        crate::game::remove_id(&mut self.connected, player_id);
    }

    /// A player leaves (see [`room_left`]).
    pub fn leave(&mut self, player_id: String, now_ms: i64) -> (r: Result<Vec<GameEvent>, ErrorCode>)
        requires
            old(self).wf(),
        ensures
            final(self).wf(),
            room_left(*old(self), *final(self), player_id, now_ms, r),
    {
        if self.is_deleted {
            return Err(ErrorCode::RoomDeleted);
        }
        if find_id(&self.player_order, &player_id).is_none() {
            return Ok(Vec::new());
        }
        let mut events: Vec<GameEvent> = Vec::new();
        let ghost mut first_g: Result<GameEvent, ErrorCode> = Err(ErrorCode::InternalError);
        let ghost mut mid_g: GameState = self.state;
        match self.state.get_state_type() {
            GameStateType::Lobby => {
                let outcome = self.state.remove_player(player_id.clone());
                let ghost first = outcome;
                proof {
                    first_g = first;
                }
                match outcome {
                    Ok(e) => {
                        events.push(e);
                        assert(events@ =~= seq![e]);
                    },
                    Err(_) => {},
                }
                crate::game::remove_id(&mut self.player_order, &player_id);
                crate::game::remove_id(&mut self.connected, &player_id);
                proof {
                    assert(crate::game::player_removed(old(self).state, self.state, player_id, first));
                }
            },
            GameStateType::GameOver => {
                let _ = self.state.forget_player(&player_id);
                crate::game::remove_id(&mut self.player_order, &player_id);
                crate::game::remove_id(&mut self.connected, &player_id);
            },
            _ => {
                let outcome = self.state.mark_player_left(player_id.clone());
                let ghost first = outcome;
                let ghost mid = self.state;
                proof {
                    first_g = first;
                    mid_g = mid;
                }
                match outcome {
                    Ok(e) => events.push(e),
                    Err(_) => {},
                }
                crate::game::remove_id(&mut self.connected, &player_id);
                let config = self.config;
                let ghost lead = events@;
                match self.state.close_vote_if_complete(&config, now_ms) {
                    Some(done) => {
                        let mut more = match self.settle_vote(done, now_ms) {
                            Ok(v) => v,
                            Err(e) => {
                                return Err(e);
                            },
                        };
                        events.append(&mut more);
                    },
                    None => {},
                }
                proof {
                    assert(events@.subrange(0, lead.len() as int) =~= lead);
                    assert(crate::game::player_left_game(old(self).state, mid, player_id, first));
                    assert(vote_settled(mid, self.state, events@.subrange(lead.len() as int, events@.len() as int), config, now_ms));
                    assert(left_running(old(self).state, mid, self.state, events@, first, player_id, config, now_ms));
                }
            },
        }
        proof {
            assert(!has_id(self.connected@, player_id@));
            assert(forall|x: Seq<char>| x != player_id@ ==> #[trigger] has_id(self.connected@, x) == has_id(old(self).connected@, x));
            if old(self).state is Lobby || old(self).state is GameOver {
                assert(forall|x: Seq<char>| #[trigger] has_id(self.player_order@, x) == (has_id(old(self).player_order@, x) && x != player_id@));
            } else {
                assert(self.player_order == old(self).player_order);
            }
            assert(self.id == old(self).id);
            assert(self.config == old(self).config);
            if old(self).state is Lobby {
                assert(crate::game::player_removed(old(self).state, self.state, player_id, first_g));
                assert(match first_g {
                    Ok(e) => events@ == seq![e],
                    Err(_) => events@.len() == 0,
                });
            } else if old(self).state is GameOver {
                assert(crate::game::forgotten(old(self).state, self.state, player_id@));
                assert(events@.len() == 0);
            } else {
                assert(left_running(old(self).state, mid_g, self.state, events@, first_g, player_id, old(self).config, now_ms));
            }
            assert(has_id(old(self).player_order@, player_id@));
            assert(!old(self).is_deleted);
            let rr: Result<Vec<GameEvent>, ErrorCode> = Ok(events);
            assert(rr matches Ok(evs) && evs == events);
            assert(room_left(*old(self), *self, player_id, now_ms, rr));
        }
        Ok(events)
    }

    /// The host removes a player from the lobby; on success the player
    /// leaves the room's registry too (see [`room_kicked`]).
    pub fn kick(&mut self, kicker_id: String, target_id: String) -> (r: Result<GameEvent, ErrorCode>)
        requires
            old(self).wf(),
        ensures
            final(self).wf(),
            room_kicked(*old(self), *final(self), kicker_id, target_id, r),
    {
        if self.is_deleted {
            return Err(ErrorCode::RoomDeleted);
        }
        let event = match self.state.kick_player(kicker_id, target_id.clone()) {
            Ok(e) => e,
            Err(e) => {
                return Err(e);
            },
        };
        proof {
            crate::game::lemma_drop_player_removes(table_of(old(self).state), target_id@);
        }
        crate::game::remove_id(&mut self.player_order, &target_id);
        crate::game::remove_id(&mut self.connected, &target_id);
        Ok(event)
    }

    /// Whether every seated player in the lobby is ready and there are
    /// enough of them to start.
    pub fn all_ready(&self) -> (r: bool)
        ensures
            r == all_ready_in(self.state),
    {
        match &self.state {
            GameState::Lobby { players, ready_players, min_players, .. } => players.len()
                == ready_players.len() && ready_players.len() >= *min_players,
            _ => false,
        }
    }

    /// A player toggles readiness (see [`ready_step`]): when this makes
    /// every seated player ready, with at least the minimum number, the game
    /// starts at once with `word_pair`.
    pub fn ready(&mut self, player_id: String, word_pair: Option<(String, String)>, now_ms: i64) -> (r:
        Result<Vec<GameEvent>, ErrorCode>)
        requires
            old(self).wf(),
        ensures
            final(self).wf(),
            old(self).is_deleted ==> r == Err::<Vec<GameEvent>, ErrorCode>(ErrorCode::RoomDeleted)
                && *final(self) == *old(self),
            !old(self).is_deleted ==> exists|mid: GameState, first: Result<GameEvent, ErrorCode>|
                #[trigger] ready_step(
                    old(self).state,
                    mid,
                    first,
                    final(self).state,
                    r,
                    player_id,
                    word_pair,
                    old(self).player_order@,
                    old(self).config,
                    now_ms,
                ),
            room_frame(*old(self), *final(self)),
    {
        if self.is_deleted {
            return Err(ErrorCode::RoomDeleted);
        }
        let config = self.config;
        let outcome = self.state.player_ready(player_id, &config, now_ms);
        let ghost mid = self.state;
        let ghost first = outcome;
        let ghost pair = word_pair;
        let event = match outcome {
            Ok(e) => e,
            Err(e) => {
                proof {
                    assert(ready_step(old(self).state, mid, first, self.state, Err(e), player_id, pair, old(self).player_order@, config, now_ms));
                }
                return Err(e);
            },
        };
        let can_start = match &event {
            GameEvent::PlayerReady(_, c) => *c,
            _ => false,
        };
        assert(can_start == (event matches GameEvent::PlayerReady(_, true)));
        let mut events: Vec<GameEvent> = Vec::new();
        events.push(event);
        if can_start && self.all_ready() {
            match self.state.start_game(word_pair, &self.player_order, &config, now_ms) {
                Ok(started) => {
                    events.push(started);
                },
                Err(e) => {
                    proof {
                        assert(ready_step(old(self).state, mid, first, self.state, Err(e), player_id, pair, old(self).player_order@, config, now_ms));
                    }
                    return Err(e);
                },
            }
        }
        proof {
            assert(events@[0] == event);
            assert(ready_step(old(self).state, mid, first, self.state, Ok(events), player_id, pair, old(self).player_order@, config, now_ms));
        }
        Ok(events)
    }

    /// The active player describes; the turn then passes at once (see
    /// [`describe_step`]).
    pub fn describe(&mut self, player_id: String, content: String, now_ms: i64) -> (r: Result<
        Vec<GameEvent>,
        ErrorCode,
    >)
        requires
            old(self).wf(),
        ensures
            final(self).wf(),
            old(self).is_deleted ==> r == Err::<Vec<GameEvent>, ErrorCode>(ErrorCode::RoomDeleted)
                && *final(self) == *old(self),
            !old(self).is_deleted ==> exists|mid: GameState, first: Result<GameEvent, ErrorCode>|
                #[trigger] describe_step(
                    old(self).state,
                    mid,
                    first,
                    final(self).state,
                    r,
                    player_id,
                    content,
                    old(self).config,
                    now_ms,
                ),
            room_frame(*old(self), *final(self)),
    {
        if self.is_deleted {
            return Err(ErrorCode::RoomDeleted);
        }
        let config = self.config;
        let outcome = self.state.add_description(player_id, content);
        let ghost mid = self.state;
        let ghost first = outcome;
        let event = match outcome {
            Ok(e) => e,
            Err(e) => {
                proof {
                    assert(describe_step(old(self).state, mid, first, self.state, Err(e), player_id, content, config, now_ms));
                }
                return Err(e);
            },
        };
        let second = match self.state.advance_describe_phase(&config, now_ms) {
            Ok(e) => e,
            Err(e) => {
                return Err(e);
            },
        };
        let mut events: Vec<GameEvent> = Vec::new();
        events.push(event);
        events.push(second);
        proof {
            assert(describe_step(old(self).state, mid, first, self.state, Ok(events), player_id, content, config, now_ms));
        }
        Ok(events)
    }

    /// Applies what follows a completed vote: the result is processed at
    /// once, within the same intent.
    fn settle_vote(&mut self, first: GameEvent, now_ms: i64) -> (r: Result<Vec<GameEvent>, ErrorCode>)
        requires
            old(self).wf(),
        ensures
            final(self).wf(),
            r matches Ok(events) ==> (events@.len() >= 1 && events@[0] == first && events@.len() <= 2),
            r matches Ok(events) ==> (events@.len() == 1 ==> final(self).state == old(self).state),
            r matches Ok(events) ==> (events@.len() == 2 ==> crate::game::result_applied(
                old(self).state,
                final(self).state,
                Ok(events@[1]),
                old(self).config,
                now_ms,
            )),
            first is VotePhaseComplete && old(self).state is ResultPhase ==> (r matches Ok(events)
                && events@.len() == 2),
            !(first is VotePhaseComplete) ==> (r matches Ok(events) && events@.len() == 1),
            room_frame(*old(self), *final(self)),
    {
        let complete = match &first {
            GameEvent::VotePhaseComplete(_) => true,
            _ => false,
        };
        let mut events: Vec<GameEvent> = Vec::new();
        events.push(first);
        if complete {
            let config = self.config;
            match self.state.process_result_phase(&config, now_ms) {
                Ok(e) => events.push(e),
                Err(e) => {
                    return Err(e);
                },
            }
        }
        Ok(events)
    }

    /// A player votes; a completed vote is tallied and its result applied
    /// within the same intent (see [`vote_step`]).
    pub fn vote(&mut self, voter_id: String, target_id: String, now_ms: i64) -> (r: Result<
        Vec<GameEvent>,
        ErrorCode,
    >)
        requires
            old(self).wf(),
        ensures
            final(self).wf(),
            old(self).is_deleted ==> r == Err::<Vec<GameEvent>, ErrorCode>(ErrorCode::RoomDeleted)
                && *final(self) == *old(self),
            !old(self).is_deleted ==> exists|mid: GameState, first: Result<GameEvent, ErrorCode>|
                #[trigger] vote_step(
                    old(self).state,
                    mid,
                    first,
                    final(self).state,
                    r,
                    voter_id,
                    target_id,
                    old(self).config,
                    now_ms,
                ),
            room_frame(*old(self), *final(self)),
    {
        if self.is_deleted {
            return Err(ErrorCode::RoomDeleted);
        }
        let config = self.config;
        let outcome = self.state.add_vote(voter_id, target_id, &config, now_ms);
        let ghost mid = self.state;
        let ghost first = outcome;
        let event = match outcome {
            Ok(e) => e,
            Err(e) => {
                proof {
                    assert(vote_step(old(self).state, mid, first, self.state, Err(e), voter_id, target_id, config, now_ms));
                }
                return Err(e);
            },
        };
        let ghost ev = event;
        let r = self.settle_vote(event, now_ms);
        proof {
            if r is Ok {
                let evs = r->Ok_0;
                if evs@.len() == 1 {
                    assert(evs@ =~= seq![ev]);
                }
            }
            assert(vote_step(old(self).state, mid, first, self.state, r, voter_id, target_id, config, now_ms));
        }
        r
    }

    /// A public chat line; it succeeds exactly when the state machine takes
    /// it.
    pub fn chat(&mut self, player_id: String, content: String, now_ms: i64) -> (r: Result<
        ChatMessage,
        ErrorCode,
    >)
        requires
            old(self).wf(),
        ensures
            final(self).wf(),
            old(self).is_deleted ==> r == Err::<ChatMessage, ErrorCode>(ErrorCode::RoomDeleted)
                && *final(self) == *old(self),
            !old(self).is_deleted ==> exists|first: Result<GameEvent, ErrorCode>|
                #[trigger] crate::game::chat_applied(
                    old(self).state,
                    final(self).state,
                    player_id,
                    content,
                    now_ms,
                    first,
                ) && message_result(first, r),
            room_frame(*old(self), *final(self)),
    {
        if self.is_deleted {
            return Err(ErrorCode::RoomDeleted);
        }
        let outcome = self.state.add_chat_message(player_id, content, now_ms);
        let ghost first = outcome;
        let r = match outcome {
            Ok(GameEvent::ChatMessageAdded(m)) => Ok(m),
            Ok(_) => Err(ErrorCode::InternalError),
            Err(e) => Err(e),
        };
        proof {
            assert(crate::game::chat_applied(old(self).state, self.state, player_id, content, now_ms, first));
        }
        r
    }

    /// A line for the eliminated-only chat; it succeeds exactly when the
    /// state machine takes it.
    pub fn eliminated_chat(&mut self, player_id: String, content: String, now_ms: i64) -> (r: Result<
        ChatMessage,
        ErrorCode,
    >)
        requires
            old(self).wf(),
        ensures
            final(self).wf(),
            old(self).is_deleted ==> r == Err::<ChatMessage, ErrorCode>(ErrorCode::RoomDeleted)
                && *final(self) == *old(self),
            !old(self).is_deleted ==> exists|first: Result<GameEvent, ErrorCode>|
                #[trigger] crate::game::hidden_chat_applied(
                    old(self).state,
                    final(self).state,
                    player_id,
                    content,
                    now_ms,
                    first,
                ) && message_result(first, r),
            room_frame(*old(self), *final(self)),
    {
        if self.is_deleted {
            return Err(ErrorCode::RoomDeleted);
        }
        let outcome = self.state.add_eliminated_chat_message(player_id, content, now_ms);
        let ghost first = outcome;
        let r = match outcome {
            Ok(GameEvent::EliminatedChatMessageAdded(m)) => Ok(m),
            Ok(_) => Err(ErrorCode::InternalError),
            Err(e) => Err(e),
        };
        proof {
            assert(crate::game::hidden_chat_applied(old(self).state, self.state, player_id, content, now_ms, first));
        }
        r
    }

    /// The periodic check: applies whichever timeout is due at `now_ms`
    /// through the same transitions as player intents (see
    /// [`timeout_applied`]).
    pub fn check_timeout(&mut self, now_ms: i64) -> (r: Result<Vec<GameEvent>, ErrorCode>)
        requires
            old(self).wf(),
        ensures
            final(self).wf(),
            old(self).is_deleted ==> r == Err::<Vec<GameEvent>, ErrorCode>(ErrorCode::RoomDeleted)
                && *final(self) == *old(self),
            !old(self).is_deleted ==> timeout_applied(
                old(self).state,
                final(self).state,
                r,
                old(self).config,
                now_ms,
            ),
            room_frame(*old(self), *final(self)),
    {
        if self.is_deleted {
            return Err(ErrorCode::RoomDeleted);
        }
        let config = self.config;
        match self.state.check_timeout(now_ms) {
            crate::game::TimeoutResult::NoTimeout => Ok(Vec::new()),
            crate::game::TimeoutResult::DescribeTimeout(_) => {
                match self.state.handle_describe_timeout(&config, now_ms) {
                    Ok(e) => {
                        let mut events: Vec<GameEvent> = Vec::new();
                        events.push(e);
                        Ok(events)
                    },
                    Err(e) => Err(e),
                }
            },
            crate::game::TimeoutResult::VoteTimeout => {
                let outcome = self.state.handle_vote_timeout(&config, now_ms);
                let ghost mid = self.state;
                let ghost first = outcome;
                let event = match outcome {
                    Ok(e) => e,
                    Err(e) => {
                        return Err(e);
                    },
                };
                let r = self.settle_vote(event, now_ms);
                proof {
                    assert(crate::game::vote_timed_out(old(self).state, mid, first, config, now_ms));
                    assert(vote_timeout_step(old(self).state, mid, self.state, r, config, now_ms));
                }
                r
            },
            crate::game::TimeoutResult::ResultTimeout => {
                match self.state.process_result_phase(&config, now_ms) {
                    Ok(e) => {
                        let mut events: Vec<GameEvent> = Vec::new();
                        events.push(e);
                        Ok(events)
                    },
                    Err(e) => Err(e),
                }
            },
        }
    }

    /// The one-second tick (see [`tick_step`]): stores and returns the
    /// seconds left on the running timer; when none are left, the timeout
    /// check runs at once and its events are returned.
    pub fn tick_countdown(&mut self, now_ms: i64) -> (r: Result<(Option<u64>, Vec<GameEvent>), ErrorCode>)
        requires
            old(self).wf(),
        ensures
            final(self).wf(),
            old(self).is_deleted ==> r == Err::<(Option<u64>, Vec<GameEvent>), ErrorCode>(
                ErrorCode::RoomDeleted,
            ) && *final(self) == *old(self),
            !old(self).is_deleted ==> exists|mid: GameState| #[trigger] tick_step(
                old(self).state,
                mid,
                final(self).state,
                r,
                old(self).config,
                now_ms,
            ),
            room_frame(*old(self), *final(self)),
    {
        if self.is_deleted {
            return Err(ErrorCode::RoomDeleted);
        }
        let left = self.state.update_countdown(now_ms);
        let ghost mid = self.state;
        match left {
            Some(secs) => {
                let r = Ok((Some(secs), Vec::new()));
                proof {
                    assert(tick_step(old(self).state, mid, self.state, r, self.config, now_ms));
                }
                r
            },
            None => {
                let events = match self.check_timeout(now_ms) {
                    Ok(v) => v,
                    Err(e) => {
                        return Err(e);
                    },
                };
                let r = Ok((None, events));
                proof {
                    assert(tick_step(old(self).state, mid, self.state, r, self.config, now_ms));
                }
                r
            },
        }
    }

    /// What `recipient` is shown of the table now (see [`row_for`]).
    pub fn snapshot(&self, recipient: &String) -> (r: Vec<PlayerView>)
        ensures
            r@.len() == table_of(self.state).len(),
            forall|i: int|
                0 <= i < r@.len() ==> #[trigger] r@[i] == row_for(
                    self.state,
                    table_of(self.state)[i],
                    recipient@,
                ),
    {
        snapshot_for(&self.state, recipient)
    }
}

/// The connected players who may read the eliminated-only chat: those
/// currently eliminated.
pub open spec fn may_read_hidden_chat(s: GameState, id: Seq<char>) -> bool {
    crate::game::has_eliminated_player(table_of(s), id)
}

/// The ids in `connected` that belong to eliminated players, in order.
pub fn eliminated_recipients(state: &GameState, connected: &Vec<String>) -> (r: Vec<String>)
    ensures
        forall|k: int| 0 <= k < r@.len() ==> has_id(connected@, (#[trigger] r@[k])@)
            && may_read_hidden_chat(*state, r@[k]@),
        forall|k: int|
            0 <= k < connected@.len() && may_read_hidden_chat(*state, (#[trigger] connected@[k])@)
                ==> has_id(r@, connected@[k]@),
{
    let players = state.get_players_with_roles();
    let mut out: Vec<String> = Vec::new();
    let mut i: usize = 0;
    while i < connected.len()
        invariant
            players@ == table_of(*state),
            i <= connected@.len(),
            forall|k: int| 0 <= k < out@.len() ==> has_id(connected@, (#[trigger] out@[k])@)
                && may_read_hidden_chat(*state, out@[k]@),
            forall|k: int|
                0 <= k < i && may_read_hidden_chat(*state, (#[trigger] connected@[k])@) ==> has_id(
                    out@,
                    connected@[k]@,
                ),
        decreases connected.len() - i,
    {
        let id = &connected[i];
        let mut eliminated = false;
        let mut j: usize = 0;
        while j < players.len()
            invariant
                j <= players@.len(),
                eliminated ==> crate::game::has_eliminated_player(players@, id@),
                !eliminated ==> forall|q: int| 0 <= q < j ==> !((#[trigger] players@[q]).id@ == id@ && !players@[q].is_alive),
            decreases players.len() - j,
        {
            if !players[j].is_alive && players[j].id == *id {
                eliminated = true;
            }
            j = j + 1;
        }
        if eliminated {
            let ghost before = out@;
            out.push(id.clone());
            proof {
                assert forall|k: int| 0 <= k < out@.len() implies has_id(connected@, (#[trigger] out@[k])@)
                    && may_read_hidden_chat(*state, out@[k]@) by {
                    if k < before.len() {
                        assert(out@[k] == before[k]);
                    } else {
                        assert(out@[k]@ == connected@[i as int]@);
                    }
                }
                assert forall|k: int|
                    0 <= k < i + 1 && may_read_hidden_chat(*state, (#[trigger] connected@[k])@) implies has_id(
                        out@,
                        connected@[k]@,
                    ) by {
                    if k < i {
                        let w = choose|w: int| 0 <= w < before.len() && (#[trigger] before[w])@ == connected@[k]@;
                        assert(out@[w] == before[w]);
                    } else {
                        assert(out@[out@.len() - 1]@ == connected@[k]@);
                    }
                }
            }
        }
        i = i + 1;
    }
    out
}

/// The first word held by a player of `role` in `ps`, if any.
pub open spec fn first_word_of(ps: Seq<Player>, role: Role) -> Option<String>
    decreases ps.len(),
{
    if ps.len() == 0 {
        None
    } else if ps[0].role == Some(role) && ps[0].word is Some {
        ps[0].word
    } else {
        first_word_of(ps.drop_first(), role)
    }
}

proof fn lemma_first_word_step(ps: Seq<Player>, role: Role, i: int)
    requires
        0 <= i < ps.len(),
        forall|j: int| 0 <= j < i ==> !((#[trigger] ps[j]).role == Some(role) && ps[j].word is Some),
    ensures
        first_word_of(ps, role) == first_word_of(ps.subrange(i, ps.len() as int), role),
    decreases i,
{
    if i > 0 {
        lemma_first_word_step(ps.drop_first(), role, i - 1);
        assert(ps.drop_first().subrange(i - 1, ps.drop_first().len() as int) =~= ps.subrange(i, ps.len() as int));
    } else {
        assert(ps.subrange(0, ps.len() as int) =~= ps);
    }
}

/// The words revealed when the game ends: the first civilian word and the
/// first undercover word found at the table, in seat order.
pub fn revealed_words(players: &Vec<Player>) -> (r: (Option<String>, Option<String>))
    ensures
        r.0 == first_word_of(players@, Role::Civilian),
        r.1 == first_word_of(players@, Role::Undercover),
{
    (first_word(players, Role::Civilian), first_word(players, Role::Undercover))
}

fn first_word(players: &Vec<Player>, role: Role) -> (r: Option<String>)
    ensures
        r == first_word_of(players@, role),
{
    let mut i: usize = 0;
    while i < players.len()
        invariant
            i <= players@.len(),
            forall|j: int| 0 <= j < i ==> !((#[trigger] players@[j]).role == Some(role) && players@[j].word is Some),
        decreases players.len() - i,
    {
        if players[i].role == Some(role) {
            match &players[i].word {
                Some(w) => {
                    proof {
                        lemma_first_word_step(players@, role, i as int);
                        assert(players@.subrange(i as int, players@.len() as int)[0] == players@[i as int]);
                    }
                    return Some(w.clone());
                },
                None => {},
            }
        }
        i = i + 1;
    }
    proof {
        lemma_no_word(players@, role, players@.len());
        assert(players@.subrange(0, players@.len() as int) =~= players@);
    }
    None
}

proof fn lemma_no_word(ps: Seq<Player>, role: Role, k: nat)
    requires
        k <= ps.len(),
        forall|j: int| 0 <= j < ps.len() ==> !((#[trigger] ps[j]).role == Some(role) && ps[j].word is Some),
    ensures
        first_word_of(ps.subrange(ps.len() - k, ps.len() as int), role) is None,
    decreases k,
{
    let t = ps.subrange(ps.len() - k, ps.len() as int);
    if k > 0 {
        lemma_no_word(ps, role, (k - 1) as nat);
        assert(t.drop_first() =~= ps.subrange(ps.len() - (k - 1), ps.len() as int));
        assert(t[0] == ps[ps.len() - k]);
    }
}

impl Room {
    /// Player count, whole seconds idle at `now_ms`, whether the game is
    /// over, and whether the room is empty.
    pub fn get_status(&self, now_ms: i64) -> (r: (usize, u64, bool, bool))
        ensures
            r.0 == self.player_order@.len(),
            r.1 == idle_seconds(self.last_activity_ms, now_ms),
            r.2 == self.state is GameOver,
            r.3 == (self.player_order@.len() == 0),
    {
        let idle: u64 = if now_ms > self.last_activity_ms {
            let d: i128 = ((now_ms as i128) - (self.last_activity_ms as i128)) / 1000;
            assert(d <= u64::MAX) by (nonlinear_arith)
                requires
                    d == ((now_ms as int) - (self.last_activity_ms as int)) / 1000,
                    (now_ms as int) - (self.last_activity_ms as int) <= 0x1_0000_0000_0000_0000,
            ;
            d as u64
        } else {
            0
        };
        let over = match self.state {
            GameState::GameOver { .. } => true,
            _ => false,
        };
        (self.player_order.len(), idle, over, self.player_order.len() == 0)
    }
}

} // verus!
