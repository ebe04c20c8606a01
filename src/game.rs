//! The phase state machine of one room.
//!
//! A room moves Lobby → DescribePhase → VotePhase → ResultPhase and then
//! either back to DescribePhase or on to GameOver, from where a ready
//! intent resets it to Lobby. Every operation either applies a legal
//! transition and reports it as a [`GameEvent`], or rejects the intent with
//! an [`ErrorCode`] and leaves the state as it was.
//!
//! The stream of messages that only eliminated players see is kept apart
//! from the public chat: it is carried from phase to phase as it stands,
//! starts empty when a game starts and is cleared when the room is reset.
//! It is never seeded from the public chat.
use vstd::prelude::*;
use crate::config::GameConfig;
use crate::message::{ErrorCode, GameStateType};
use crate::outside::{random_below, shuffle_in_place};
use vstd::set_lib::{lemma_int_range, lemma_set_difference_len, set_int_range};
use crate::rules::{
    deadline_passed, decide_winner, is_deadline_passed, remaining_seconds, seconds_left, tally_outcome, tally_votes, tie_marker, undercover_count, undercover_quota,
    winner_of,
};

verus! {

/// The two hidden roles.
#[derive(Debug, Clone, Copy, PartialEq, Eq, Structural)]
pub enum Role {
    Undercover,
    Civilian,
}

/// One seat at the table. `role` and `word` are unset until a game starts.
/// `last_action` is a timestamp in milliseconds.
#[derive(Debug, Clone)]
pub struct Player {
    pub id: String,
    pub name: String,
    pub role: Option<Role>,
    pub word: Option<String>,
    pub is_alive: bool,
    pub last_action: i64,
}

/// One chat line; `timestamp` in milliseconds.
#[derive(Debug, Clone)]
pub struct ChatMessage {
    pub player_id: String,
    pub player_name: String,
    pub content: String,
    pub timestamp: i64,
}

fn copy_string_option(s: &Option<String>) -> (r: Option<String>)
    ensures
        r == *s,
{
    match s {
        Some(w) => Some(w.clone()),
        None => None,
    }
}

impl Player {
    /// A fresh player: alive, with no role and no word yet.
    pub fn new(id: String, name: String, now_ms: i64) -> (r: Player)
        ensures
            r.id == id,
            r.name == name,
            r.role is None,
            r.word is None,
            r.is_alive,
            r.last_action == now_ms,
    {
        Player { id, name, role: None, word: None, is_alive: true, last_action: now_ms }
    }

    /// A field-for-field copy.
    pub fn duplicate(&self) -> (r: Player)
        ensures
            r == *self,
    {
        Player {
            id: self.id.clone(),
            name: self.name.clone(),
            role: self.role,
            word: copy_string_option(&self.word),
            is_alive: self.is_alive,
            last_action: self.last_action,
        }
    }
}

impl ChatMessage {
    /// A field-for-field copy.
    pub fn duplicate(&self) -> (r: ChatMessage)
        ensures
            r == *self,
    {
        ChatMessage {
            player_id: self.player_id.clone(),
            player_name: self.player_name.clone(),
            content: self.content.clone(),
            timestamp: self.timestamp,
        }
    }
}

/// The state of a room. Durations are in seconds, timestamps in
/// milliseconds. `descriptions` and `votes` hold pairs of player id and
/// text, and of voter and target.
#[derive(Debug, Clone)]
pub enum GameState {
    Lobby {
        players: Vec<Player>,
        min_players: usize,
        max_players: usize,
        ready_players: Vec<String>,
        chat_messages: Vec<ChatMessage>,
        eliminated_chat_messages: Vec<ChatMessage>,
        host: String,
    },
    RoleAssignment { players: Vec<Player> },
    DescribePhase {
        players: Vec<Player>,
        current_player_index: usize,
        descriptions: Vec<(String, String)>,
        current_player_start_time: i64,
        player_duration: u64,
        remaining_time: u64,
        chat_messages: Vec<ChatMessage>,
        eliminated_chat_messages: Vec<ChatMessage>,
        host: String,
    },
    VotePhase {
        players: Vec<Player>,
        votes: Vec<(String, String)>,
        descriptions: Vec<(String, String)>,
        start_time: i64,
        duration: u64,
        remaining_time: u64,
        chat_messages: Vec<ChatMessage>,
        eliminated_chat_messages: Vec<ChatMessage>,
        host: String,
    },
    ResultPhase {
        players: Vec<Player>,
        eliminated: String,
        votes: Vec<(String, String)>,
        next_round_delay: u64,
        remaining_time: u64,
        start_time: i64,
        chat_messages: Vec<ChatMessage>,
        eliminated_chat_messages: Vec<ChatMessage>,
        host: String,
    },
    GameOver {
        winner: Role,
        players: Vec<Player>,
        chat_messages: Vec<ChatMessage>,
        eliminated_chat_messages: Vec<ChatMessage>,
        host: String,
    },
}

/// What a transition did, for the room to announce.
#[derive(Debug, Clone)]
pub enum GameEvent {
    PlayerJoined(Player),
    PlayerLeft(Player),
    PlayerReady(String, bool),
    GameStarted(Vec<Player>),
    DescriptionAdded(String, String),
    NextPlayer(String),
    DescribePhaseComplete,
    VoteAdded(String, String),
    VotePhaseComplete(Vec<(String, String)>),
    PlayerEliminated(String),
    VoteTied,
    RoundComplete,
    GameOver(Role),
    ChatMessageAdded(ChatMessage),
    EliminatedChatMessageAdded(ChatMessage),
    GameReset,
    CountdownUpdate(u64),
    PlayerKicked(Player, String),
}

/// Which timed phase has run out, if any.
#[derive(Debug, Clone)]
pub enum TimeoutResult {
    NoTimeout,
    DescribeTimeout(String),
    VoteTimeout,
    ResultTimeout,
}

/// Some player in `ps` has id `id`.
pub open spec fn has_player(ps: Seq<Player>, id: Seq<char>) -> bool {
    exists|i: int| 0 <= i < ps.len() && (#[trigger] ps[i]).id@ == id
}

/// Some player in `ps` has id `id` and is alive.
pub open spec fn has_alive_player(ps: Seq<Player>, id: Seq<char>) -> bool {
    exists|i: int| 0 <= i < ps.len() && (#[trigger] ps[i]).id@ == id && ps[i].is_alive
}

/// Some player in `ps` has id `id` and has been eliminated.
pub open spec fn has_eliminated_player(ps: Seq<Player>, id: Seq<char>) -> bool {
    exists|i: int| 0 <= i < ps.len() && (#[trigger] ps[i]).id@ == id && !ps[i].is_alive
}

/// No two players share an id.
pub open spec fn ids_unique(ps: Seq<Player>) -> bool {
    forall|i: int, j: int| 0 <= i < ps.len() && 0 <= j < ps.len() && i != j ==> (#[trigger] ps[i]).id@
        != (#[trigger] ps[j]).id@
}

/// Some string in `ss` reads `id`.
pub open spec fn has_id(ss: Seq<String>, id: Seq<char>) -> bool {
    exists|i: int| 0 <= i < ss.len() && (#[trigger] ss[i])@ == id
}

/// No two strings in `ss` read the same.
pub open spec fn strings_unique(ss: Seq<String>) -> bool {
    forall|i: int, j: int| 0 <= i < ss.len() && 0 <= j < ss.len() && i != j ==> (#[trigger] ss[i])@
        != (#[trigger] ss[j])@
}

/// Some pair in `ps` has `id` as its first component.
pub open spec fn has_key(ps: Seq<(String, String)>, id: Seq<char>) -> bool {
    exists|i: int| 0 <= i < ps.len() && (#[trigger] ps[i]).0@ == id
}

/// No two pairs in `ps` share their first component.
pub open spec fn keys_unique(ps: Seq<(String, String)>) -> bool {
    forall|i: int, j: int| 0 <= i < ps.len() && 0 <= j < ps.len() && i != j ==> (#[trigger] ps[i]).0@
        != (#[trigger] ps[j]).0@
}

/// Number of alive players in `ps`.
pub open spec fn alive_count(ps: Seq<Player>) -> nat
    decreases ps.len(),
{
    if ps.len() == 0 {
        0
    } else {
        alive_count(ps.drop_last()) + if ps.last().is_alive {
            1nat
        } else {
            0nat
        }
    }
}

/// Number of alive players in `ps` whose role is `role`.
pub open spec fn alive_with_role(ps: Seq<Player>, role: Role) -> nat
    decreases ps.len(),
{
    if ps.len() == 0 {
        0
    } else {
        alive_with_role(ps.drop_last(), role) + if ps.last().is_alive && ps.last().role == Some(
            role,
        ) {
            1nat
        } else {
            0nat
        }
    }
}

impl GameState {
    /// The invariant each phase keeps. In the lobby: ids are unique, every
    /// ready id names a player and no id is ready twice. During a game: ids are unique and the describer's
    /// index is within the table; a player describes at most once per round
    /// and votes at most once, and only alive players hold ballots.
    pub open spec fn wf(&self) -> bool {
        match *self {
            GameState::Lobby { players, ready_players, .. } => {
                &&& ids_unique(players@)
                &&& strings_unique(ready_players@)
                &&& forall|i: int|
                    0 <= i < ready_players@.len() ==> has_player(
                        players@,
                        (#[trigger] ready_players@[i])@,
                    )
            },
            GameState::RoleAssignment { players } => ids_unique(players@),
            GameState::DescribePhase { players, current_player_index, descriptions, .. } => {
                &&& ids_unique(players@)
                &&& current_player_index <= players@.len()
                &&& keys_unique(descriptions@)
            },
            GameState::VotePhase { players, votes, descriptions, .. } => {
                &&& ids_unique(players@)
                &&& keys_unique(votes@)
                &&& keys_unique(descriptions@)
                &&& forall|i: int|
                    0 <= i < votes@.len() ==> has_alive_player(players@, (#[trigger] votes@[i]).0@)
            },
            GameState::ResultPhase { players, .. } => ids_unique(players@),
            GameState::GameOver { players, .. } => ids_unique(players@),
        }
    }

    /// An empty lobby.
    pub fn new(min_players: usize, max_players: usize, host: String) -> (r: GameState)
        ensures
            r.wf(),
            r matches GameState::Lobby {
                players,
                min_players: mn,
                max_players: mx,
                ready_players,
                chat_messages,
                eliminated_chat_messages,
                host: h,
            } && players@.len() == 0 && mn == min_players && mx == max_players
                && ready_players@.len() == 0 && chat_messages@.len() == 0
                && eliminated_chat_messages@.len() == 0 && h == host,
    {
        GameState::Lobby {
            players: Vec::new(),
            min_players,
            max_players,
            ready_players: Vec::new(),
            chat_messages: Vec::new(),
            eliminated_chat_messages: Vec::new(),
            host,
        }
    }
}

/// Index of the player with id `id`, if there is one.
pub fn find_player(players: &Vec<Player>, id: &String) -> (r: Option<usize>)
    ensures
        match r {
            Some(i) => i < players@.len() && players@[i as int].id@ == id@ && forall|j: int|
                0 <= j < i ==> (#[trigger] players@[j]).id@ != id@,
            None => !has_player(players@, id@),
        },
{
    let mut i: usize = 0;
    while i < players.len()
        invariant
            i <= players@.len(),
            forall|j: int| 0 <= j < i ==> (#[trigger] players@[j]).id@ != id@,
        decreases players.len() - i,
    {
        if players[i].id == *id {
            return Some(i);
        }
        i = i + 1;
    }
    None
}

/// Index of the string in `ids` that reads `id`, if there is one.
pub fn find_id(ids: &Vec<String>, id: &String) -> (r: Option<usize>)
    ensures
        match r {
            Some(i) => i < ids@.len() && ids@[i as int]@ == id@,
            None => !has_id(ids@, id@),
        },
{
    let mut i: usize = 0;
    while i < ids.len()
        invariant
            i <= ids@.len(),
            forall|j: int| 0 <= j < i ==> (#[trigger] ids@[j])@ != id@,
        decreases ids.len() - i,
    {
        if ids[i] == *id {
            return Some(i);
        }
        i = i + 1;
    }
    None
}

proof fn lemma_remove_keeps_unique_players(ps: Seq<Player>, k: int)
    requires
        ids_unique(ps),
        0 <= k < ps.len(),
    ensures
        ids_unique(ps.remove(k)),
        forall|id: Seq<char>| #[trigger]
            has_player(ps.remove(k), id) <==> has_player(ps, id) && id != ps[k].id@,
{
    let r = ps.remove(k);
    assert forall|i: int, j: int| 0 <= i < r.len() && 0 <= j < r.len() && i != j implies (#[trigger] r[i]).id@
        != (#[trigger] r[j]).id@ by {
        let a = if i < k { i } else { i + 1 };
        let b = if j < k { j } else { j + 1 };
        assert(r[i] == ps[a] && r[j] == ps[b]);
    }
    assert forall|id: Seq<char>| #[trigger] has_player(r, id) <==> has_player(ps, id) && id != ps[k].id@ by {
        if has_player(r, id) {
            let i = choose|i: int| 0 <= i < r.len() && (#[trigger] r[i]).id@ == id;
            let a = if i < k { i } else { i + 1 };
            assert(ps[a] == r[i]);
        }
        if has_player(ps, id) && id != ps[k].id@ {
            let a = choose|a: int| 0 <= a < ps.len() && (#[trigger] ps[a]).id@ == id;
            let i = if a < k { a } else { a - 1 };
            assert(r[i] == ps[a]);
        }
    }
}

proof fn lemma_remove_keeps_unique_strings(ss: Seq<String>, k: int)
    requires
        strings_unique(ss),
        0 <= k < ss.len(),
    ensures
        strings_unique(ss.remove(k)),
        forall|id: Seq<char>| #[trigger] has_id(ss.remove(k), id) <==> has_id(ss, id) && id != ss[k]@,
{
    let r = ss.remove(k);
    assert forall|i: int, j: int| 0 <= i < r.len() && 0 <= j < r.len() && i != j implies (#[trigger] r[i])@
        != (#[trigger] r[j])@ by {
        let a = if i < k { i } else { i + 1 };
        let b = if j < k { j } else { j + 1 };
        assert(r[i] == ss[a] && r[j] == ss[b]);
    }
    assert forall|id: Seq<char>| #[trigger] has_id(r, id) <==> has_id(ss, id) && id != ss[k]@ by {
        if has_id(r, id) {
            let i = choose|i: int| 0 <= i < r.len() && (#[trigger] r[i])@ == id;
            let a = if i < k { i } else { i + 1 };
            assert(ss[a] == r[i]);
        }
        if has_id(ss, id) && id != ss[k]@ {
            let a = choose|a: int| 0 <= a < ss.len() && (#[trigger] ss[a])@ == id;
            let i = if a < k { a } else { a - 1 };
            assert(r[i] == ss[a]);
        }
    }
}

/// Position of the string that reads `id` (meaningful when there is one).
pub open spec fn index_of_id(ss: Seq<String>, id: Seq<char>) -> int {
    choose|k: int| 0 <= k < ss.len() && (#[trigger] ss[k])@ == id
}

/// `ss` without the string that reads `id`; unchanged when there is none.
pub open spec fn drop_id(ss: Seq<String>, id: Seq<char>) -> Seq<String> {
    if has_id(ss, id) {
        ss.remove(index_of_id(ss, id))
    } else {
        ss
    }
}

/// Position of the player with id `id` (meaningful when there is one).
pub open spec fn index_of_player(ps: Seq<Player>, id: Seq<char>) -> int {
    choose|k: int| 0 <= k < ps.len() && (#[trigger] ps[k]).id@ == id
}

/// The player with id `id` (meaningful when there is one).
pub open spec fn player_by_id(ps: Seq<Player>, id: Seq<char>) -> Player {
    ps[index_of_player(ps, id)]
}

/// `ps` without the player with id `id`; unchanged when there is none.
pub open spec fn drop_player(ps: Seq<Player>, id: Seq<char>) -> Seq<Player> {
    if has_player(ps, id) {
        ps.remove(index_of_player(ps, id))
    } else {
        ps
    }
}

/// `s` is the lobby `base` with its seated players and ready list replaced
/// by `players` and `ready`, all else kept.
pub open spec fn lobby_update(
    base: GameState,
    s: GameState,
    players: Seq<Player>,
    ready: Seq<String>,
) -> bool {
    &&& base is Lobby
    &&& s is Lobby
    &&& s->Lobby_players@ == players
    &&& s->Lobby_ready_players@ == ready
    &&& s->Lobby_min_players == base->Lobby_min_players
    &&& s->Lobby_max_players == base->Lobby_max_players
    &&& s->Lobby_chat_messages == base->Lobby_chat_messages
    &&& s->Lobby_eliminated_chat_messages == base->Lobby_eliminated_chat_messages
    &&& s->Lobby_host == base->Lobby_host
}

/// Removes the string that reads `id` from a list whose strings are unique.
pub(crate) fn remove_id(ids: &mut Vec<String>, id: &String)
    requires
        strings_unique(old(ids)@),
    ensures
        final(ids)@ == drop_id(old(ids)@, id@),
        strings_unique(final(ids)@),
        forall|x: Seq<char>| #[trigger] has_id(final(ids)@, x) <==> has_id(old(ids)@, x) && x != id@,
{
    match find_id(ids, id) {
        Some(k) => {
            proof {
                lemma_remove_keeps_unique_strings(ids@, k as int);
                let c = index_of_id(ids@, id@);
                assert(has_id(ids@, id@));
                assert(ids@[c]@ == id@);
                assert(c == k);
            }
            ids.remove(k);
        },
        None => {},
    }
}

/// Removes and returns the player with id `id` from a list whose ids are
/// unique.
fn take_player(players: &mut Vec<Player>, id: &String) -> (r: Option<Player>)
    requires
        ids_unique(old(players)@),
    ensures
        final(players)@ == drop_player(old(players)@, id@),
        ids_unique(final(players)@),
        forall|x: Seq<char>| #[trigger]
            has_player(final(players)@, x) <==> has_player(old(players)@, x) && x != id@,
        match r {
            Some(p) => has_player(old(players)@, id@) && p == player_by_id(old(players)@, id@),
            None => !has_player(old(players)@, id@),
        },
{
    match find_player(players, id) {
        Some(k) => {
            proof {
                lemma_remove_keeps_unique_players(players@, k as int);
                let c = index_of_player(players@, id@);
                assert(has_player(players@, id@));
                assert(players@[c].id@ == id@);
                assert(c == k);
            }
            Some(players.remove(k))
        },
        None => None,
    }
}

proof fn lemma_ready_subset_after_drop(ps: Seq<Player>, ready: Seq<String>, id: Seq<char>)
    requires
        forall|i: int| 0 <= i < ready.len() ==> has_player(ps, (#[trigger] ready[i])@),
        strings_unique(ready),
        ids_unique(ps),
    ensures
        forall|i: int|
            0 <= i < drop_id(ready, id).len() ==> has_player(
                drop_player(ps, id),
                (#[trigger] drop_id(ready, id)[i])@,
            ),
{
    let r = drop_id(ready, id);
    assert forall|i: int| 0 <= i < r.len() implies has_player(drop_player(ps, id), (#[trigger] r[i])@) by {
        let j = if has_id(ready, id) && i >= index_of_id(ready, id) { i + 1 } else { i };
        if has_id(ready, id) {
            let c = index_of_id(ready, id);
            assert(ready[c]@ == id);
        }
        assert(r[i] == ready[j]);
        assert(r[i]@ != id);
        assert(has_player(ps, ready[j]@));
        if has_player(ps, id) {
            lemma_remove_keeps_unique_players(ps, index_of_player(ps, id));
            assert(ps[index_of_player(ps, id)].id@ == id);
        }
    }
}

/// What seating `player` does to `base` (see [`GameState::add_player`]).
pub open spec fn player_added(
    base: GameState,
    s: GameState,
    player: Player,
    r: Result<GameEvent, ErrorCode>,
) -> bool {
    match base {
        GameState::Lobby { players, max_players, ready_players, .. } => {
            if has_player(players@, player.id@) {
                &&& r == Ok::<GameEvent, ErrorCode>(GameEvent::PlayerJoined(player))
                &&& lobby_update(
                    base,
                    s,
                    players@,
                    drop_id(ready_players@, player.id@),
                )
            } else if players@.len() >= max_players {
                r == Err::<GameEvent, ErrorCode>(ErrorCode::RoomFull) && s
                    == base
            } else {
                &&& r == Ok::<GameEvent, ErrorCode>(GameEvent::PlayerJoined(player))
                &&& lobby_update(base, s, players@.push(player), ready_players@)
            }
        },
        _ => r == Err::<GameEvent, ErrorCode>(ErrorCode::GameStarted) && s
            == base,
    }
}

impl GameState {
    /// Seats `player` in the lobby. A player whose id is already seated is
    /// not seated twice: the join is reported again and the player must
    /// confirm readiness anew. A new player is refused when the room is full.
    pub fn add_player(&mut self, player: Player) -> (r: Result<GameEvent, ErrorCode>)
        requires
            old(self).wf(),
        ensures
            final(self).wf(),
            player_added(*old(self), *final(self), player, r),
    {
        match self {
            GameState::Lobby { players, max_players, ready_players, .. } => {
                if let Some(_) = find_player(players, &player.id) {
                    remove_id(ready_players, &player.id);
                    proof {
                        assert forall|i: int| 0 <= i < ready_players@.len() implies has_player(
                            players@,
                            (#[trigger] ready_players@[i])@,
                        ) by {
                            assert(has_id(ready_players@, ready_players@[i]@));
                        }
                    }
                    return Ok(GameEvent::PlayerJoined(player));
                }
                if players.len() >= *max_players {
                    return Err(ErrorCode::RoomFull);
                }
                let joined = player.duplicate();
                let ghost before = players@;
                players.push(player);
                proof {
                    let ps = players@;
                    assert(ps.drop_last() =~= before);
                    assert forall|i: int, j: int|
                        0 <= i < ps.len() && 0 <= j < ps.len() && i != j implies (#[trigger] ps[i]).id@
                        != (#[trigger] ps[j]).id@ by {
                        if i == ps.len() - 1 {
                            assert(!has_player(ps.drop_last(), ps[i].id@));
                            assert(ps.drop_last()[j] == ps[j]);
                        } else if j == ps.len() - 1 {
                            assert(!has_player(ps.drop_last(), ps[j].id@));
                            assert(ps.drop_last()[i] == ps[i]);
                        }
                    }
                    assert forall|i: int| 0 <= i < ready_players@.len() implies has_player(
                        players@,
                        (#[trigger] ready_players@[i])@,
                    ) by {
                        let prev = ps.drop_last();
                        assert(has_player(before, ready_players@[i]@));
                        let k = choose|k: int| 0 <= k < prev.len() && (#[trigger] prev[k]).id@ == ready_players@[i]@;
                        assert(ps[k] == prev[k]);
                    }
                }
                Ok(GameEvent::PlayerJoined(joined))
            },
            _ => Err(ErrorCode::GameStarted),
        }
    }
}

/// `p` brought back for a new game: alive, role and word cleared.
pub open spec fn revived(p: Player, now_ms: i64) -> Player {
    Player { id: p.id, name: p.name, role: None, word: None, is_alive: true, last_action: now_ms }
}

/// Every player of `ps` revived, in the same order.
pub open spec fn revive_all(ps: Seq<Player>, now_ms: i64) -> Seq<Player> {
    ps.map_values(|p: Player| revived(p, now_ms))
}

/// `s` is the lobby that a reset of the finished game `base` produces, with
/// ready list `ready`: the same players revived in their order, sizes from
/// `config`, public chat kept, eliminated-only chat cleared, and the first
/// player as host.
pub open spec fn reset_lobby(
    base: GameState,
    s: GameState,
    ready: Seq<String>,
    config: GameConfig,
    now_ms: i64,
) -> bool {
    &&& base is GameOver
    &&& base->GameOver_players@.len() > 0
    &&& s is Lobby
    &&& s->Lobby_players@ == revive_all(base->GameOver_players@, now_ms)
    &&& s->Lobby_ready_players@ == ready
    &&& s->Lobby_min_players == config.min_players
    &&& s->Lobby_max_players == config.max_players
    &&& s->Lobby_chat_messages == base->GameOver_chat_messages
    &&& s->Lobby_eliminated_chat_messages@.len() == 0
    &&& s->Lobby_host == base->GameOver_players@[0].id
}

proof fn lemma_revive_all_ids(ps: Seq<Player>, now_ms: i64)
    requires
        ids_unique(ps),
    ensures
        ids_unique(revive_all(ps, now_ms)),
        forall|id: Seq<char>| #[trigger] has_player(revive_all(ps, now_ms), id) <==> has_player(ps, id),
{
    let r = revive_all(ps, now_ms);
    assert forall|i: int| 0 <= i < r.len() implies (#[trigger] r[i]).id == ps[i].id by {}
    assert forall|id: Seq<char>| #[trigger] has_player(r, id) <==> has_player(ps, id) by {
        if has_player(ps, id) {
            let k = choose|k: int| 0 <= k < ps.len() && (#[trigger] ps[k]).id@ == id;
            assert(r[k].id == ps[k].id);
        }
        if has_player(r, id) {
            let k = choose|k: int| 0 <= k < r.len() && (#[trigger] r[k]).id@ == id;
            assert(r[k].id == ps[k].id);
        }
    }
}

/// What a ready intent from `player_id` does to `base` (see
/// [`GameState::player_ready`]), with outcome `r`.
pub open spec fn ready_applied(
    base: GameState,
    s: GameState,
    player_id: String,
    r: Result<GameEvent, ErrorCode>,
    config: GameConfig,
    now_ms: i64,
) -> bool {
    match base {
        GameState::Lobby { players, ready_players, min_players, .. } => {
            if !has_player(players@, player_id@) {
                r == Err::<GameEvent, ErrorCode>(ErrorCode::PlayerNotFound) && s
                    == base
            } else if has_id(ready_players@, player_id@) {
                let ready = drop_id(ready_players@, player_id@);
                &&& r == Ok::<GameEvent, ErrorCode>(
                    GameEvent::PlayerReady(player_id, ready.len() >= min_players),
                )
                &&& lobby_update(base, s, players@, ready)
            } else {
                let ready = ready_players@.push(player_id);
                &&& r == Ok::<GameEvent, ErrorCode>(
                    GameEvent::PlayerReady(player_id, ready.len() >= min_players),
                )
                &&& lobby_update(base, s, players@, ready)
            }
        },
        GameState::GameOver { players, .. } => {
            if players@.len() == 0 {
                r == Err::<GameEvent, ErrorCode>(ErrorCode::InvalidState) && s
                    == base
            } else if has_player(players@, player_id@) {
                &&& r == Ok::<GameEvent, ErrorCode>(
                    GameEvent::PlayerReady(player_id, 1 >= config.min_players),
                )
                &&& reset_lobby(
                    base,
                    s,
                    Seq::empty().push(player_id),
                    config,
                    now_ms,
                )
            } else {
                r == Err::<GameEvent, ErrorCode>(ErrorCode::PlayerNotFound) && s == base
            }
        },
        _ => r == Err::<GameEvent, ErrorCode>(ErrorCode::GameStarted) && s
            == base,
    }
}

/// What removing `player_id` does to `base` (see [`GameState::remove_player`]).
pub open spec fn player_removed(
    base: GameState,
    s: GameState,
    player_id: String,
    r: Result<GameEvent, ErrorCode>,
) -> bool {
    match base {
        GameState::Lobby { players, ready_players, .. } => {
            if has_player(players@, player_id@) {
                &&& r == Ok::<GameEvent, ErrorCode>(
                    GameEvent::PlayerLeft(player_by_id(players@, player_id@)),
                )
                &&& lobby_update(
                    base,
                    s,
                    drop_player(players@, player_id@),
                    drop_id(ready_players@, player_id@),
                )
            } else {
                r == Err::<GameEvent, ErrorCode>(ErrorCode::PlayerNotFound) && s
                    == base
            }
        },
        _ => r == Err::<GameEvent, ErrorCode>(ErrorCode::GameStarted) && s
            == base,
    }
}

/// What a kick of `target_id` by `kicker_id` does to `base` (see [`GameState::kick_player`]).
pub open spec fn player_kicked(
    base: GameState,
    s: GameState,
    kicker_id: String,
    target_id: String,
    r: Result<GameEvent, ErrorCode>,
) -> bool {
    match base {
        GameState::Lobby { players, ready_players, host, .. } => {
            if host@ != kicker_id@ {
                r == Err::<GameEvent, ErrorCode>(ErrorCode::PermissionDenied) && s
                    == base
            } else if !has_player(players@, target_id@) {
                r == Err::<GameEvent, ErrorCode>(ErrorCode::PlayerNotFound) && s
                    == base
            } else if kicker_id@ == target_id@ {
                r == Err::<GameEvent, ErrorCode>(ErrorCode::InvalidAction) && s
                    == base
            } else {
                &&& r == Ok::<GameEvent, ErrorCode>(
                    GameEvent::PlayerKicked(player_by_id(players@, target_id@), kicker_id),
                )
                &&& lobby_update(
                    base,
                    s,
                    drop_player(players@, target_id@),
                    drop_id(ready_players@, target_id@),
                )
            }
        },
        _ => r == Err::<GameEvent, ErrorCode>(ErrorCode::InvalidState) && s
            == base,
    }
}

impl GameState {
    /// Takes the player with id `player_id` out of the lobby, and out of the
    /// ready list.
    pub fn remove_player(&mut self, player_id: String) -> (r: Result<GameEvent, ErrorCode>)
        requires
            old(self).wf(),
        ensures
            final(self).wf(),
            player_removed(*old(self), *final(self), player_id, r),
    {
        match self {
            GameState::Lobby { players, ready_players, .. } => {
                if find_player(players, &player_id).is_none() {
                    return Err(ErrorCode::PlayerNotFound);
                }
                proof {
                    lemma_ready_subset_after_drop(players@, ready_players@, player_id@);
                }
                match take_player(players, &player_id) {
                    Some(p) => {
                        remove_id(ready_players, &player_id);
                        Ok(GameEvent::PlayerLeft(p))
                    },
                    None => Err(ErrorCode::PlayerNotFound),
                }
            },
            _ => Err(ErrorCode::GameStarted),
        }
    }

    /// The host removes `target_id` from the lobby. Only the host may kick,
    /// the target must be seated, and the host cannot kick themself.
    pub fn kick_player(&mut self, kicker_id: String, target_id: String) -> (r: Result<
        GameEvent,
        ErrorCode,
    >)
        requires
            old(self).wf(),
        ensures
            final(self).wf(),
            player_kicked(*old(self), *final(self), kicker_id, target_id, r),
    {
        match self {
            GameState::Lobby { players, ready_players, host, .. } => {
                if *host != kicker_id {
                    return Err(ErrorCode::PermissionDenied);
                }
                if find_player(players, &target_id).is_none() {
                    return Err(ErrorCode::PlayerNotFound);
                }
                if kicker_id == target_id {
                    return Err(ErrorCode::InvalidAction);
                }
                proof {
                    lemma_ready_subset_after_drop(players@, ready_players@, target_id@);
                }
                match take_player(players, &target_id) {
                    Some(p) => {
                        remove_id(ready_players, &target_id);
                        Ok(GameEvent::PlayerKicked(p, kicker_id))
                    },
                    None => Err(ErrorCode::PlayerNotFound),
                }
            },
            _ => Err(ErrorCode::InvalidState),
        }
    }

    /// Turns a finished game back into a lobby (see [`reset_lobby`]). Fails
    /// when the game has no players left to host it.
    pub fn reset_game(&mut self, config: &GameConfig, now_ms: i64) -> (r: Result<GameEvent, ErrorCode>)
        requires
            old(self).wf(),
        ensures
            final(self).wf(),
            if *old(self) is GameOver && (*old(self))->GameOver_players@.len() > 0 {
                &&& r == Ok::<GameEvent, ErrorCode>(GameEvent::GameReset)
                &&& reset_lobby(*old(self), *final(self), Seq::empty(), *config, now_ms)
            } else {
                r == Err::<GameEvent, ErrorCode>(ErrorCode::InvalidState) && *final(self) == *old(self)
            },
    {
        match self {
            GameState::GameOver { players, chat_messages, .. } => {
                if players.len() == 0 {
                    return Err(ErrorCode::InvalidState);
                }
                let host = players[0].id.clone();
                let mut fresh: Vec<Player> = Vec::new();
                let mut i: usize = 0;
                while i < players.len()
                    invariant
                        i <= players@.len(),
                        fresh@ == revive_all(players@.subrange(0, i as int), now_ms),
                    decreases players.len() - i,
                {
                    let p = &players[i];
                    fresh.push(
                        Player {
                            id: p.id.clone(),
                            name: p.name.clone(),
                            role: None,
                            word: None,
                            is_alive: true,
                            last_action: now_ms,
                        },
                    );
                    proof {
                        assert(revive_all(players@.subrange(0, i + 1), now_ms) =~= revive_all(
                            players@.subrange(0, i as int),
                            now_ms,
                        ).push(revived(players@[i as int], now_ms)));
                    }
                    i = i + 1;
                }
                proof {
                    assert(players@.subrange(0, players@.len() as int) =~= players@);
                    lemma_revive_all_ids(players@, now_ms);
                }
                let mut chat: Vec<ChatMessage> = Vec::new();
                std::mem::swap(chat_messages, &mut chat);
                *self = GameState::Lobby {
                    players: fresh,
                    min_players: config.min_players,
                    max_players: config.max_players,
                    ready_players: Vec::new(),
                    chat_messages: chat,
                    eliminated_chat_messages: Vec::new(),
                    host,
                };
                Ok(GameEvent::GameReset)
            },
            _ => Err(ErrorCode::InvalidState),
        }
    }

    /// Toggles the readiness of a seated player in the lobby.
    fn toggle_ready(&mut self, player_id: String) -> (r: Result<GameEvent, ErrorCode>)
        requires
            old(self).wf(),
        ensures
            final(self).wf(),
            match *old(self) {
                GameState::Lobby { players, ready_players, min_players, .. } => {
                    if !has_player(players@, player_id@) {
                        r == Err::<GameEvent, ErrorCode>(ErrorCode::PlayerNotFound) && *final(self)
                            == *old(self)
                    } else if has_id(ready_players@, player_id@) {
                        let ready = drop_id(ready_players@, player_id@);
                        &&& r == Ok::<GameEvent, ErrorCode>(
                            GameEvent::PlayerReady(player_id, ready.len() >= min_players),
                        )
                        &&& lobby_update(*old(self), *final(self), players@, ready)
                    } else {
                        let ready = ready_players@.push(player_id);
                        &&& r == Ok::<GameEvent, ErrorCode>(
                            GameEvent::PlayerReady(player_id, ready.len() >= min_players),
                        )
                        &&& lobby_update(*old(self), *final(self), players@, ready)
                    }
                },
                _ => r == Err::<GameEvent, ErrorCode>(ErrorCode::GameStarted) && *final(self)
                    == *old(self),
            },
    {
        match self {
            GameState::Lobby { players, ready_players, min_players, .. } => {
                if find_player(players, &player_id).is_none() {
                    return Err(ErrorCode::PlayerNotFound);
                }
                if find_id(ready_players, &player_id).is_some() {
                    remove_id(ready_players, &player_id);
                    proof {
                        assert forall|i: int| 0 <= i < ready_players@.len() implies has_player(
                            players@,
                            (#[trigger] ready_players@[i])@,
                        ) by {
                            assert(has_id(ready_players@, ready_players@[i]@));
                        }
                    }
                    let can_start = ready_players.len() >= *min_players;
                    return Ok(GameEvent::PlayerReady(player_id, can_start));
                }
                let ghost before = ready_players@;
                ready_players.push(player_id.clone());
                proof {
                    let rs = ready_players@;
                    assert(rs.drop_last() =~= before);
                    assert forall|i: int, j: int|
                        0 <= i < rs.len() && 0 <= j < rs.len() && i != j implies (#[trigger] rs[i])@
                        != (#[trigger] rs[j])@ by {
                        if i == rs.len() - 1 {
                            assert(rs[j] == before[j]);
                        } else if j == rs.len() - 1 {
                            assert(rs[i] == before[i]);
                        } else {
                            assert(rs[i] == before[i] && rs[j] == before[j]);
                        }
                    }
                    assert forall|i: int| 0 <= i < rs.len() implies has_player(
                        players@,
                        (#[trigger] rs[i])@,
                    ) by {
                        if i < rs.len() - 1 {
                            assert(rs[i] == before[i]);
                        }
                    }
                }
                let can_start = ready_players.len() >= *min_players;
                Ok(GameEvent::PlayerReady(player_id, can_start))
            },
            _ => Err(ErrorCode::GameStarted),
        }
    }

    /// Toggles the readiness of `player_id` and reports whether enough
    /// players are ready to start. In a finished game the room is first
    /// reset to a lobby (see [`GameState::reset_game`]); a failed reset, or
    /// a player who was not at the table, leaves the game as it was.
    pub fn player_ready(&mut self, player_id: String, config: &GameConfig, now_ms: i64) -> (r:
        Result<GameEvent, ErrorCode>)
        requires
            old(self).wf(),
        ensures
            final(self).wf(),
            ready_applied(*old(self), *final(self), player_id, r, *config, now_ms),
    {
        let finished = match self {
            GameState::GameOver { .. } => true,
            _ => false,
        };
        if finished {
            let member = match self {
                GameState::GameOver { players, .. } => players.len() == 0 || find_player(
                    players,
                    &player_id,
                ).is_some(),
                _ => true,
            };
            if !member {
                return Err(ErrorCode::PlayerNotFound);
            }
            match self.reset_game(config, now_ms) {
                Ok(_) => {},
                Err(e) => {
                    return Err(e);
                },
            }
            proof {
                lemma_revive_all_ids((*old(self))->GameOver_players@, now_ms);
                assert(Seq::<String>::empty().push(player_id) =~= seq![player_id]);
            }
        }
        self.toggle_ready(player_id)
    }
}

/// `order` lists each seat index below `n` exactly once.
pub open spec fn is_seat_permutation(order: Seq<usize>, n: nat) -> bool {
    &&& order.len() == n
    &&& order.no_duplicates()
    &&& forall|i: int| 0 <= i < order.len() ==> (order[i] as nat) < n
}

/// Seat `j` is among the first `k` entries of `order`.
pub open spec fn dealt_undercover(order: Seq<usize>, k: nat, j: int) -> bool {
    exists|i: int| 0 <= i < k && i < order.len() && order[i] as int == j
}

/// `p` holding `role` and the secret `word`.
pub open spec fn with_role(p: Player, role: Role, word: String) -> Player {
    Player {
        id: p.id,
        name: p.name,
        role: Some(role),
        word: Some(word),
        is_alive: p.is_alive,
        last_action: p.last_action,
    }
}

/// The table `ps` after dealing: the seats among the first `k` entries of
/// `order` are Undercover and hold `undercover_word`; every other seat is
/// Civilian and holds `civilian_word`.
pub open spec fn dealt_table(
    ps: Seq<Player>,
    order: Seq<usize>,
    k: nat,
    civilian_word: String,
    undercover_word: String,
) -> Seq<Player> {
    Seq::new(
        ps.len(),
        |j: int|
            if dealt_undercover(order, k, j) {
                with_role(ps[j], Role::Undercover, undercover_word)
            } else {
                with_role(ps[j], Role::Civilian, civilian_word)
            },
    )
}

/// The seats of `ps` whose role is `role`.
pub open spec fn seats_with_role(ps: Seq<Player>, role: Role) -> Set<int> {
    Set::new(|j: int| 0 <= j < ps.len() && ps[j].role == Some(role))
}

/// Dealing `k` Undercover roles along any permutation of the seats gives
/// exactly `k` Undercover seats and `n - k` Civilian seats.
pub proof fn lemma_dealt_counts(
    ps: Seq<Player>,
    order: Seq<usize>,
    k: nat,
    civilian_word: String,
    undercover_word: String,
)
    requires
        is_seat_permutation(order, ps.len()),
        k <= ps.len(),
    ensures
        seats_with_role(dealt_table(ps, order, k, civilian_word, undercover_word), Role::Undercover).len()
            == k,
        seats_with_role(dealt_table(ps, order, k, civilian_word, undercover_word), Role::Civilian).len()
            == ps.len() - k,
{
    let t = dealt_table(ps, order, k, civilian_word, undercover_word);
    let n = ps.len();
    let pre = order.subrange(0, k as int).map_values(|x: usize| x as int);
    assert(pre.no_duplicates()) by {
        assert forall|i: int, j: int| 0 <= i < pre.len() && 0 <= j < pre.len() && i != j implies pre[i]
            != pre[j] by {
            assert(order[i] != order[j]);
        }
    }
    pre.unique_seq_to_set();
    let uc = seats_with_role(t, Role::Undercover);
    assert(uc =~= pre.to_set()) by {
        assert forall|j: int| uc.contains(j) implies pre.to_set().contains(j) by {
            let i = choose|i: int| 0 <= i < k && i < order.len() && order[i] as int == j;
            assert(pre[i] == j);
        }
        assert forall|j: int| pre.to_set().contains(j) implies uc.contains(j) by {
            let i = choose|i: int| 0 <= i < pre.len() && pre[i] == j;
            assert(order[i] as int == j);
            assert(dealt_undercover(order, k, j));
        }
    }
    let all = set_int_range(0, n as int);
    lemma_int_range(0, n as int);
    let civ = seats_with_role(t, Role::Civilian);
    assert(civ =~= all.difference(uc));
    assert(all.intersect(uc) =~= uc);
    lemma_set_difference_len(all, uc);
}

/// A shuffle of `0, 1, ..., n-1` is a permutation of the seats.
proof fn lemma_shuffle_is_permutation(iota: Seq<usize>, shuffled: Seq<usize>)
    requires
        forall|i: int| 0 <= i < iota.len() ==> iota[i] as int == i,
        shuffled.to_multiset() == iota.to_multiset(),
    ensures
        is_seat_permutation(shuffled, iota.len()),
{
    assert(iota.no_duplicates());
    iota.lemma_multiset_has_no_duplicates();
    vstd::seq_lib::to_multiset_len(iota);
    vstd::seq_lib::to_multiset_len(shuffled);
    assert forall|x: usize| shuffled.to_multiset().contains(x) implies shuffled.to_multiset().count(x)
        == 1 by {}
    shuffled.lemma_multiset_has_no_duplicates_conv();
    assert forall|i: int| 0 <= i < shuffled.len() implies (shuffled[i] as nat) < iota.len() by {
        vstd::seq_lib::to_multiset_contains(shuffled, shuffled[i]);
        vstd::seq_lib::to_multiset_contains(iota, shuffled[i]);
        assert(shuffled.contains(shuffled[i]));
        let j = choose|j: int| 0 <= j < iota.len() && iota[j] == shuffled[i];
        assert(iota[j] as int == j);
    }
}

/// Deals roles and words along `order` (see [`dealt_table`]).
pub fn deal_roles(
    players: &Vec<Player>,
    order: &Vec<usize>,
    undercover: usize,
    civilian_word: &String,
    undercover_word: &String,
) -> (r: Vec<Player>)
    requires
        is_seat_permutation(order@, players@.len()),
    ensures
        r@ == dealt_table(players@, order@, undercover as nat, *civilian_word, *undercover_word),
{
    let n = players.len();
    let mut flags: Vec<bool> = Vec::new();
    while flags.len() < n
        invariant
            flags@.len() <= n,
            forall|j: int| 0 <= j < flags@.len() ==> !flags@[j],
        decreases n - flags@.len(),
    {
        flags.push(false);
    }
    let mut i: usize = 0;
    while i < undercover && i < n
        invariant
            n == players@.len(),
            is_seat_permutation(order@, n as nat),
            flags@.len() == n,
            i <= n,
            i <= undercover,
            forall|j: int| 0 <= j < n ==> flags@[j] == dealt_undercover(order@, i as nat, j),
        decreases n - i,
    {
        let seat = order[i];
        flags.set(seat, true);
        proof {
            assert forall|j: int| 0 <= j < n implies flags@[j] == dealt_undercover(
                order@,
                (i + 1) as nat,
                j,
            ) by {
                if dealt_undercover(order@, (i + 1) as nat, j) && !dealt_undercover(order@, i as nat, j) {
                    let w = choose|w: int| 0 <= w < i + 1 && w < order@.len() && order@[w] as int == j;
                    assert(w == i);
                }
                if dealt_undercover(order@, i as nat, j) {
                    let w = choose|w: int| 0 <= w < i && w < order@.len() && order@[w] as int == j;
                    assert(0 <= w < i + 1);
                }
            }
        }
        i = i + 1;
    }
    proof {
        assert forall|j: int| 0 <= j < n implies flags@[j] == dealt_undercover(
            order@,
            undercover as nat,
            j,
        ) by {
            if dealt_undercover(order@, undercover as nat, j) {
                let w = choose|w: int|
                    0 <= w < undercover && w < order@.len() && order@[w] as int == j;
                assert(0 <= w < i);
            }
            if dealt_undercover(order@, i as nat, j) {
                let w = choose|w: int| 0 <= w < i && w < order@.len() && order@[w] as int == j;
                assert(0 <= w < undercover);
            }
        }
    }
    let mut dealt: Vec<Player> = Vec::new();
    let mut j: usize = 0;
    while j < n
        invariant
            n == players@.len(),
            flags@.len() == n,
            j <= n,
            forall|x: int| 0 <= x < n ==> flags@[x] == dealt_undercover(order@, undercover as nat, x),
            dealt@ =~= dealt_table(players@, order@, undercover as nat, *civilian_word, *undercover_word).subrange(0, j as int),
        decreases n - j,
    {
        let p = &players[j];
        let (role, word) = if flags[j] {
            (Role::Undercover, undercover_word.clone())
        } else {
            (Role::Civilian, civilian_word.clone())
        };
        dealt.push(
            Player {
                id: p.id.clone(),
                name: p.name.clone(),
                role: Some(role),
                word: Some(word),
                is_alive: p.is_alive,
                last_action: p.last_action,
            },
        );
        j = j + 1;
    }
    dealt
}

/// `p` as others see it during a game: everything but the role.
pub open spec fn role_hidden(p: Player) -> Player {
    Player {
        id: p.id,
        name: p.name,
        role: None,
        word: p.word,
        is_alive: p.is_alive,
        last_action: p.last_action,
    }
}

/// Every player of `ps` with the role hidden, in the same order.
pub open spec fn hide_roles(ps: Seq<Player>) -> Seq<Player> {
    ps.map_values(|p: Player| role_hidden(p))
}

/// Copies `players` with their roles hidden.
pub fn players_without_roles(players: &Vec<Player>) -> (r: Vec<Player>)
    ensures
        r@ == hide_roles(players@),
{
    let mut out: Vec<Player> = Vec::new();
    let mut i: usize = 0;
    while i < players.len()
        invariant
            i <= players@.len(),
            out@ =~= hide_roles(players@).subrange(0, i as int),
        decreases players.len() - i,
    {
        let p = &players[i];
        out.push(
            Player {
                id: p.id.clone(),
                name: p.name.clone(),
                role: None,
                word: copy_string_option(&p.word),
                is_alive: p.is_alive,
                last_action: p.last_action,
            },
        );
        i = i + 1;
    }
    out
}

/// The lobby's players taken in the order `order` names them; ids that
/// name no player, or a player already taken, are passed over.
pub open spec fn seated_in_order(ps: Seq<Player>, order: Seq<String>) -> Seq<Player>
    decreases order.len(),
{
    if order.len() == 0 {
        Seq::empty()
    } else {
        let prev = seated_in_order(ps, order.drop_last());
        let id = order.last()@;
        if has_player(ps, id) && !has_player(prev, id) {
            prev.push(player_by_id(ps, id))
        } else {
            prev
        }
    }
}

/// Takes the lobby's players in join order (see [`seated_in_order`]).
pub fn seat_in_order(players: &Vec<Player>, order: &Vec<String>) -> (r: Vec<Player>)
    requires
        ids_unique(players@),
    ensures
        r@ == seated_in_order(players@, order@),
        ids_unique(r@),
{
    let mut seated: Vec<Player> = Vec::new();
    let mut i: usize = 0;
    while i < order.len()
        invariant
            ids_unique(players@),
            i <= order@.len(),
            seated@ == seated_in_order(players@, order@.subrange(0, i as int)),
            ids_unique(seated@),
        decreases order.len() - i,
    {
        proof {
            assert(order@.subrange(0, i + 1).drop_last() =~= order@.subrange(0, i as int));
        }
        match find_player(players, &order[i]) {
            Some(k) => {
                if find_player(&seated, &order[i]).is_none() {
                    proof {
                        let c = index_of_player(players@, order@[i as int]@);
                        assert(has_player(players@, order@[i as int]@));
                        assert(players@[c].id@ == order@[i as int]@);
                        assert(c == k as int);
                    }
                    let ghost before = seated@;
                    seated.push(players[k].duplicate());
                    proof {
                        let ss = seated@;
                        assert forall|a: int, b: int|
                            0 <= a < ss.len() && 0 <= b < ss.len() && a != b implies (#[trigger] ss[a]).id@
                            != (#[trigger] ss[b]).id@ by {
                            if a == ss.len() - 1 {
                                assert(ss[b] == before[b]);
                            } else if b == ss.len() - 1 {
                                assert(ss[a] == before[a]);
                            }
                        }
                    }
                }
            },
            None => {},
        }
        i = i + 1;
    }
    proof {
        assert(order@.subrange(0, order@.len() as int) =~= order@);
    }
    seated
}

/// Moves the messages out of `v`, leaving it empty.
fn take_messages(v: &mut Vec<ChatMessage>) -> (r: Vec<ChatMessage>)
    ensures
        r == *old(v),
        final(v)@.len() == 0,
{
    let mut out: Vec<ChatMessage> = Vec::new();
    std::mem::swap(v, &mut out);
    out
}

/// Moves the pairs out of `v`, leaving it empty.
fn take_pairs(v: &mut Vec<(String, String)>) -> (r: Vec<(String, String)>)
    ensures
        r == *old(v),
        final(v)@.len() == 0,
{
    let mut out: Vec<(String, String)> = Vec::new();
    std::mem::swap(v, &mut out);
    out
}

/// Moves the players out of `v`, leaving it empty.
fn take_players(v: &mut Vec<Player>) -> (r: Vec<Player>)
    ensures
        r == *old(v),
        final(v)@.len() == 0,
{
    let mut out: Vec<Player> = Vec::new();
    std::mem::swap(v, &mut out);
    out
}

/// What a successful start does to the lobby `base` (see
/// [`GameState::start_game`]): the seated players dealt their roles and
/// words along some permutation of the seats, the first seat's turn, a
/// fresh timer, the public chat kept, and the event with roles hidden.
pub open spec fn game_started(
    base: GameState,
    s: GameState,
    word_pair: Option<(String, String)>,
    player_order: Seq<String>,
    config: GameConfig,
    now_ms: i64,
    r: Result<GameEvent, ErrorCode>,
) -> bool {
    let players = base->Lobby_players;
    let chat_messages = base->Lobby_chat_messages;
    let host = base->Lobby_host;
    base is Lobby && word_pair is Some && {
        let seated = seated_in_order(players@, player_order);
        let n = seated.len();
        let (civilian_word, undercover_word) = word_pair->0;
        &&& s is DescribePhase
        &&& s->DescribePhase_players@.len() == n
        &&& exists|order: Seq<usize>|
            is_seat_permutation(order, n) && s->DescribePhase_players@
                == dealt_table(
                seated,
                order,
                undercover_quota(n),
                civilian_word,
                undercover_word,
            )
        &&& n >= 1 ==> seats_with_role(
            s->DescribePhase_players@,
            Role::Undercover,
        ).len() == undercover_quota(n) && seats_with_role(
            s->DescribePhase_players@,
            Role::Civilian,
        ).len() == n - undercover_quota(n)
        &&& s->DescribePhase_current_player_index == 0
        &&& s->DescribePhase_descriptions@.len() == 0
        &&& s->DescribePhase_current_player_start_time == now_ms
        &&& s->DescribePhase_player_duration == config.describe_time_limit
        &&& s->DescribePhase_remaining_time == config.describe_time_limit
        &&& s->DescribePhase_chat_messages == chat_messages
        &&& s->DescribePhase_eliminated_chat_messages@.len() == 0
        &&& s->DescribePhase_host == host
        &&& r matches Ok(GameEvent::GameStarted(view)) && view@ == hide_roles(
            s->DescribePhase_players@,
        )
    }
}

impl GameState {
    /// Starts the game from the lobby once at least `min_players` are
    /// ready. The players are seated in `player_order` (see
    /// [`seated_in_order`]); the Undercover roles (one for up to six
    /// players, a quarter rounded up beyond) go to seats drawn uniformly at
    /// random, and each player receives the word of their role from
    /// `word_pair` (civilian word, undercover word). Without a word pair the
    /// start fails and the lobby stays as it was. The event lists the table
    /// with roles hidden.
    pub fn start_game(
        &mut self,
        word_pair: Option<(String, String)>,
        player_order: &Vec<String>,
        config: &GameConfig,
        now_ms: i64,
    ) -> (r: Result<GameEvent, ErrorCode>)
        requires
            old(self).wf(),
        ensures
            final(self).wf(),
            match *old(self) {
                GameState::Lobby { players, ready_players, min_players, chat_messages, host, .. } => {
                    if ready_players@.len() < min_players {
                        r == Err::<GameEvent, ErrorCode>(ErrorCode::InvalidState) && *final(self)
                            == *old(self)
                    } else if word_pair is None {
                        r == Err::<GameEvent, ErrorCode>(ErrorCode::InternalError) && *final(self)
                            == *old(self)
                    } else {
                        game_started(*old(self), *final(self), word_pair, player_order@, *config, now_ms, r)
                    }
                },
                _ => r == Err::<GameEvent, ErrorCode>(ErrorCode::GameStarted) && *final(self)
                    == *old(self),
            },
    {
        match self {
            GameState::Lobby { players, ready_players, min_players, chat_messages, host, .. } => {
                if ready_players.len() < *min_players {
                    return Err(ErrorCode::InvalidState);
                }
                let (civilian_word, undercover_word) = match word_pair {
                    Some(pair) => pair,
                    None => {
                        return Err(ErrorCode::InternalError);
                    },
                };
                let seated = seat_in_order(players, player_order);
                let n = seated.len();
                let mut order: Vec<usize> = Vec::new();
                while order.len() < n
                    invariant
                        order@.len() <= n,
                        forall|i: int| 0 <= i < order@.len() ==> order@[i] as int == i,
                    decreases n - order@.len(),
                {
                    order.push(order.len());
                }
                let ghost iota = order@;
                shuffle_in_place(&mut order);
                proof {
                    lemma_shuffle_is_permutation(iota, order@);
                }
                let k = undercover_count(n);
                let dealt = deal_roles(&seated, &order, k, &civilian_word, &undercover_word);
                proof {
                    let t = dealt@;
                    assert forall|a: int, b: int|
                        0 <= a < t.len() && 0 <= b < t.len() && a != b implies (#[trigger] t[a]).id@
                        != (#[trigger] t[b]).id@ by {
                        assert(t[a].id == seated@[a].id && t[b].id == seated@[b].id);
                    }
                    if n >= 1 {
                        lemma_dealt_counts(seated@, order@, k as nat, civilian_word, undercover_word);
                    }
                }
                let view = players_without_roles(&dealt);
                let chat = take_messages(chat_messages);
                let host_id = host.clone();
                *self = GameState::DescribePhase {
                    players: dealt,
                    current_player_index: 0,
                    descriptions: Vec::new(),
                    current_player_start_time: now_ms,
                    player_duration: config.describe_time_limit,
                    remaining_time: config.describe_time_limit,
                    chat_messages: chat,
                    eliminated_chat_messages: Vec::new(),
                    host: host_id,
                };
                Ok(GameEvent::GameStarted(view))
            },
            _ => Err(ErrorCode::GameStarted),
        }
    }
}

/// Seat `i` is the first alive seat after seat `cur`.
pub open spec fn is_next_alive(ps: Seq<Player>, cur: int, i: int) -> bool {
    &&& cur < i < ps.len()
    &&& ps[i].is_alive
    &&& forall|j: int| cur < j < i ==> !(#[trigger] ps[j]).is_alive
}

/// No seat after seat `cur` is alive.
pub open spec fn none_alive_after(ps: Seq<Player>, cur: int) -> bool {
    forall|j: int| cur < j < ps.len() ==> !(#[trigger] ps[j]).is_alive
}

/// `s` is the vote that closes the describe phase `base`: the same table,
/// descriptions, chat and host, no votes yet, and a fresh vote timer.
pub open spec fn vote_opened(base: GameState, s: GameState, config: GameConfig, now_ms: i64) -> bool {
    &&& base is DescribePhase
    &&& s is VotePhase
    &&& s->VotePhase_players == base->DescribePhase_players
    &&& s->VotePhase_votes@.len() == 0
    &&& s->VotePhase_descriptions == base->DescribePhase_descriptions
    &&& s->VotePhase_start_time == now_ms
    &&& s->VotePhase_duration == config.vote_time_limit
    &&& s->VotePhase_remaining_time == config.vote_time_limit
    &&& s->VotePhase_chat_messages == base->DescribePhase_chat_messages
    &&& s->VotePhase_eliminated_chat_messages == base->DescribePhase_eliminated_chat_messages
    &&& s->VotePhase_host == base->DescribePhase_host
}

/// `s` is the describe phase `base` with the turn passed to seat `i`.
pub open spec fn turn_passed(base: GameState, s: GameState, i: int, now_ms: i64) -> bool {
    &&& base is DescribePhase
    &&& s is DescribePhase
    &&& s->DescribePhase_current_player_index == i
    &&& s->DescribePhase_current_player_start_time == now_ms
    &&& s->DescribePhase_players == base->DescribePhase_players
    &&& s->DescribePhase_descriptions == base->DescribePhase_descriptions
    &&& s->DescribePhase_player_duration == base->DescribePhase_player_duration
    &&& s->DescribePhase_remaining_time == base->DescribePhase_remaining_time
    &&& s->DescribePhase_chat_messages == base->DescribePhase_chat_messages
    &&& s->DescribePhase_eliminated_chat_messages == base->DescribePhase_eliminated_chat_messages
    &&& s->DescribePhase_host == base->DescribePhase_host
}

/// What passing the turn does to the describe phase `base`: the next alive
/// seat after the current one takes the turn, or, when there is none, the
/// vote opens.
pub open spec fn turn_advanced(
    base: GameState,
    s: GameState,
    r: Result<GameEvent, ErrorCode>,
    config: GameConfig,
    now_ms: i64,
) -> bool {
    let ps = base->DescribePhase_players@;
    let cur = base->DescribePhase_current_player_index as int;
    if none_alive_after(ps, cur) {
        r == Ok::<GameEvent, ErrorCode>(GameEvent::DescribePhaseComplete) && vote_opened(
            base,
            s,
            config,
            now_ms,
        )
    } else {
        exists|i: int|
            is_next_alive(ps, cur, i) && turn_passed(base, s, i, now_ms) && r == Ok::<
                GameEvent,
                ErrorCode,
            >(GameEvent::NextPlayer(ps[i].id))
    }
}

/// The first alive seat after seat `cur`, if any.
pub fn next_alive_after(players: &Vec<Player>, cur: usize) -> (r: Option<usize>)
    ensures
        match r {
            Some(i) => is_next_alive(players@, cur as int, i as int),
            None => none_alive_after(players@, cur as int),
        },
{
    let n = players.len();
    if cur >= n {
        return None;
    }
    let mut j: usize = cur + 1;
    while j < n
        invariant
            n == players@.len(),
            cur < j <= n,
            forall|x: int| cur < x < j ==> !(#[trigger] players@[x]).is_alive,
        decreases n - j,
    {
        if players[j].is_alive {
            return Some(j);
        }
        j = j + 1;
    }
    None
}

/// Index of the first pair whose key reads `id`, if any.
pub(crate) fn find_key(pairs: &Vec<(String, String)>, id: &String) -> (r: Option<usize>)
    ensures
        match r {
            Some(i) => i < pairs@.len() && pairs@[i as int].0@ == id@,
            None => !has_key(pairs@, id@),
        },
{
    let mut i: usize = 0;
    while i < pairs.len()
        invariant
            i <= pairs@.len(),
            forall|j: int| 0 <= j < i ==> (#[trigger] pairs@[j]).0@ != id@,
        decreases pairs.len() - i,
    {
        if pairs[i].0 == *id {
            return Some(i);
        }
        i = i + 1;
    }
    None
}

/// Position of the pair whose key reads `id` (meaningful when there is one).
pub open spec fn index_of_key(pairs: Seq<(String, String)>, id: Seq<char>) -> int {
    choose|k: int| 0 <= k < pairs.len() && (#[trigger] pairs[k]).0@ == id
}

/// `pairs` with the value under `key` set to `value`: replaced in place
/// when the key is present, appended otherwise.
pub open spec fn put_pair(pairs: Seq<(String, String)>, key: String, value: String) -> Seq<
    (String, String),
> {
    if has_key(pairs, key@) {
        pairs.update(index_of_key(pairs, key@), (key, value))
    } else {
        pairs.push((key, value))
    }
}

/// Sets the value under `key` in a list of pairs with unique keys.
pub(crate) fn set_pair(pairs: &mut Vec<(String, String)>, key: String, value: String)
    requires
        keys_unique(old(pairs)@),
    ensures
        final(pairs)@ == put_pair(old(pairs)@, key, value),
        keys_unique(final(pairs)@),
{
    match find_key(pairs, &key) {
        Some(k) => {
            proof {
                let c = index_of_key(pairs@, key@);
                assert(has_key(pairs@, key@));
                assert(pairs@[c].0@ == key@);
                assert(c == k);
            }
            pairs.set(k, (key, value));
            proof {
                let ps = pairs@;
                assert forall|i: int, j: int|
                    0 <= i < ps.len() && 0 <= j < ps.len() && i != j implies (#[trigger] ps[i]).0@
                    != (#[trigger] ps[j]).0@ by {
                    if i != k && j != k {
                        assert(ps[i] == old(pairs)@[i] && ps[j] == old(pairs)@[j]);
                    } else if i == k {
                        assert(ps[j] == old(pairs)@[j]);
                    } else {
                        assert(ps[i] == old(pairs)@[i]);
                    }
                }
            }
        },
        None => {
            let ghost before = pairs@;
            pairs.push((key, value));
            proof {
                let ps = pairs@;
                assert forall|i: int, j: int|
                    0 <= i < ps.len() && 0 <= j < ps.len() && i != j implies (#[trigger] ps[i]).0@
                    != (#[trigger] ps[j]).0@ by {
                    if i == ps.len() - 1 {
                        assert(ps[j] == before[j]);
                    } else if j == ps.len() - 1 {
                        assert(ps[i] == before[i]);
                    } else {
                        assert(ps[i] == before[i] && ps[j] == before[j]);
                    }
                }
            }
        },
    }
}

/// `s` is the describe phase `base` with `text` recorded as the description
/// of `id`, all else kept.
pub open spec fn description_recorded(base: GameState, s: GameState, id: String, text: String) -> bool {
    &&& base is DescribePhase
    &&& s is DescribePhase
    &&& s->DescribePhase_descriptions@ == put_pair(base->DescribePhase_descriptions@, id, text)
    &&& s->DescribePhase_players == base->DescribePhase_players
    &&& s->DescribePhase_current_player_index == base->DescribePhase_current_player_index
    &&& s->DescribePhase_current_player_start_time == base->DescribePhase_current_player_start_time
    &&& s->DescribePhase_player_duration == base->DescribePhase_player_duration
    &&& s->DescribePhase_remaining_time == base->DescribePhase_remaining_time
    &&& s->DescribePhase_chat_messages == base->DescribePhase_chat_messages
    &&& s->DescribePhase_eliminated_chat_messages == base->DescribePhase_eliminated_chat_messages
    &&& s->DescribePhase_host == base->DescribePhase_host
}

/// What a description from `player_id` does to `base` (see [`GameState::add_description`]).
pub open spec fn description_applied(
    base: GameState,
    s: GameState,
    player_id: String,
    description: String,
    r: Result<GameEvent, ErrorCode>,
) -> bool {
    match base {
        GameState::DescribePhase { players, current_player_index, descriptions, .. } => {
            if current_player_index >= players@.len() {
                r == Err::<GameEvent, ErrorCode>(ErrorCode::InvalidState) && s
                    == base
            } else if players@[current_player_index as int].id@ != player_id@ {
                r == Err::<GameEvent, ErrorCode>(ErrorCode::NotYourTurn) && s
                    == base
            } else if !players@[current_player_index as int].is_alive {
                r == Err::<GameEvent, ErrorCode>(ErrorCode::InvalidAction) && s
                    == base
            } else {
                &&& r == Ok::<GameEvent, ErrorCode>(
                    GameEvent::DescriptionAdded(player_id, description),
                )
                &&& description_recorded(base, s, player_id, description)
            }
        },
        _ => r == Err::<GameEvent, ErrorCode>(ErrorCode::InvalidState) && s
            == base,
    }
}

impl GameState {
    /// Records the description of the player whose turn it is. Refused when
    /// no turn is open, when `player_id` is not the active player, or when
    /// the active player has been eliminated.
    pub fn add_description(&mut self, player_id: String, description: String) -> (r: Result<
        GameEvent,
        ErrorCode,
    >)
        requires
            old(self).wf(),
        ensures
            final(self).wf(),
            description_applied(*old(self), *final(self), player_id, description, r),
    {
        match self {
            GameState::DescribePhase { players, current_player_index, descriptions, .. } => {
                if *current_player_index >= players.len() {
                    return Err(ErrorCode::InvalidState);
                }
                if players[*current_player_index].id != player_id {
                    return Err(ErrorCode::NotYourTurn);
                }
                if !players[*current_player_index].is_alive {
                    return Err(ErrorCode::InvalidAction);
                }
                set_pair(descriptions, player_id.clone(), description.clone());
                Ok(GameEvent::DescriptionAdded(player_id, description))
            },
            _ => Err(ErrorCode::InvalidState),
        }
    }

    /// Passes the turn: see [`turn_advanced`]. An eliminated seat never
    /// receives the turn.
    fn advance_turn(&mut self, config: &GameConfig, now_ms: i64) -> (r: Result<GameEvent, ErrorCode>)
        requires
            old(self).wf(),
        ensures
            final(self).wf(),
            if *old(self) is DescribePhase {
                turn_advanced(*old(self), *final(self), r, *config, now_ms)
            } else {
                r == Err::<GameEvent, ErrorCode>(ErrorCode::InvalidState) && *final(self) == *old(self)
            },
    {
        match self {
            GameState::DescribePhase {
                players,
                current_player_index,
                current_player_start_time,
                descriptions,
                chat_messages,
                eliminated_chat_messages,
                host,
                ..
            } => {
                match next_alive_after(players, *current_player_index) {
                    Some(next) => {
                        *current_player_index = next;
                        *current_player_start_time = now_ms;
                        return Ok(GameEvent::NextPlayer(players[next].id.clone()));
                    },
                    None => {},
                }
                let table = take_players(players);
                let said = take_pairs(descriptions);
                let chat = take_messages(chat_messages);
                let hidden_chat = take_messages(eliminated_chat_messages);
                let host_id = host.clone();
                *self = GameState::VotePhase {
                    players: table,
                    votes: Vec::new(),
                    descriptions: said,
                    start_time: now_ms,
                    duration: config.vote_time_limit,
                    remaining_time: config.vote_time_limit,
                    chat_messages: chat,
                    eliminated_chat_messages: hidden_chat,
                    host: host_id,
                };
                Ok(GameEvent::DescribePhaseComplete)
            },
            _ => Err(ErrorCode::InvalidState),
        }
    }

    /// Moves the turn to the next alive player, or opens the vote once every
    /// alive player has had a turn (see [`turn_advanced`]).
    pub fn advance_describe_phase(&mut self, config: &GameConfig, now_ms: i64) -> (r: Result<
        GameEvent,
        ErrorCode,
    >)
        requires
            old(self).wf(),
        ensures
            final(self).wf(),
            if *old(self) is DescribePhase {
                turn_advanced(*old(self), *final(self), r, *config, now_ms)
            } else {
                r == Err::<GameEvent, ErrorCode>(ErrorCode::InvalidState) && *final(self) == *old(self)
            },
    {
        self.advance_turn(config, now_ms)
    }

    /// The active player ran out of time: the turn passes exactly as
    /// [`GameState::advance_describe_phase`] passes it, with no description
    /// recorded.
    pub fn handle_describe_timeout(&mut self, config: &GameConfig, now_ms: i64) -> (r: Result<
        GameEvent,
        ErrorCode,
    >)
        requires
            old(self).wf(),
        ensures
            final(self).wf(),
            if *old(self) is DescribePhase {
                turn_advanced(*old(self), *final(self), r, *config, now_ms)
            } else {
                r == Err::<GameEvent, ErrorCode>(ErrorCode::InvalidState) && *final(self) == *old(self)
            },
    {
        self.advance_turn(config, now_ms)
    }
}

/// Every alive player of `ps` has a vote in `votes`.
pub open spec fn all_alive_voted(ps: Seq<Player>, votes: Seq<(String, String)>) -> bool {
    forall|i: int| 0 <= i < ps.len() && (#[trigger] ps[i]).is_alive ==> has_key(votes, ps[i].id@)
}

/// `s` is the result phase that closes the vote `base` with the ballots
/// `votes`: the same table, chat and host, the tally's outcome as the
/// eliminated id, and a fresh result timer.
pub open spec fn result_opened(
    base: GameState,
    s: GameState,
    votes: Seq<(String, String)>,
    config: GameConfig,
    now_ms: i64,
) -> bool {
    &&& base is VotePhase
    &&& s is ResultPhase
    &&& s->ResultPhase_players == base->VotePhase_players
    &&& s->ResultPhase_votes@ == votes
    &&& tally_outcome(votes, s->ResultPhase_eliminated@)
    &&& s->ResultPhase_next_round_delay == config.round_delay
    &&& s->ResultPhase_remaining_time == config.round_delay
    &&& s->ResultPhase_start_time == now_ms
    &&& s->ResultPhase_chat_messages == base->VotePhase_chat_messages
    &&& s->ResultPhase_eliminated_chat_messages == base->VotePhase_eliminated_chat_messages
    &&& s->ResultPhase_host == base->VotePhase_host
}

/// `after` extends the ballots `before` with one vote from every alive
/// player who had none, each for another alive player.
pub open spec fn ballots_completed(
    ps: Seq<Player>,
    before: Seq<(String, String)>,
    after: Seq<(String, String)>,
) -> bool {
    &&& after.len() >= before.len()
    &&& after.subrange(0, before.len() as int) == before
    &&& keys_unique(after)
    &&& all_alive_voted(ps, after)
    &&& forall|k: int|
        before.len() <= k < after.len() ==> {
            &&& has_alive_player(ps, (#[trigger] after[k]).0@)
            &&& !has_key(before, after[k].0@)
            &&& has_alive_player(ps, after[k].1@)
            &&& after[k].1@ != after[k].0@
        }
}

/// Whether the player with id `id` is seated and alive.
pub fn is_alive_player(players: &Vec<Player>, id: &String) -> (r: bool)
    ensures
        r == has_alive_player(players@, id@),
{
    let mut i: usize = 0;
    while i < players.len()
        invariant
            i <= players@.len(),
            forall|j: int| 0 <= j < i ==> !((#[trigger] players@[j]).id@ == id@ && players@[j].is_alive),
        decreases players.len() - i,
    {
        if players[i].is_alive && players[i].id == *id {
            return true;
        }
        i = i + 1;
    }
    false
}

/// Whether every alive player has voted.
fn everyone_voted(players: &Vec<Player>, votes: &Vec<(String, String)>) -> (r: bool)
    ensures
        r == all_alive_voted(players@, votes@),
{
    let mut i: usize = 0;
    while i < players.len()
        invariant
            i <= players@.len(),
            forall|j: int| 0 <= j < i && (#[trigger] players@[j]).is_alive ==> has_key(votes@, players@[j].id@),
        decreases players.len() - i,
    {
        if players[i].is_alive && find_key(votes, &players[i].id).is_none() {
            return false;
        }
        i = i + 1;
    }
    true
}

/// The ids of the alive players, in seat order.
fn alive_ids(players: &Vec<Player>) -> (r: Vec<String>)
    requires
        ids_unique(players@),
    ensures
        strings_unique(r@),
        forall|k: int| 0 <= k < r@.len() ==> has_alive_player(players@, (#[trigger] r@[k])@),
        forall|i: int| 0 <= i < players@.len() && (#[trigger] players@[i]).is_alive ==> has_id(r@, players@[i].id@),
        r@.len() == 0 <==> forall|i: int| 0 <= i < players@.len() ==> !(#[trigger] players@[i]).is_alive,
{
    let mut out: Vec<String> = Vec::new();
    let mut i: usize = 0;
    while i < players.len()
        invariant
            ids_unique(players@),
            i <= players@.len(),
            strings_unique(out@),
            forall|k: int| 0 <= k < out@.len() ==> exists|j: int| 0 <= j < i && players@[j].is_alive && (#[trigger] out@[k])@ == (#[trigger] players@[j]).id@,
            forall|j: int| 0 <= j < i && (#[trigger] players@[j]).is_alive ==> has_id(out@, players@[j].id@),
            out@.len() == 0 <==> forall|j: int| 0 <= j < i ==> !(#[trigger] players@[j]).is_alive,
        decreases players.len() - i,
    {
        if players[i].is_alive {
            let ghost before = out@;
            out.push(players[i].id.clone());
            proof {
                let os = out@;
                assert(os[os.len() - 1] == players@[i as int].id);
                assert forall|a: int, b: int|
                    0 <= a < os.len() && 0 <= b < os.len() && a != b implies (#[trigger] os[a])@
                    != (#[trigger] os[b])@ by {
                    if a == os.len() - 1 {
                        assert(os[b] == before[b]);
                        let j = choose|j: int| 0 <= j < i && players@[j].is_alive && before[b]@ == players@[j].id@;
                        assert(j != i);
                    } else if b == os.len() - 1 {
                        assert(os[a] == before[a]);
                        let j = choose|j: int| 0 <= j < i && players@[j].is_alive && before[a]@ == players@[j].id@;
                        assert(j != i);
                    } else {
                        assert(os[a] == before[a] && os[b] == before[b]);
                    }
                }
                assert forall|k: int| 0 <= k < os.len() implies exists|j: int| 0 <= j < i + 1 && players@[j].is_alive && (#[trigger] os[k])@ == (#[trigger] players@[j]).id@ by {
                    if k < os.len() - 1 {
                        assert(os[k] == before[k]);
                    } else {
                        assert(players@[i as int].id@ == os[k]@);
                    }
                }
                assert forall|j: int| 0 <= j < i + 1 && (#[trigger] players@[j]).is_alive implies has_id(os, players@[j].id@) by {
                    if j < i {
                        let k = choose|k: int| 0 <= k < before.len() && (#[trigger] before[k])@ == players@[j].id@;
                        assert(os[k] == before[k]);
                    } else {
                        assert(os[os.len() - 1]@ == players@[j].id@);
                    }
                }
            }
        }
        i = i + 1;
    }
    proof {
        assert forall|k: int| 0 <= k < out@.len() implies has_alive_player(players@, (#[trigger] out@[k])@) by {
            let j = choose|j: int| 0 <= j < i && players@[j].is_alive && out@[k]@ == players@[j].id@;
        }
    }
    out
}

/// Gives every alive player who has not voted a vote for another alive
/// player drawn uniformly at random. Needs at least two alive players.
fn fill_missing_votes(players: &Vec<Player>, votes: &mut Vec<(String, String)>)
    requires
        ids_unique(players@),
        keys_unique(old(votes)@),
        exists|a: int, b: int|
            0 <= a < players@.len() && 0 <= b < players@.len() && a != b && players@[a].is_alive
                && players@[b].is_alive,
    ensures
        ballots_completed(players@, old(votes)@, final(votes)@),
{
    let alive = alive_ids(players);
    proof {
        let (a, b) = choose|a: int, b: int|
            0 <= a < players@.len() && 0 <= b < players@.len() && a != b && players@[a].is_alive
                && players@[b].is_alive;
        assert(has_id(alive@, players@[a].id@));
        assert(has_id(alive@, players@[b].id@));
        let ka = choose|k: int| 0 <= k < alive@.len() && (#[trigger] alive@[k])@ == players@[a].id@;
        let kb = choose|k: int| 0 <= k < alive@.len() && (#[trigger] alive@[k])@ == players@[b].id@;
        assert(ka != kb);
        assert(alive@.len() >= 2);
    }
    let ghost before = votes@;
    let mut i: usize = 0;
    while i < alive.len()
        invariant
            ids_unique(players@),
            alive@.len() >= 2,
            strings_unique(alive@),
            forall|k: int| 0 <= k < alive@.len() ==> has_alive_player(players@, (#[trigger] alive@[k])@),
            forall|q: int| 0 <= q < players@.len() && (#[trigger] players@[q]).is_alive ==> has_id(alive@, players@[q].id@),
            i <= alive@.len(),
            votes@.len() >= before.len(),
            votes@.subrange(0, before.len() as int) == before,
            keys_unique(votes@),
            forall|k: int| 0 <= k < i ==> has_key(votes@, (#[trigger] alive@[k])@),
            forall|k: int|
                before.len() <= k < votes@.len() ==> {
                    &&& has_alive_player(players@, (#[trigger] votes@[k]).0@)
                    &&& !has_key(before, votes@[k].0@)
                    &&& has_alive_player(players@, votes@[k].1@)
                    &&& votes@[k].1@ != votes@[k].0@
                },
        decreases alive.len() - i,
    {
        let voter = &alive[i];
        if find_key(votes, voter).is_none() {
            let mut targets: Vec<String> = Vec::new();
            let mut j: usize = 0;
            while j < alive.len()
                invariant
                    j <= alive@.len(),
                    forall|k: int| 0 <= k < targets@.len() ==> has_id(alive@, (#[trigger] targets@[k])@) && targets@[k]@ != voter@,
                    forall|x: int| 0 <= x < j && (#[trigger] alive@[x])@ != voter@ ==> has_id(targets@, alive@[x]@),
                decreases alive.len() - j,
            {
                if alive[j] != *voter {
                    let ghost tb = targets@;
                    targets.push(alive[j].clone());
                    proof {
                        assert forall|x: int| 0 <= x < j + 1 && (#[trigger] alive@[x])@ != voter@ implies has_id(targets@, alive@[x]@) by {
                            if x < j {
                                let k = choose|k: int| 0 <= k < tb.len() && (#[trigger] tb[k])@ == alive@[x]@;
                                assert(targets@[k] == tb[k]);
                            } else {
                                assert(targets@[targets@.len() - 1] == alive@[x]);
                            }
                        }
                        assert forall|k: int| 0 <= k < targets@.len() implies has_id(alive@, (#[trigger] targets@[k])@) && targets@[k]@ != voter@ by {
                            if k < targets@.len() - 1 {
                                assert(targets@[k] == tb[k]);
                            } else {
                                assert(alive@[j as int] == targets@[k]);
                            }
                        }
                    }
                }
                j = j + 1;
            }
            proof {
                if alive@[0]@ != voter@ {
                    assert(has_id(targets@, alive@[0]@));
                } else {
                    assert(alive@[1]@ != alive@[0]@);
                    assert(has_id(targets@, alive@[1]@));
                }
            }
            let pick = random_below(targets.len());
            let target = targets[pick].clone();
            proof {
                let k = choose|k: int| 0 <= k < alive@.len() && (#[trigger] alive@[k])@ == target@;
                assert(has_alive_player(players@, alive@[k]@));
            }
            let ghost vb = votes@;
            votes.push((voter.clone(), target));
            proof {
                let vs = votes@;
                assert(vs.subrange(0, before.len() as int) =~= vb.subrange(0, before.len() as int));
                assert forall|a: int, b: int|
                    0 <= a < vs.len() && 0 <= b < vs.len() && a != b implies (#[trigger] vs[a]).0@
                    != (#[trigger] vs[b]).0@ by {
                    if a == vs.len() - 1 {
                        assert(vs[b] == vb[b]);
                    } else if b == vs.len() - 1 {
                        assert(vs[a] == vb[a]);
                    } else {
                        assert(vs[a] == vb[a] && vs[b] == vb[b]);
                    }
                }
                assert forall|k: int| 0 <= k < i + 1 implies has_key(vs, (#[trigger] alive@[k])@) by {
                    if k < i {
                        let w = choose|w: int| 0 <= w < vb.len() && (#[trigger] vb[w]).0@ == alive@[k]@;
                        assert(vs[w] == vb[w]);
                    } else {
                        assert(vs[vs.len() - 1].0@ == alive@[k]@);
                    }
                }
                assert(!has_key(before, voter@)) by {
                    if has_key(before, voter@) {
                        let w = choose|w: int| 0 <= w < before.len() && (#[trigger] before[w]).0@ == voter@;
                        assert(vb[w] == before[w]);
                    }
                }
                assert forall|k: int| before.len() <= k < vs.len() implies {
                    &&& has_alive_player(players@, (#[trigger] vs[k]).0@)
                    &&& !has_key(before, vs[k].0@)
                    &&& has_alive_player(players@, vs[k].1@)
                    &&& vs[k].1@ != vs[k].0@
                } by {
                    if k < vs.len() - 1 {
                        assert(vs[k] == vb[k]);
                    }
                }
            }
        }
        i = i + 1;
    }
    proof {
        assert forall|q: int| 0 <= q < players@.len() && (#[trigger] players@[q]).is_alive implies has_key(votes@, players@[q].id@) by {
            let k = choose|k: int| 0 <= k < alive@.len() && (#[trigger] alive@[k])@ == players@[q].id@;
            assert(has_key(votes@, alive@[k]@));
        }
    }
}

/// What a vote does to `base` (see [`GameState::add_vote`]).
pub open spec fn vote_applied(
    base: GameState,
    s: GameState,
    voter_id: String,
    target_id: String,
    r: Result<GameEvent, ErrorCode>,
    config: GameConfig,
    now_ms: i64,
) -> bool {
    match base {
        GameState::VotePhase { players, votes, .. } => {
            if !has_alive_player(players@, voter_id@) {
                r == Err::<GameEvent, ErrorCode>(ErrorCode::InvalidAction) && s
                    == base
            } else if has_key(votes@, voter_id@) {
                r == Err::<GameEvent, ErrorCode>(ErrorCode::AlreadyVoted) && s
                    == base
            } else if !has_alive_player(players@, target_id@) || target_id@ == voter_id@ {
                r == Err::<GameEvent, ErrorCode>(ErrorCode::InvalidVote) && s
                    == base
            } else {
                let ballots = votes@.push((voter_id, target_id));
                if all_alive_voted(players@, ballots) {
                    &&& r matches Ok(GameEvent::VotePhaseComplete(vs)) && vs@ == ballots
                    &&& result_opened(base, s, ballots, config, now_ms)
                } else {
                    &&& r == Ok::<GameEvent, ErrorCode>(GameEvent::VoteAdded(voter_id, target_id))
                    &&& s is VotePhase
                    &&& s->VotePhase_votes@ == ballots
                    &&& s->VotePhase_players == players
                    &&& s->VotePhase_descriptions == base->VotePhase_descriptions
                    &&& s->VotePhase_start_time == base->VotePhase_start_time
                    &&& s->VotePhase_duration == base->VotePhase_duration
                    &&& s->VotePhase_remaining_time == base->VotePhase_remaining_time
                    &&& s->VotePhase_chat_messages == base->VotePhase_chat_messages
                    &&& s->VotePhase_eliminated_chat_messages == base->VotePhase_eliminated_chat_messages
                    &&& s->VotePhase_host == base->VotePhase_host
                }
            }
        },
        _ => r == Err::<GameEvent, ErrorCode>(ErrorCode::InvalidState) && s
            == base,
    }
}

/// What a vote timeout does to `base` (see [`GameState::handle_vote_timeout`]).
pub open spec fn vote_timed_out(
    base: GameState,
    s: GameState,
    r: Result<GameEvent, ErrorCode>,
    config: GameConfig,
    now_ms: i64,
) -> bool {
    match base {
        GameState::VotePhase { players, votes, .. } => {
            &&& s is ResultPhase
            &&& r matches Ok(GameEvent::VotePhaseComplete(vs)) && vs@ == s->ResultPhase_votes@
            &&& if exists|a: int, b: int|
                0 <= a < players@.len() && 0 <= b < players@.len() && a != b
                    && players@[a].is_alive && players@[b].is_alive {
                &&& ballots_completed(players@, votes@, s->ResultPhase_votes@)
                &&& result_opened(
                    base,
                    s,
                    s->ResultPhase_votes@,
                    config,
                    now_ms,
                )
            } else {
                &&& s->ResultPhase_votes == votes
                &&& s->ResultPhase_players == players
                &&& (forall|i: int| 0 <= i < players@.len() ==> !(#[trigger] players@[i]).is_alive)
                    ==> s->ResultPhase_eliminated@ == tie_marker()
                &&& forall|i: int| 0 <= i < players@.len() && (#[trigger] players@[i]).is_alive
                    ==> s->ResultPhase_eliminated@ == players@[i].id@
                &&& s->ResultPhase_next_round_delay == config.round_delay
                &&& s->ResultPhase_remaining_time == config.round_delay
                &&& s->ResultPhase_start_time == now_ms
                &&& s->ResultPhase_chat_messages == base->VotePhase_chat_messages
                &&& s->ResultPhase_eliminated_chat_messages == base->VotePhase_eliminated_chat_messages
                &&& s->ResultPhase_host == base->VotePhase_host
            }
        },
        _ => r == Err::<GameEvent, ErrorCode>(ErrorCode::InvalidState) && s
            == base,
    }
}

impl GameState {
    /// Closes the vote: tallies the ballots and opens the result phase.
    fn close_vote(&mut self, config: &GameConfig, now_ms: i64)
        requires
            old(self).wf(),
            *old(self) is VotePhase,
        ensures
            final(self).wf(),
            result_opened(*old(self), *final(self), (*old(self))->VotePhase_votes@, *config, now_ms),
    {
        match self {
            GameState::VotePhase { players, votes, chat_messages, eliminated_chat_messages, host, .. } => {
                let eliminated = tally_votes(votes);
                let table = take_players(players);
                let ballots = take_pairs(votes);
                let chat = take_messages(chat_messages);
                let hidden_chat = take_messages(eliminated_chat_messages);
                let host_id = host.clone();
                *self = GameState::ResultPhase {
                    players: table,
                    eliminated,
                    votes: ballots,
                    next_round_delay: config.round_delay,
                    remaining_time: config.round_delay,
                    start_time: now_ms,
                    chat_messages: chat,
                    eliminated_chat_messages: hidden_chat,
                    host: host_id,
                };
            },
            _ => {},
        }
    }

    /// Casts `voter_id`'s vote for `target_id`. Both must be alive, a voter
    /// votes once, and nobody votes for themself. Once every alive player
    /// has voted, the vote is tallied at once and the result phase opens.
    pub fn add_vote(&mut self, voter_id: String, target_id: String, config: &GameConfig, now_ms: i64) -> (r:
        Result<GameEvent, ErrorCode>)
        requires
            old(self).wf(),
        ensures
            final(self).wf(),
            vote_applied(*old(self), *final(self), voter_id, target_id, r, *config, now_ms),
    {
        let complete = match self {
            GameState::VotePhase { players, votes, .. } => {
                if !is_alive_player(players, &voter_id) {
                    return Err(ErrorCode::InvalidAction);
                }
                if find_key(votes, &voter_id).is_some() {
                    return Err(ErrorCode::AlreadyVoted);
                }
                if !is_alive_player(players, &target_id) || target_id == voter_id {
                    return Err(ErrorCode::InvalidVote);
                }
                let ghost vb = votes@;
                votes.push((voter_id.clone(), target_id.clone()));
                proof {
                    let vs = votes@;
                    assert forall|a: int, b: int|
                        0 <= a < vs.len() && 0 <= b < vs.len() && a != b implies (#[trigger] vs[a]).0@
                        != (#[trigger] vs[b]).0@ by {
                        if a == vs.len() - 1 {
                            assert(vs[b] == vb[b]);
                        } else if b == vs.len() - 1 {
                            assert(vs[a] == vb[a]);
                        } else {
                            assert(vs[a] == vb[a] && vs[b] == vb[b]);
                        }
                    }
                }
                everyone_voted(players, votes)
            },
            _ => {
                return Err(ErrorCode::InvalidState);
            },
        };
        if complete {
            let ballots = match self {
                GameState::VotePhase { votes, .. } => clone_pairs(votes),
                _ => Vec::new(),
            };
            self.close_vote(config, now_ms);
            Ok(GameEvent::VotePhaseComplete(ballots))
        } else {
            Ok(GameEvent::VoteAdded(voter_id, target_id))
        }
    }

    /// The vote ran out of time. With at least two alive players, every
    /// alive player who has not voted is given a vote for another alive
    /// player drawn uniformly at random, and the completed ballots are
    /// tallied (see [`ballots_completed`]). With one alive player that player
    /// is eliminated; with none, the result is a tie.
    pub fn handle_vote_timeout(&mut self, config: &GameConfig, now_ms: i64) -> (r: Result<
        GameEvent,
        ErrorCode,
    >)
        requires
            old(self).wf(),
        ensures
            final(self).wf(),
            vote_timed_out(*old(self), *final(self), r, *config, now_ms),
    {
        match self {
            GameState::VotePhase { players, votes, chat_messages, eliminated_chat_messages, host, .. } => {
                let alive = alive_ids(players);
                if alive.len() <= 1 {
                    let eliminated = if alive.len() == 0 {
                        proof {
                            reveal_strlit("tie");
                        }
                        String::from_str("tie")
                    } else {
                        alive[0].clone()
                    };
                    proof {
                        if alive@.len() == 1 {
                            assert forall|i: int| 0 <= i < players@.len() && (#[trigger] players@[i]).is_alive
                                implies eliminated@ == players@[i].id@ by {
                                assert(has_id(alive@, players@[i].id@));
                                assert(has_alive_player(players@, alive@[0]@));
                                let j = choose|j: int| 0 <= j < players@.len() && (#[trigger] players@[j]).id@ == alive@[0]@ && players@[j].is_alive;
                                assert(players@[j].id@ == players@[i].id@);
                                assert(i == j);
                            }
                        }
                        assert(!exists|a: int, b: int|
                            0 <= a < players@.len() && 0 <= b < players@.len() && a != b
                                && players@[a].is_alive && players@[b].is_alive) by {
                            if exists|a: int, b: int|
                                0 <= a < players@.len() && 0 <= b < players@.len() && a != b
                                    && players@[a].is_alive && players@[b].is_alive {
                                let (a, b) = choose|a: int, b: int|
                                    0 <= a < players@.len() && 0 <= b < players@.len() && a != b
                                        && players@[a].is_alive && players@[b].is_alive;
                                assert(has_id(alive@, players@[a].id@));
                                assert(has_id(alive@, players@[b].id@));
                                let ka = choose|k: int| 0 <= k < alive@.len() && (#[trigger] alive@[k])@ == players@[a].id@;
                                let kb = choose|k: int| 0 <= k < alive@.len() && (#[trigger] alive@[k])@ == players@[b].id@;
                                assert(ka == kb);
                            }
                        }
                    }
                    let ballots = clone_pairs(votes);
                    let table = take_players(players);
                    let kept = take_pairs(votes);
                    let chat = take_messages(chat_messages);
                    let hidden_chat = take_messages(eliminated_chat_messages);
                    let host_id = host.clone();
                    *self = GameState::ResultPhase {
                        players: table,
                        eliminated,
                        votes: kept,
                        next_round_delay: config.round_delay,
                        remaining_time: config.round_delay,
                        start_time: now_ms,
                        chat_messages: chat,
                        eliminated_chat_messages: hidden_chat,
                        host: host_id,
                    };
                    let ghost vs = ballots@;
                    proof {
                        assert(*self is ResultPhase);
                        assert(self->ResultPhase_players@ == old(self)->VotePhase_players@);
                        assert(self->ResultPhase_votes == (*old(self))->VotePhase_votes);
                        assert(vs == self->ResultPhase_votes@);
                        let ps = (*old(self))->VotePhase_players@;
                        assert(!exists|a: int, b: int|
                            0 <= a < ps.len() && 0 <= b < ps.len() && a != b
                                && ps[a].is_alive && ps[b].is_alive);
                        assert((forall|i: int| 0 <= i < ps.len() ==> !(#[trigger] ps[i]).is_alive)
                            ==> self->ResultPhase_eliminated@ == tie_marker());
                        assert(forall|i: int| 0 <= i < ps.len() && (#[trigger] ps[i]).is_alive
                            ==> self->ResultPhase_eliminated@ == ps[i].id@);
                        assert(self->ResultPhase_host == (*old(self))->VotePhase_host);
                        assert(self->ResultPhase_chat_messages == (*old(self))->VotePhase_chat_messages);
                    }
                    return Ok(GameEvent::VotePhaseComplete(ballots));
                }
                proof {
                    assert(has_alive_player(players@, alive@[0]@));
                    assert(has_alive_player(players@, alive@[1]@));
                    let pa = choose|j: int| 0 <= j < players@.len() && (#[trigger] players@[j]).id@ == alive@[0]@ && players@[j].is_alive;
                    let pb = choose|j: int| 0 <= j < players@.len() && (#[trigger] players@[j]).id@ == alive@[1]@ && players@[j].is_alive;
                    assert(pa != pb);
                }
                let ghost before = votes@;
                fill_missing_votes(players, votes);
                proof {
                    let vs = votes@;
                    assert forall|i: int| 0 <= i < vs.len() implies has_alive_player(
                        players@,
                        (#[trigger] vs[i]).0@,
                    ) by {
                        if i < before.len() {
                            assert(vs.subrange(0, before.len() as int)[i] == vs[i]);
                            assert(before[i] == vs[i]);
                        }
                    }
                }
            },
            _ => {
                return Err(ErrorCode::InvalidState);
            },
        }
        let ballots = match self {
            GameState::VotePhase { votes, .. } => clone_pairs(votes),
            _ => Vec::new(),
        };
        self.close_vote(config, now_ms);
        Ok(GameEvent::VotePhaseComplete(ballots))
    }
}

/// A copy of a list of pairs.
pub fn clone_pairs(pairs: &Vec<(String, String)>) -> (r: Vec<(String, String)>)
    ensures
        r@ == pairs@,
{
    let mut out: Vec<(String, String)> = Vec::new();
    let mut i: usize = 0;
    while i < pairs.len()
        invariant
            i <= pairs@.len(),
            out@ =~= pairs@.subrange(0, i as int),
        decreases pairs.len() - i,
    {
        out.push((pairs[i].0.clone(), pairs[i].1.clone()));
        i = i + 1;
    }
    out
}

/// `ps` with every player whose id is `id` marked eliminated.
pub open spec fn eliminate(ps: Seq<Player>, id: Seq<char>) -> Seq<Player> {
    Seq::new(
        ps.len(),
        |j: int|
            if ps[j].id@ == id {
                Player {
                    id: ps[j].id,
                    name: ps[j].name,
                    role: ps[j].role,
                    word: ps[j].word,
                    is_alive: false,
                    last_action: ps[j].last_action,
                }
            } else {
                ps[j]
            },
    )
}

/// The table after the result `eliminated` is applied: unchanged on a tie.
pub open spec fn table_after_result(ps: Seq<Player>, eliminated: Seq<char>) -> Seq<Player> {
    if eliminated == tie_marker() {
        ps
    } else {
        eliminate(ps, eliminated)
    }
}

/// Alive players of `ps` whose role is not Undercover.
pub open spec fn alive_civilians(ps: Seq<Player>) -> int {
    alive_count(ps) - alive_with_role(ps, Role::Undercover)
}

/// Which side has won the table `ps`, if any (see [`winner_of`]).
pub open spec fn table_winner(ps: Seq<Player>) -> Option<Role> {
    winner_of(alive_with_role(ps, Role::Undercover), alive_civilians(ps) as nat)
}

proof fn lemma_role_count_bounded(ps: Seq<Player>, role: Role)
    ensures
        alive_with_role(ps, role) <= alive_count(ps),
        alive_with_role(ps, role) > 0 ==> exists|i: int| 0 <= i < ps.len() && (#[trigger] ps[i]).is_alive,
    decreases ps.len(),
{
    if ps.len() > 0 {
        lemma_role_count_bounded(ps.drop_last(), role);
        if alive_with_role(ps.drop_last(), role) > 0 {
            let i = choose|i: int| 0 <= i < ps.drop_last().len() && (#[trigger] ps.drop_last()[i]).is_alive;
            assert(ps[i] == ps.drop_last()[i]);
        }
        if ps.last().is_alive {
            assert(ps[ps.len() - 1].is_alive);
        }
    }
}

/// Counts the alive players.
pub fn count_alive(players: &Vec<Player>) -> (r: usize)
    ensures
        r == alive_count(players@),
{
    let mut count: usize = 0;
    let mut i: usize = 0;
    while i < players.len()
        invariant
            i <= players@.len(),
            count == alive_count(players@.subrange(0, i as int)),
            count <= i,
        decreases players.len() - i,
    {
        assert(players@.subrange(0, i + 1).drop_last() =~= players@.subrange(0, i as int));
        if players[i].is_alive {
            count = count + 1;
        }
        i = i + 1;
    }
    assert(players@.subrange(0, players@.len() as int) =~= players@);
    count
}

/// Counts the alive players whose role is `role`.
pub fn count_alive_with_role(players: &Vec<Player>, role: Role) -> (r: usize)
    ensures
        r == alive_with_role(players@, role),
{
    let mut count: usize = 0;
    let mut i: usize = 0;
    while i < players.len()
        invariant
            i <= players@.len(),
            count == alive_with_role(players@.subrange(0, i as int), role),
            count <= i,
        decreases players.len() - i,
    {
        assert(players@.subrange(0, i + 1).drop_last() =~= players@.subrange(0, i as int));
        if players[i].is_alive && players[i].role == Some(role) {
            count = count + 1;
        }
        i = i + 1;
    }
    assert(players@.subrange(0, players@.len() as int) =~= players@);
    count
}

/// The first alive seat, if any.
pub fn first_alive(players: &Vec<Player>) -> (r: Option<usize>)
    ensures
        match r {
            Some(i) => is_next_alive(players@, -1, i as int),
            None => none_alive_after(players@, -1),
        },
{
    let mut j: usize = 0;
    while j < players.len()
        invariant
            j <= players@.len(),
            forall|x: int| 0 <= x < j ==> !(#[trigger] players@[x]).is_alive,
        decreases players.len() - j,
    {
        if players[j].is_alive {
            return Some(j);
        }
        j = j + 1;
    }
    None
}

/// Marks every player whose id is `id` as eliminated.
fn mark_eliminated(players: &mut Vec<Player>, id: &String)
    requires
        ids_unique(old(players)@),
    ensures
        final(players)@ == eliminate(old(players)@, id@),
        ids_unique(final(players)@),
{
    let ghost start = players@;
    let mut i: usize = 0;
    while i < players.len()
        invariant
            players@.len() == start.len(),
            i <= players@.len(),
            forall|j: int| 0 <= j < i ==> players@[j] == eliminate(start, id@)[j],
            forall|j: int| i <= j < players@.len() ==> players@[j] == start[j],
        decreases players.len() - i,
    {
        if players[i].id == *id {
            let mut p = players[i].duplicate();
            p.is_alive = false;
            players.set(i, p);
        }
        i = i + 1;
    }
    proof {
        assert(players@ =~= eliminate(start, id@));
        let ps = players@;
        assert forall|a: int, b: int| 0 <= a < ps.len() && 0 <= b < ps.len() && a != b implies (#[trigger] ps[a]).id@
            != (#[trigger] ps[b]).id@ by {
            assert(ps[a].id == start[a].id && ps[b].id == start[b].id);
        }
    }
}

/// What applying the result phase `base` does (see
/// [`GameState::process_result_phase`]): the game ends with the winner of
/// the resulting table, or a new round starts at its first alive seat.
pub open spec fn result_applied(
    base: GameState,
    s: GameState,
    r: Result<GameEvent, ErrorCode>,
    config: GameConfig,
    now_ms: i64,
) -> bool {
    base is ResultPhase && {
        let players = base->ResultPhase_players;
        let eliminated = base->ResultPhase_eliminated;
        let chat_messages = base->ResultPhase_chat_messages;
        let eliminated_chat_messages = base->ResultPhase_eliminated_chat_messages;
        let host = base->ResultPhase_host;
        let table = table_after_result(players@, eliminated@);
        match table_winner(table) {
            Some(w) => {
                &&& r == Ok::<GameEvent, ErrorCode>(GameEvent::GameOver(w))
                &&& s is GameOver
                &&& s->GameOver_winner == w
                &&& s->GameOver_players@ == table
                &&& s->GameOver_chat_messages == chat_messages
                &&& s->GameOver_eliminated_chat_messages
                    == eliminated_chat_messages
                &&& s->GameOver_host == host
            },
            None => {
                &&& r == Ok::<GameEvent, ErrorCode>(GameEvent::RoundComplete)
                &&& s is DescribePhase
                &&& s->DescribePhase_players@ == table
                &&& is_next_alive(
                    table,
                    -1,
                    s->DescribePhase_current_player_index as int,
                )
                &&& s->DescribePhase_descriptions@.len() == 0
                &&& s->DescribePhase_current_player_start_time == now_ms
                &&& s->DescribePhase_player_duration
                    == config.describe_time_limit
                &&& s->DescribePhase_remaining_time
                    == config.describe_time_limit
                &&& s->DescribePhase_chat_messages == chat_messages
                &&& s->DescribePhase_eliminated_chat_messages
                    == eliminated_chat_messages
                &&& s->DescribePhase_host == host
            },
        }
    }
}

impl GameState {
    /// Applies the vote's result and decides how the game goes on: the
    /// eliminated player (none on a tie) is marked out; then Civilians win
    /// if no Undercover is alive, Undercover wins if they outnumber the
    /// alive Civilians or at most two players remain; otherwise a new
    /// describe round starts with the first alive player.
    pub fn process_result_phase(&mut self, config: &GameConfig, now_ms: i64) -> (r: Result<
        GameEvent,
        ErrorCode,
    >)
        requires
            old(self).wf(),
        ensures
            final(self).wf(),
            match *old(self) {
                GameState::ResultPhase { .. } => result_applied(*old(self), *final(self), r, *config, now_ms),
                _ => r == Err::<GameEvent, ErrorCode>(ErrorCode::InvalidState) && *final(self)
                    == *old(self),
            },
    {
        match self {
            GameState::ResultPhase {
                players,
                eliminated,
                chat_messages,
                eliminated_chat_messages,
                host,
                ..
            } => {
                proof {
                    reveal_strlit("tie");
                }
                let tie = String::from_str("tie");
                let ghost start = players@;
                if *eliminated != tie {
                    mark_eliminated(players, eliminated);
                }
                assert(tie@ == tie_marker());
                assert(players@ == table_after_result(start, eliminated@));
                let undercover = count_alive_with_role(players, Role::Undercover);
                let alive = count_alive(players);
                proof {
                    lemma_role_count_bounded(players@, Role::Undercover);
                }
                let civilians = alive - undercover;
                assert(civilians == alive_civilians(players@));
                let chat = take_messages(chat_messages);
                let hidden_chat = take_messages(eliminated_chat_messages);
                let host_id = host.clone();
                match decide_winner(undercover, civilians) {
                    Some(w) => {
                        let table = take_players(players);
                        *self = GameState::GameOver {
                            winner: w,
                            players: table,
                            chat_messages: chat,
                            eliminated_chat_messages: hidden_chat,
                            host: host_id,
                        };
                        Ok(GameEvent::GameOver(w))
                    },
                    None => {
                        let first = match first_alive(players) {
                            Some(i) => i,
                            None => {
                                proof {
                                    assert(undercover > 0);
                                    let i = choose|i: int| 0 <= i < players@.len() && (#[trigger] players@[i]).is_alive;
                                    assert(-1 < i);
                                }
                                0
                            },
                        };
                        let table = take_players(players);
                        *self = GameState::DescribePhase {
                            players: table,
                            current_player_index: first,
                            descriptions: Vec::new(),
                            current_player_start_time: now_ms,
                            player_duration: config.describe_time_limit,
                            remaining_time: config.describe_time_limit,
                            chat_messages: chat,
                            eliminated_chat_messages: hidden_chat,
                            host: host_id,
                        };
                        Ok(GameEvent::RoundComplete)
                    },
                }
            },
            _ => Err(ErrorCode::InvalidState),
        }
    }
}

/// The win rule, on the alive counts: one Undercover facing no Civilian
/// wins; with no Undercover alive the Civilians win whatever their number;
/// with two players left and an Undercover among them, Undercover wins
/// without holding a majority.
pub proof fn lemma_win_conditions(alive_undercover: nat, alive_civilian: nat)
    ensures
        alive_undercover == 1 && alive_civilian == 0 ==> winner_of(alive_undercover, alive_civilian)
            == Some(Role::Undercover),
        alive_undercover == 0 ==> winner_of(alive_undercover, alive_civilian) == Some(
            Role::Civilian,
        ),
        alive_undercover + alive_civilian == 2 && alive_undercover >= 1 ==> winner_of(
            alive_undercover,
            alive_civilian,
        ) == Some(Role::Undercover),
{
}

/// The players of any phase.
pub open spec fn table_of(s: GameState) -> Seq<Player> {
    match s {
        GameState::Lobby { players, .. } => players@,
        GameState::RoleAssignment { players } => players@,
        GameState::DescribePhase { players, .. } => players@,
        GameState::VotePhase { players, .. } => players@,
        GameState::ResultPhase { players, .. } => players@,
        GameState::GameOver { players, .. } => players@,
    }
}

/// The public chat of any phase (none while roles are assigned).
pub open spec fn chat_of(s: GameState) -> Seq<ChatMessage> {
    match s {
        GameState::Lobby { chat_messages, .. } => chat_messages@,
        GameState::RoleAssignment { .. } => Seq::empty(),
        GameState::DescribePhase { chat_messages, .. } => chat_messages@,
        GameState::VotePhase { chat_messages, .. } => chat_messages@,
        GameState::ResultPhase { chat_messages, .. } => chat_messages@,
        GameState::GameOver { chat_messages, .. } => chat_messages@,
    }
}

/// The eliminated-only chat of any phase (none while roles are assigned).
pub open spec fn hidden_chat_of(s: GameState) -> Seq<ChatMessage> {
    match s {
        GameState::Lobby { eliminated_chat_messages, .. } => eliminated_chat_messages@,
        GameState::RoleAssignment { .. } => Seq::empty(),
        GameState::DescribePhase { eliminated_chat_messages, .. } => eliminated_chat_messages@,
        GameState::VotePhase { eliminated_chat_messages, .. } => eliminated_chat_messages@,
        GameState::ResultPhase { eliminated_chat_messages, .. } => eliminated_chat_messages@,
        GameState::GameOver { eliminated_chat_messages, .. } => eliminated_chat_messages@,
    }
}

/// The start and duration of the running timer, for the timed phases.
pub open spec fn timer_of(s: GameState) -> Option<(i64, u64)> {
    match s {
        GameState::DescribePhase { current_player_start_time, player_duration, .. } => Some(
            (current_player_start_time, player_duration),
        ),
        GameState::VotePhase { start_time, duration, .. } => Some((start_time, duration)),
        GameState::ResultPhase { start_time, next_round_delay, .. } => Some(
            (start_time, next_round_delay),
        ),
        _ => None,
    }
}

/// The countdown last stored in a timed phase.
pub open spec fn countdown_of(s: GameState) -> u64 {
    match s {
        GameState::DescribePhase { remaining_time, .. } => remaining_time,
        GameState::VotePhase { remaining_time, .. } => remaining_time,
        GameState::ResultPhase { remaining_time, .. } => remaining_time,
        _ => 0,
    }
}

/// `a` and `b` differ at most in the stored countdown.
pub open spec fn same_but_countdown(a: GameState, b: GameState) -> bool {
    match a {
        GameState::DescribePhase {
            players,
            current_player_index,
            descriptions,
            current_player_start_time,
            player_duration,
            chat_messages,
            eliminated_chat_messages,
            host,
            ..
        } => b == GameState::DescribePhase {
            players,
            current_player_index,
            descriptions,
            current_player_start_time,
            player_duration,
            remaining_time: countdown_of(b),
            chat_messages,
            eliminated_chat_messages,
            host,
        },
        GameState::VotePhase {
            players,
            votes,
            descriptions,
            start_time,
            duration,
            chat_messages,
            eliminated_chat_messages,
            host,
            ..
        } => b == GameState::VotePhase {
            players,
            votes,
            descriptions,
            start_time,
            duration,
            remaining_time: countdown_of(b),
            chat_messages,
            eliminated_chat_messages,
            host,
        },
        GameState::ResultPhase {
            players,
            eliminated,
            votes,
            next_round_delay,
            start_time,
            chat_messages,
            eliminated_chat_messages,
            host,
            ..
        } => b == GameState::ResultPhase {
            players,
            eliminated,
            votes,
            next_round_delay,
            remaining_time: countdown_of(b),
            start_time,
            chat_messages,
            eliminated_chat_messages,
            host,
        },
        _ => b == a,
    }
}

/// The timer of `s` has run out at `now_ms`, by the clock or by the stored
/// countdown reaching zero.
pub open spec fn timer_expired(s: GameState, now_ms: i64) -> bool {
    match timer_of(s) {
        Some((start, duration)) => deadline_passed(start, duration, now_ms) || countdown_of(s) == 0,
        None => false,
    }
}

/// Which timeout is due in `s` at `now_ms`. A describe turn whose player has
/// already described, and a vote in which every alive player has voted,
/// are not timed out.
pub open spec fn timeout_due(s: GameState, now_ms: i64) -> TimeoutResult {
    match s {
        GameState::DescribePhase { players, current_player_index, descriptions, .. } => {
            if current_player_index < players@.len() && !has_key(
                descriptions@,
                players@[current_player_index as int].id@,
            ) && timer_expired(s, now_ms) {
                TimeoutResult::DescribeTimeout(players@[current_player_index as int].id)
            } else {
                TimeoutResult::NoTimeout
            }
        },
        GameState::VotePhase { players, votes, .. } => {
            if !all_alive_voted(players@, votes@) && timer_expired(s, now_ms) {
                TimeoutResult::VoteTimeout
            } else {
                TimeoutResult::NoTimeout
            }
        },
        GameState::ResultPhase { .. } => {
            if timer_expired(s, now_ms) {
                TimeoutResult::ResultTimeout
            } else {
                TimeoutResult::NoTimeout
            }
        },
        _ => TimeoutResult::NoTimeout,
    }
}

/// A copy of a list of players.
pub fn clone_players(players: &Vec<Player>) -> (r: Vec<Player>)
    ensures
        r@ == players@,
{
    let mut out: Vec<Player> = Vec::new();
    let mut i: usize = 0;
    while i < players.len()
        invariant
            i <= players@.len(),
            out@ =~= players@.subrange(0, i as int),
        decreases players.len() - i,
    {
        out.push(players[i].duplicate());
        i = i + 1;
    }
    out
}

/// A copy of a list of chat messages.
pub fn clone_messages(messages: &Vec<ChatMessage>) -> (r: Vec<ChatMessage>)
    ensures
        r@ == messages@,
{
    let mut out: Vec<ChatMessage> = Vec::new();
    let mut i: usize = 0;
    while i < messages.len()
        invariant
            i <= messages@.len(),
            out@ =~= messages@.subrange(0, i as int),
        decreases messages.len() - i,
    {
        out.push(messages[i].duplicate());
        i = i + 1;
    }
    out
}

/// The descriptions of `descriptions` in seat order: one entry for each
/// player of `ps` who has described.
pub open spec fn ordered_descriptions(ps: Seq<Player>, descriptions: Seq<(String, String)>) -> Seq<
    (String, String),
>
    decreases ps.len(),
{
    if ps.len() == 0 {
        Seq::empty()
    } else {
        let prev = ordered_descriptions(ps.drop_last(), descriptions);
        let id = ps.last().id@;
        if has_key(descriptions, id) {
            prev.push((ps.last().id, descriptions[index_of_key(descriptions, id)].1))
        } else {
            prev
        }
    }
}

/// What a public chat line does to `base` (see [`GameState::add_chat_message`]).
pub open spec fn chat_applied(
    base: GameState,
    s: GameState,
    player_id: String,
    content: String,
    now_ms: i64,
    r: Result<GameEvent, ErrorCode>,
) -> bool {
    if !(base is Lobby || base is VotePhase || base is ResultPhase || base is GameOver) {
        r == Err::<GameEvent, ErrorCode>(ErrorCode::InvalidState) && s == base
    } else if !has_player(table_of(base), player_id@) {
        r == Err::<GameEvent, ErrorCode>(ErrorCode::PlayerNotFound) && s
            == base
    } else {
        let message = ChatMessage {
            player_id,
            player_name: player_by_id(table_of(base), player_id@).name,
            content,
            timestamp: now_ms,
        };
        &&& r == Ok::<GameEvent, ErrorCode>(GameEvent::ChatMessageAdded(message))
        &&& chat_of(s) == chat_of(base).push(message)
        &&& table_of(s) == table_of(base)
        &&& hidden_chat_of(s) == hidden_chat_of(base)
    }
}

/// What an eliminated-only chat line does to `base` (see
/// [`GameState::add_eliminated_chat_message`]).
pub open spec fn hidden_chat_applied(
    base: GameState,
    s: GameState,
    player_id: String,
    content: String,
    now_ms: i64,
    r: Result<GameEvent, ErrorCode>,
) -> bool {
    if !(base is DescribePhase || base is VotePhase || base is ResultPhase
        || base is GameOver) || !has_eliminated_player(
        table_of(base),
        player_id@,
    ) {
        r == Err::<GameEvent, ErrorCode>(ErrorCode::InvalidAction) && s
            == base
    } else {
        let message = ChatMessage {
            player_id,
            player_name: player_by_id(table_of(base), player_id@).name,
            content,
            timestamp: now_ms,
        };
        &&& r == Ok::<GameEvent, ErrorCode>(GameEvent::EliminatedChatMessageAdded(message))
        &&& hidden_chat_of(s) == hidden_chat_of(base).push(message)
        &&& table_of(s) == table_of(base)
        &&& chat_of(s) == chat_of(base)
    }
}

/// What `player_id` leaving a running game does to `base` (see
/// [`GameState::mark_player_left`]).
pub open spec fn player_left_game(
    base: GameState,
    s: GameState,
    player_id: String,
    r: Result<GameEvent, ErrorCode>,
) -> bool {
    if !(base is DescribePhase || base is VotePhase || base is ResultPhase) {
        r == Err::<GameEvent, ErrorCode>(ErrorCode::InvalidState) && s == base
    } else if !has_player(table_of(base), player_id@) {
        r == Err::<GameEvent, ErrorCode>(ErrorCode::PlayerNotFound) && s
            == base
    } else {
        &&& r == Ok::<GameEvent, ErrorCode>(
            GameEvent::PlayerLeft(player_by_id(table_of(base), player_id@)),
        )
        &&& departed(base, s, player_id@)
    }
}

/// What the countdown tick does to `base` (see
/// [`GameState::update_countdown`]): only the stored countdown changes, to
/// the whole seconds left, and `r` holds them while some are left.
pub open spec fn countdown_step(base: GameState, s: GameState, now_ms: i64, r: Option<u64>) -> bool {
    &&& same_but_countdown(base, s)
    &&& match timer_of(base) {
        Some((start, duration)) => {
            &&& countdown_of(s) == seconds_left(start, duration, now_ms)
            &&& r == if seconds_left(start, duration, now_ms) == 0 {
                None
            } else {
                Some(countdown_of(s))
            }
        },
        None => r is None,
    }
}

impl GameState {
    /// Which timeout is due at `now_ms` (see [`timeout_due`]).
    pub fn check_timeout(&self, now_ms: i64) -> (r: TimeoutResult)
        ensures
            r == timeout_due(*self, now_ms),
    {
        match self {
            GameState::DescribePhase {
                players,
                current_player_index,
                descriptions,
                current_player_start_time,
                player_duration,
                remaining_time,
                ..
            } => {
                if *current_player_index < players.len() && find_key(
                    descriptions,
                    &players[*current_player_index].id,
                ).is_none() && (is_deadline_passed(
                    *current_player_start_time,
                    *player_duration,
                    now_ms,
                ) || *remaining_time == 0) {
                    TimeoutResult::DescribeTimeout(players[*current_player_index].id.clone())
                } else {
                    TimeoutResult::NoTimeout
                }
            },
            GameState::VotePhase { players, votes, start_time, duration, remaining_time, .. } => {
                if !everyone_voted(players, votes) && (is_deadline_passed(
                    *start_time,
                    *duration,
                    now_ms,
                ) || *remaining_time == 0) {
                    TimeoutResult::VoteTimeout
                } else {
                    TimeoutResult::NoTimeout
                }
            },
            GameState::ResultPhase { start_time, next_round_delay, remaining_time, .. } => {
                if is_deadline_passed(*start_time, *next_round_delay, now_ms) || *remaining_time
                    == 0 {
                    TimeoutResult::ResultTimeout
                } else {
                    TimeoutResult::NoTimeout
                }
            },
            _ => TimeoutResult::NoTimeout,
        }
    }

    /// Recomputes and stores the whole seconds left on the running timer.
    /// Returns them while some remain, `None` once none do (and in the
    /// untimed phases, which are left as they are).
    pub fn update_countdown(&mut self, now_ms: i64) -> (r: Option<u64>)
        requires
            old(self).wf(),
        ensures
            final(self).wf(),
            countdown_step(*old(self), *final(self), now_ms, r),
    {
        let left = match self {
            GameState::DescribePhase {
                current_player_start_time,
                player_duration,
                remaining_time,
                ..
            } => {
                let left = remaining_seconds(*current_player_start_time, *player_duration, now_ms);
                *remaining_time = left;
                left
            },
            GameState::VotePhase { start_time, duration, remaining_time, .. } => {
                let left = remaining_seconds(*start_time, *duration, now_ms);
                *remaining_time = left;
                left
            },
            GameState::ResultPhase { start_time, next_round_delay, remaining_time, .. } => {
                let left = remaining_seconds(*start_time, *next_round_delay, now_ms);
                *remaining_time = left;
                left
            },
            _ => {
                return None;
            },
        };
        if left == 0 {
            None
        } else {
            Some(left)
        }
    }

    /// Appends a public chat line from a seated player. Public chat is open
    /// in the lobby, during the vote and its result, and after the game.
    pub fn add_chat_message(&mut self, player_id: String, content: String, now_ms: i64) -> (r:
        Result<GameEvent, ErrorCode>)
        requires
            old(self).wf(),
        ensures
            final(self).wf(),
            chat_applied(*old(self), *final(self), player_id, content, now_ms, r),
    {
        let (players, chat) = match self {
            GameState::Lobby { players, chat_messages, .. } => (players, chat_messages),
            GameState::VotePhase { players, chat_messages, .. } => (players, chat_messages),
            GameState::ResultPhase { players, chat_messages, .. } => (players, chat_messages),
            GameState::GameOver { players, chat_messages, .. } => (players, chat_messages),
            _ => {
                return Err(ErrorCode::InvalidState);
            },
        };
        let k = match find_player(players, &player_id) {
            Some(k) => k,
            None => {
                return Err(ErrorCode::PlayerNotFound);
            },
        };
        proof {
            let c = index_of_player(players@, player_id@);
            assert(has_player(players@, player_id@));
            assert(players@[c].id@ == player_id@);
            assert(c == k);
        }
        let message = ChatMessage {
            player_id,
            player_name: players[k].name.clone(),
            content,
            timestamp: now_ms,
        };
        chat.push(message.duplicate());
        Ok(GameEvent::ChatMessageAdded(message))
    }

    /// Appends a line to the eliminated-only chat. Only an eliminated player
    /// may write there, from the describe phase on.
    pub fn add_eliminated_chat_message(&mut self, player_id: String, content: String, now_ms: i64) -> (r:
        Result<GameEvent, ErrorCode>)
        requires
            old(self).wf(),
        ensures
            final(self).wf(),
            hidden_chat_applied(*old(self), *final(self), player_id, content, now_ms, r),
    {
        let (players, chat) = match self {
            GameState::DescribePhase { players, eliminated_chat_messages, .. } => (
                players,
                eliminated_chat_messages,
            ),
            GameState::VotePhase { players, eliminated_chat_messages, .. } => (
                players,
                eliminated_chat_messages,
            ),
            GameState::ResultPhase { players, eliminated_chat_messages, .. } => (
                players,
                eliminated_chat_messages,
            ),
            GameState::GameOver { players, eliminated_chat_messages, .. } => (
                players,
                eliminated_chat_messages,
            ),
            _ => {
                return Err(ErrorCode::InvalidAction);
            },
        };
        let k = match find_player(players, &player_id) {
            Some(k) => k,
            None => {
                return Err(ErrorCode::InvalidAction);
            },
        };
        if players[k].is_alive {
            proof {
                assert forall|i: int| 0 <= i < players@.len() && (#[trigger] players@[i]).id@ == player_id@
                    implies players@[i].is_alive by {
                    assert(i == k as int);
                }
            }
            return Err(ErrorCode::InvalidAction);
        }
        proof {
            let c = index_of_player(players@, player_id@);
            assert(has_player(players@, player_id@));
            assert(players@[c].id@ == player_id@);
            assert(c == k);
        }
        let message = ChatMessage {
            player_id,
            player_name: players[k].name.clone(),
            content,
            timestamp: now_ms,
        };
        chat.push(message.duplicate());
        Ok(GameEvent::EliminatedChatMessageAdded(message))
    }

    /// A player left during a game: they stay at the table for the count of
    /// the win condition but are marked eliminated and can no longer act;
    /// during the vote their ballot is withdrawn (see [`departed`]).
    /// Outside the describe, vote and result phases this is refused.
    pub fn mark_player_left(&mut self, player_id: String) -> (r: Result<GameEvent, ErrorCode>)
        requires
            old(self).wf(),
        ensures
            final(self).wf(),
            player_left_game(*old(self), *final(self), player_id, r),
    {
        let (players, ballots) = match self {
            GameState::DescribePhase { players, .. } => (players, None),
            GameState::VotePhase { players, votes, .. } => (players, Some(votes)),
            GameState::ResultPhase { players, .. } => (players, None),
            _ => {
                return Err(ErrorCode::InvalidState);
            },
        };
        let k = match find_player(players, &player_id) {
            Some(k) => k,
            None => {
                return Err(ErrorCode::PlayerNotFound);
            },
        };
        proof {
            let c = index_of_player(players@, player_id@);
            assert(has_player(players@, player_id@));
            assert(players@[c].id@ == player_id@);
            assert(c == k);
        }
        let leaving = players[k].duplicate();
        let ghost table = players@;
        mark_eliminated(players, &player_id);
        match ballots {
            Some(votes) => {
                let ghost cast = votes@;
                remove_key(votes, &player_id);
                proof {
                    let vs = votes@;
                    assert forall|i: int| 0 <= i < vs.len() implies has_alive_player(
                        players@,
                        (#[trigger] vs[i]).0@,
                    ) by {
                        let c = index_of_key(cast, player_id@);
                        let j = if has_key(cast, player_id@) && i >= c { i + 1 } else { i };
                        if has_key(cast, player_id@) {
                            assert(cast[c].0@ == player_id@);
                        }
                        assert(vs[i] == cast[j]);
                        assert(cast[j].0@ != player_id@);
                        assert(has_alive_player(table, cast[j].0@));
                        let q = choose|q: int| 0 <= q < table.len() && (#[trigger] table[q]).id@ == cast[j].0@ && table[q].is_alive;
                        assert(players@[q] == table[q]);
                    }
                }
            },
            None => {},
        }
        Ok(GameEvent::PlayerLeft(leaving))
    }
}

/// `pairs` without the pair keyed by `id`; unchanged when there is none.
pub open spec fn drop_key(pairs: Seq<(String, String)>, id: Seq<char>) -> Seq<(String, String)> {
    if has_key(pairs, id) {
        pairs.remove(index_of_key(pairs, id))
    } else {
        pairs
    }
}

/// Removes the pair keyed by `id` from a list of pairs with unique keys.
fn remove_key(pairs: &mut Vec<(String, String)>, id: &String)
    requires
        keys_unique(old(pairs)@),
    ensures
        final(pairs)@ == drop_key(old(pairs)@, id@),
        keys_unique(final(pairs)@),
{
    match find_key(pairs, id) {
        Some(k) => {
            proof {
                let c = index_of_key(pairs@, id@);
                assert(has_key(pairs@, id@));
                assert(pairs@[c].0@ == id@);
                assert(c == k);
            }
            let ghost before = pairs@;
            pairs.remove(k);
            proof {
                let ps = pairs@;
                assert forall|a: int, b: int|
                    0 <= a < ps.len() && 0 <= b < ps.len() && a != b implies (#[trigger] ps[a]).0@
                    != (#[trigger] ps[b]).0@ by {
                    let a2 = if a < k { a } else { a + 1 };
                    let b2 = if b < k { b } else { b + 1 };
                    assert(ps[a] == before[a2] && ps[b] == before[b2]);
                }
            }
        },
        None => {},
    }
}

/// `s` is the running game `base` after `id` left it: the same phase with
/// every field kept, except that `id` is marked eliminated at the table and,
/// during the vote, their ballot is withdrawn.
pub open spec fn departed(base: GameState, s: GameState, id: Seq<char>) -> bool {
    match base {
        GameState::DescribePhase {
            players,
            current_player_index,
            descriptions,
            current_player_start_time,
            player_duration,
            remaining_time,
            chat_messages,
            eliminated_chat_messages,
            host,
        } => s == GameState::DescribePhase {
            players: s->DescribePhase_players,
            current_player_index,
            descriptions,
            current_player_start_time,
            player_duration,
            remaining_time,
            chat_messages,
            eliminated_chat_messages,
            host,
        } && s->DescribePhase_players@ == eliminate(players@, id),
        GameState::VotePhase {
            players,
            votes,
            descriptions,
            start_time,
            duration,
            remaining_time,
            chat_messages,
            eliminated_chat_messages,
            host,
        } => s == GameState::VotePhase {
            players: s->VotePhase_players,
            votes: s->VotePhase_votes,
            descriptions,
            start_time,
            duration,
            remaining_time,
            chat_messages,
            eliminated_chat_messages,
            host,
        } && s->VotePhase_players@ == eliminate(players@, id) && s->VotePhase_votes@ == drop_key(
            votes@,
            id,
        ),
        GameState::ResultPhase {
            players,
            eliminated,
            votes,
            next_round_delay,
            remaining_time,
            start_time,
            chat_messages,
            eliminated_chat_messages,
            host,
        } => s == GameState::ResultPhase {
            players: s->ResultPhase_players,
            eliminated,
            votes,
            next_round_delay,
            remaining_time,
            start_time,
            chat_messages,
            eliminated_chat_messages,
            host,
        } && s->ResultPhase_players@ == eliminate(players@, id),
        _ => false,
    }
}

/// `s` is the finished game `base` without the player `id` at its table.
pub open spec fn forgotten(base: GameState, s: GameState, id: Seq<char>) -> bool {
    base is GameOver && s == (GameState::GameOver {
        winner: base->GameOver_winner,
        players: s->GameOver_players,
        chat_messages: base->GameOver_chat_messages,
        eliminated_chat_messages: base->GameOver_eliminated_chat_messages,
        host: base->GameOver_host,
    }) && s->GameOver_players@ == drop_player(table_of(base), id)
}

impl GameState {
    /// Takes `player_id` off the table of a finished game, so that a reset
    /// does not bring them back. Outside a finished game this is refused.
    pub fn forget_player(&mut self, player_id: &String) -> (r: Result<(), ErrorCode>)
        requires
            old(self).wf(),
        ensures
            final(self).wf(),
            *old(self) is GameOver ==> r is Ok && forgotten(*old(self), *final(self), player_id@),
            !(*old(self) is GameOver) ==> r == Err::<(), ErrorCode>(ErrorCode::InvalidState)
                && *final(self) == *old(self),
    {
        match self {
            GameState::GameOver { players, .. } => {
                let _ = take_player(players, player_id);
                Ok(())
            },
            _ => Err(ErrorCode::InvalidState),
        }
    }
}

/// The kind of phase `s` is in.
pub open spec fn kind_of(s: GameState) -> GameStateType {
    match s {
        GameState::Lobby { .. } => GameStateType::Lobby,
        GameState::RoleAssignment { .. } => GameStateType::RoleAssignment,
        GameState::DescribePhase { .. } => GameStateType::DescribePhase,
        GameState::VotePhase { .. } => GameStateType::VotePhase,
        GameState::ResultPhase { .. } => GameStateType::ResultPhase,
        GameState::GameOver { .. } => GameStateType::GameOver,
    }
}

/// The table as shown to everyone: roles hidden while a game runs, shown
/// in the lobby and once the game is over.
pub open spec fn public_table(s: GameState) -> Seq<Player> {
    match s {
        GameState::DescribePhase { players, .. } => hide_roles(players@),
        GameState::VotePhase { players, .. } => hide_roles(players@),
        GameState::ResultPhase { players, .. } => hide_roles(players@),
        _ => table_of(s),
    }
}

/// The host of any phase but role assignment.
pub open spec fn host_of(s: GameState) -> Option<String> {
    match s {
        GameState::Lobby { host, .. } => Some(host),
        GameState::DescribePhase { host, .. } => Some(host),
        GameState::VotePhase { host, .. } => Some(host),
        GameState::ResultPhase { host, .. } => Some(host),
        GameState::GameOver { host, .. } => Some(host),
        GameState::RoleAssignment { .. } => None,
    }
}

impl GameState {
    /// The kind of phase.
    pub fn get_state_type(&self) -> (r: GameStateType)
        ensures
            r == kind_of(*self),
    {
        match self {
            GameState::Lobby { .. } => GameStateType::Lobby,
            GameState::RoleAssignment { .. } => GameStateType::RoleAssignment,
            GameState::DescribePhase { .. } => GameStateType::DescribePhase,
            GameState::VotePhase { .. } => GameStateType::VotePhase,
            GameState::ResultPhase { .. } => GameStateType::ResultPhase,
            GameState::GameOver { .. } => GameStateType::GameOver,
        }
    }

    /// The players as everyone may see them (see [`public_table`]).
    pub fn get_players(&self) -> (r: Vec<Player>)
        ensures
            r@ == public_table(*self),
    {
        match self {
            GameState::DescribePhase { players, .. } => players_without_roles(players),
            GameState::VotePhase { players, .. } => players_without_roles(players),
            GameState::ResultPhase { players, .. } => players_without_roles(players),
            _ => self.get_players_with_roles(),
        }
    }

    /// The players with their roles, for the game's own bookkeeping.
    pub fn get_players_with_roles(&self) -> (r: Vec<Player>)
        ensures
            r@ == table_of(*self),
    {
        match self {
            GameState::Lobby { players, .. } => clone_players(players),
            GameState::RoleAssignment { players } => clone_players(players),
            GameState::DescribePhase { players, .. } => clone_players(players),
            GameState::VotePhase { players, .. } => clone_players(players),
            GameState::ResultPhase { players, .. } => clone_players(players),
            GameState::GameOver { players, .. } => clone_players(players),
        }
    }

    /// The descriptions given so far, in seat order, during the describe
    /// phase and the vote.
    pub fn get_descriptions(&self) -> (r: Option<Vec<(String, String)>>)
        requires
            self.wf(),
        ensures
            match *self {
                GameState::DescribePhase { players, descriptions, .. } => r matches Some(v) && v@
                    == ordered_descriptions(players@, descriptions@),
                GameState::VotePhase { players, descriptions, .. } => r matches Some(v) && v@
                    == ordered_descriptions(players@, descriptions@),
                _ => r is None,
            },
    {
        match self {
            GameState::DescribePhase { players, descriptions, .. } => Some(
                order_descriptions(players, descriptions),
            ),
            GameState::VotePhase { players, descriptions, .. } => Some(
                order_descriptions(players, descriptions),
            ),
            _ => None,
        }
    }

    /// Index of the player whose turn it is, in the describe phase.
    pub fn get_current_player_index(&self) -> (r: Option<usize>)
        ensures
            match *self {
                GameState::DescribePhase { current_player_index, .. } => r == Some(
                    current_player_index,
                ),
                _ => r is None,
            },
    {
        match self {
            GameState::DescribePhase { current_player_index, .. } => Some(*current_player_index),
            _ => None,
        }
    }

    /// The id eliminated by the vote (or `"tie"`), in the result phase.
    pub fn get_eliminated_player(&self) -> (r: Option<String>)
        ensures
            match *self {
                GameState::ResultPhase { eliminated, .. } => r == Some(eliminated),
                _ => r is None,
            },
    {
        match self {
            GameState::ResultPhase { eliminated, .. } => Some(eliminated.clone()),
            _ => None,
        }
    }

    /// The ballots, during the vote and in the result phase.
    pub fn get_votes(&self) -> (r: Option<Vec<(String, String)>>)
        ensures
            match *self {
                GameState::VotePhase { votes, .. } => r matches Some(v) && v@ == votes@,
                GameState::ResultPhase { votes, .. } => r matches Some(v) && v@ == votes@,
                _ => r is None,
            },
    {
        match self {
            GameState::VotePhase { votes, .. } => Some(clone_pairs(votes)),
            GameState::ResultPhase { votes, .. } => Some(clone_pairs(votes)),
            _ => None,
        }
    }

    /// The public chat (none while roles are assigned).
    pub fn get_chat_messages(&self) -> (r: Option<Vec<ChatMessage>>)
        ensures
            match *self {
                GameState::RoleAssignment { .. } => r is None,
                _ => r matches Some(v) && v@ == chat_of(*self),
            },
    {
        match self {
            GameState::Lobby { chat_messages, .. } => Some(clone_messages(chat_messages)),
            GameState::DescribePhase { chat_messages, .. } => Some(clone_messages(chat_messages)),
            GameState::VotePhase { chat_messages, .. } => Some(clone_messages(chat_messages)),
            GameState::ResultPhase { chat_messages, .. } => Some(clone_messages(chat_messages)),
            GameState::GameOver { chat_messages, .. } => Some(clone_messages(chat_messages)),
            GameState::RoleAssignment { .. } => None,
        }
    }

    /// The eliminated-only chat (none while roles are assigned).
    pub fn get_eliminated_chat_messages(&self) -> (r: Option<Vec<ChatMessage>>)
        ensures
            match *self {
                GameState::RoleAssignment { .. } => r is None,
                _ => r matches Some(v) && v@ == hidden_chat_of(*self),
            },
    {
        match self {
            GameState::Lobby { eliminated_chat_messages, .. } => Some(
                clone_messages(eliminated_chat_messages),
            ),
            GameState::DescribePhase { eliminated_chat_messages, .. } => Some(
                clone_messages(eliminated_chat_messages),
            ),
            GameState::VotePhase { eliminated_chat_messages, .. } => Some(
                clone_messages(eliminated_chat_messages),
            ),
            GameState::ResultPhase { eliminated_chat_messages, .. } => Some(
                clone_messages(eliminated_chat_messages),
            ),
            GameState::GameOver { eliminated_chat_messages, .. } => Some(
                clone_messages(eliminated_chat_messages),
            ),
            GameState::RoleAssignment { .. } => None,
        }
    }

    /// The host's id.
    pub fn get_host(&self) -> (r: Option<String>)
        ensures
            r == host_of(*self),
    {
        match self {
            GameState::Lobby { host, .. } => Some(host.clone()),
            GameState::DescribePhase { host, .. } => Some(host.clone()),
            GameState::VotePhase { host, .. } => Some(host.clone()),
            GameState::ResultPhase { host, .. } => Some(host.clone()),
            GameState::GameOver { host, .. } => Some(host.clone()),
            GameState::RoleAssignment { .. } => None,
        }
    }
}

/// The descriptions in seat order (see [`ordered_descriptions`]).
pub fn order_descriptions(players: &Vec<Player>, descriptions: &Vec<(String, String)>) -> (r: Vec<
    (String, String),
>)
    requires
        keys_unique(descriptions@),
    ensures
        r@ == ordered_descriptions(players@, descriptions@),
{
    let mut out: Vec<(String, String)> = Vec::new();
    let mut i: usize = 0;
    while i < players.len()
        invariant
            keys_unique(descriptions@),
            i <= players@.len(),
            out@ == ordered_descriptions(players@.subrange(0, i as int), descriptions@),
        decreases players.len() - i,
    {
        proof {
            assert(players@.subrange(0, i + 1).drop_last() =~= players@.subrange(0, i as int));
        }
        match find_key(descriptions, &players[i].id) {
            Some(k) => {
                proof {
                    let c = index_of_key(descriptions@, players@[i as int].id@);
                    assert(has_key(descriptions@, players@[i as int].id@));
                    assert(descriptions@[c].0@ == players@[i as int].id@);
                    assert(c == k);
                }
                out.push((players[i].id.clone(), descriptions[k].1.clone()));
            },
            None => {},
        }
        i = i + 1;
    }
    proof {
        assert(players@.subrange(0, players@.len() as int) =~= players@);
    }
    out
}

/// Once a player is dropped from a table with unique ids, no seat has
/// their id.
pub(crate) proof fn lemma_drop_player_removes(ps: Seq<Player>, id: Seq<char>)
    requires
        ids_unique(ps),
    ensures
        !has_player(drop_player(ps, id), id),
{
    if has_player(ps, id) {
        let k = index_of_player(ps, id);
        assert(ps[k].id@ == id);
        lemma_remove_keeps_unique_players(ps, k);
    }
}

/// Seating the same id twice seats it once: once `p` has been added, its
/// id is at the table, so a second `add_player` with that id falls under
/// the already-seated case, which keeps the table as it is.
pub proof fn lemma_add_player_idempotent(players: Seq<Player>, p: Player)
    ensures
        has_player(players.push(p), p.id@),
        players.push(p).len() == players.len() + 1,
{
    assert(players.push(p)[players.len() as int] == p);
}

impl GameState {
    /// Closes the vote once every alive player has voted, as a completing
    /// ballot does; needed when the last player yet to vote leaves the
    /// game. Otherwise nothing changes.
    pub fn close_vote_if_complete(&mut self, config: &GameConfig, now_ms: i64) -> (r: Option<GameEvent>)
        requires
            old(self).wf(),
        ensures
            final(self).wf(),
            if *old(self) is VotePhase && all_alive_voted(
                (*old(self))->VotePhase_players@,
                (*old(self))->VotePhase_votes@,
            ) {
                &&& r matches Some(GameEvent::VotePhaseComplete(vs)) && vs@ == (*old(self))->VotePhase_votes@
                &&& result_opened(*old(self), *final(self), (*old(self))->VotePhase_votes@, *config, now_ms)
            } else {
                r is None && *final(self) == *old(self)
            },
    {
        let ballots = match self {
            GameState::VotePhase { players, votes, .. } => {
                if !everyone_voted(players, votes) {
                    return None;
                }
                clone_pairs(votes)
            },
            _ => {
                return None;
            },
        };
        self.close_vote(config, now_ms);
        Some(GameEvent::VotePhaseComplete(ballots))
    }
}

/// Each pass of the turn makes progress: the vote opens, or the turn moves
/// to a strictly later seat that is alive, on the same table. So from seat
/// `i` of `n`, at most `n - i` passes reach the vote, and no eliminated
/// player ever receives the turn.
pub proof fn lemma_turn_progress(
    base: GameState,
    s: GameState,
    r: Result<GameEvent, ErrorCode>,
    config: GameConfig,
    now_ms: i64,
)
    requires
        base is DescribePhase,
        turn_advanced(base, s, r, config, now_ms),
    ensures
        s is VotePhase || {
            &&& s is DescribePhase
            &&& s->DescribePhase_players == base->DescribePhase_players
            &&& base->DescribePhase_current_player_index < s->DescribePhase_current_player_index
            &&& s->DescribePhase_current_player_index < s->DescribePhase_players@.len()
            &&& s->DescribePhase_players@[s->DescribePhase_current_player_index as int].is_alive
        },
{
}

} // verus!
