use undercover_core::config::{AdminConfig, GameConfig, ServerConfig};
use undercover_core::directory::RoomDirectory;
use undercover_core::game::{GameEvent, GameState, Player, Role};
use undercover_core::message::{ErrorCode, GameMessage, GameStateType, MessageQueue};
use undercover_core::registry::{stale_room, ConnectionRegistry};
use undercover_core::room::{eliminated_recipients, revealed_words, JoinOutcome, Room};
use undercover_core::rules::vote_counts;
use undercover_core::storage::{recover_from_crash, verify_state_consistency, Checkpoint};

fn s(x: &str) -> String {
    x.to_string()
}

fn config(min_players: usize) -> GameConfig {
    GameConfig {
        min_players,
        max_players: 8,
        describe_time_limit: 60,
        vote_time_limit: 30,
        round_delay: 5,
    }
}

fn words() -> Option<(String, String)> {
    Some((s("apple"), s("pear")))
}

#[test]
fn four_players_start_only_when_all_are_ready() {
    let mut room = Room::new(s("R1"), s("p1"), config(3), 300, 0);
    for id in ["p1", "p2", "p3", "p4"] {
        let outcome = room.join(s(id), format!("name-{}", id), 0).unwrap();
        assert!(matches!(outcome, JoinOutcome::Joined(GameEvent::PlayerJoined(_))));
    }
    for id in ["p1", "p2", "p3"] {
        let events = room.ready(s(id), words(), 0).unwrap();
        assert_eq!(events.len(), 1);
    }
    assert_eq!(room.state.get_state_type(), GameStateType::Lobby);
    let events = room.ready(s("p4"), words(), 0).unwrap();
    assert_eq!(events.len(), 2);
    assert!(matches!(events[1], GameEvent::GameStarted(_)));
    assert_eq!(room.state.get_state_type(), GameStateType::DescribePhase);
    for me in ["p1", "p2", "p3", "p4"] {
        let rows = room.snapshot(&s(me));
        assert_eq!(rows.len(), 4);
        for row in &rows {
            if row.id == me {
                assert!(row.role.is_some());
                assert!(row.word.is_some());
            } else {
                assert!(row.role.is_none());
                assert!(row.word.is_none());
            }
            assert_eq!(row.is_ready, None);
        }
    }
}

#[test]
fn snapshot_discloses_everything_after_the_game() {
    let mut room = Room::new(s("R"), s("a"), config(1), 300, 0);
    room.join(s("a"), s("A"), 0).unwrap();
    room.state = GameState::GameOver {
        winner: Role::Civilian,
        players: room.state.get_players_with_roles(),
        chat_messages: vec![],
        eliminated_chat_messages: vec![],
        host: s("a"),
    };
    let rows = room.snapshot(&s("someone-else"));
    assert_eq!(rows.len(), 1);
    assert_eq!(rows[0].id, "a");
}

#[test]
fn lobby_snapshot_shows_readiness() {
    let mut room = Room::new(s("R"), s("a"), config(3), 300, 0);
    room.join(s("a"), s("A"), 0).unwrap();
    room.join(s("b"), s("B"), 0).unwrap();
    room.ready(s("b"), words(), 0).unwrap();
    let rows = room.snapshot(&s("a"));
    assert_eq!(rows[0].is_ready, Some(false));
    assert_eq!(rows[1].is_ready, Some(true));
}

#[test]
fn rejoining_is_a_reconnect() {
    let mut room = Room::new(s("R"), s("a"), config(3), 300, 0);
    room.join(s("a"), s("A"), 0).unwrap();
    room.disconnect(&s("a"));
    assert!(room.connected.is_empty());
    assert!(matches!(room.join(s("a"), s("A"), 5), Ok(JoinOutcome::Reconnected)));
    assert_eq!(room.player_count(), 1);
    assert_eq!(room.connected, vec![s("a")]);
}

#[test]
fn describe_and_vote_chain_their_follow_ups() {
    let mut room = Room::new(s("R"), s("a"), config(3), 300, 0);
    for id in ["a", "b", "c"] {
        room.join(s(id), s(id), 0).unwrap();
    }
    for id in ["a", "b", "c"] {
        room.ready(s(id), words(), 0).unwrap();
    }
    let events = room.describe(s("a"), s("round"), 1).unwrap();
    assert!(matches!(events[1], GameEvent::NextPlayer(ref id) if id == "b"));
    room.describe(s("b"), s("sweet"), 2).unwrap();
    let events = room.describe(s("c"), s("tree"), 3).unwrap();
    assert!(matches!(events[1], GameEvent::DescribePhaseComplete));
    assert_eq!(room.state.get_state_type(), GameStateType::VotePhase);
    assert!(matches!(room.vote(s("a"), s("b"), 4).unwrap()[0], GameEvent::VoteAdded(_, _)));
    assert!(matches!(room.vote(s("b"), s("c"), 4).unwrap()[0], GameEvent::VoteAdded(_, _)));
    let events = room.vote(s("c"), s("b"), 5).unwrap();
    assert_eq!(events.len(), 2);
    assert!(matches!(events[0], GameEvent::VotePhaseComplete(_)));
    assert!(matches!(events[1], GameEvent::GameOver(_) | GameEvent::RoundComplete));
}

#[test]
fn vote_timeout_through_the_room() {
    let mut room = Room::new(s("R"), s("a"), config(3), 300, 0);
    for id in ["a", "b", "c"] {
        room.join(s(id), s(id), 0).unwrap();
    }
    for id in ["a", "b", "c"] {
        room.ready(s(id), words(), 0).unwrap();
    }
    for id in ["a", "b", "c"] {
        room.describe(s(id), s("x"), 0).unwrap();
    }
    room.vote(s("a"), s("b"), 1).unwrap();
    room.vote(s("b"), s("a"), 1).unwrap();
    assert!(room.check_timeout(10_000).unwrap().is_empty());
    let events = room.check_timeout(40_000).unwrap();
    assert!(matches!(events[0], GameEvent::VotePhaseComplete(ref v) if v.len() == 3));
    assert_eq!(events.len(), 2);
}

#[test]
fn countdown_tick_runs_the_timeout_when_time_is_up() {
    let mut room = Room::new(s("R"), s("a"), config(1), 300, 0);
    room.join(s("a"), s("A"), 0).unwrap();
    room.join(s("b"), s("B"), 0).unwrap();
    room.ready(s("a"), words(), 0).unwrap();
    room.ready(s("b"), words(), 0).unwrap();
    let (left, events) = room.tick_countdown(10_000).unwrap();
    assert_eq!(left, Some(50));
    assert!(events.is_empty());
    let (left, events) = room.tick_countdown(61_000).unwrap();
    assert_eq!(left, None);
    assert!(matches!(events[0], GameEvent::NextPlayer(ref id) if id == "b"));
}

#[test]
fn leaving_depends_on_the_phase() {
    let mut room = Room::new(s("R"), s("a"), config(2), 300, 0);
    room.join(s("a"), s("A"), 0).unwrap();
    room.join(s("b"), s("B"), 0).unwrap();
    room.join(s("c"), s("C"), 0).unwrap();
    let events = room.leave(s("c"), 0).unwrap();
    assert!(matches!(events[..], [GameEvent::PlayerLeft(_)]));
    assert_eq!(room.player_count(), 2);
    assert!(room.leave(s("zz"), 0).unwrap().is_empty());
    room.ready(s("a"), words(), 0).unwrap();
    room.ready(s("b"), words(), 0).unwrap();
    let events = room.leave(s("b"), 0).unwrap();
    assert!(matches!(events[..], [GameEvent::PlayerLeft(_)]));
    assert_eq!(room.player_count(), 2);
    assert!(!room.state.get_players()[1].is_alive);
}

#[test]
fn kick_removes_from_the_room() {
    let mut room = Room::new(s("R"), s("a"), config(2), 300, 0);
    room.join(s("a"), s("A"), 0).unwrap();
    room.join(s("b"), s("B"), 0).unwrap();
    assert!(matches!(room.kick(s("b"), s("a")), Err(ErrorCode::PermissionDenied)));
    assert!(room.kick(s("a"), s("b")).is_ok());
    assert_eq!(room.player_count(), 1);
    assert!(room.is_host(&s("a")));
    assert!(!room.is_host(&s("b")));
}

#[test]
fn deletion_rules() {
    let mut room = Room::new(s("R"), s("a"), config(2), 300, 0);
    assert!(!room.should_be_deleted(1_000));
    assert!(room.should_be_deleted(301_000));
    room.join(s("a"), s("A"), 0).unwrap();
    assert!(!room.should_be_deleted(1_000_000));
    room.leave(s("a"), 0).unwrap();
    assert!(room.should_be_deleted(0));
    assert!(room.delete());
    assert!(!room.delete());
    assert!(!room.should_be_deleted(0));
    assert!(matches!(room.join(s("b"), s("B"), 0), Err(ErrorCode::RoomDeleted)));
    assert!(matches!(room.ready(s("b"), words(), 0), Err(ErrorCode::RoomDeleted)));
}

#[test]
fn registry_tracks_one_room_per_player() {
    let mut reg = ConnectionRegistry::new();
    assert_eq!(reg.register_connection(s("p"), s("R1")), None);
    assert_eq!(reg.register_connection(s("q"), s("R1")), None);
    assert_eq!(reg.register_connection(s("p"), s("R2")), Some(s("R1")));
    assert_eq!(reg.get_connection(&s("p")), Some(s("R2")));
    assert_eq!(reg.get_connection(&s("q")), Some(s("R1")));
    reg.remove_connection(&s("p"));
    assert_eq!(reg.get_connection(&s("p")), None);
    assert_eq!(reg.get_connection(&s("q")), Some(s("R1")));
}

#[test]
fn stale_room_only_for_another_room() {
    assert_eq!(stale_room(Some(s("R1")), &s("R2")), Some(s("R1")));
    assert_eq!(stale_room(Some(s("R2")), &s("R2")), None);
    assert_eq!(stale_room(None, &s("R2")), None);
}

fn msg(i: usize) -> GameMessage {
    GameMessage { type_: s("chat"), data: format!("{{\"n\":{}}}", i) }
}

#[test]
fn batches_close_by_size_and_age() {
    let mut q = MessageQueue::new();
    for i in 0..51 {
        q.enqueue(msg(i), 0);
    }
    let first = q.dequeue_batch(0).unwrap();
    assert_eq!(first.messages.len(), 50);
    assert_eq!(first.messages[0].data, "{\"n\":0}");
    assert!(q.dequeue_batch(0).is_none());
    let second = q.dequeue_batch(50).unwrap();
    assert_eq!(second.messages.len(), 1);
    assert_eq!(second.messages[0].data, "{\"n\":50}");
    q.enqueue(msg(60), 100);
    q.enqueue(msg(61), 200);
    assert_eq!(q.dequeue_batch(200).unwrap().messages.len(), 1);
}

#[test]
fn config_defaults() {
    let server = ServerConfig { host: s("0.0.0.0"), port: 8080, workers: 4, http_port: None, ws_port: Some(9000) };
    assert_eq!(server.http_port_or_default(), 8080);
    assert_eq!(server.ws_port_or_default(), 9000);
    let admins = AdminConfig { admin_usernames: vec![s("root")] };
    assert!(admins.is_admin(&s("root")));
    assert!(!admins.is_admin(&s("guest")));
}

#[test]
fn joining_another_room_evicts_from_the_first() {
    let mut dir = RoomDirectory::new();
    dir.create_room(s("R1"), s("p"), config(3), 300, 0).unwrap();
    dir.create_room(s("R2"), s("q"), config(3), 300, 0).unwrap();
    assert!(matches!(dir.create_room(s("R1"), s("x"), config(3), 300, 0), Err(ErrorCode::InvalidAction)));
    let (outcome, stale) = dir.join_room(&s("R1"), s("p"), s("P"), 0).unwrap();
    assert!(matches!(outcome, JoinOutcome::Joined(_)));
    assert_eq!(stale, None);
    assert_eq!(dir.rooms[0].player_count(), 1);
    let (_, stale) = dir.join_room(&s("R2"), s("p"), s("P"), 0).unwrap();
    assert_eq!(stale, Some(s("R1")));
    assert_eq!(dir.rooms[0].player_count(), 0);
    assert_eq!(dir.rooms[1].player_count(), 1);
    assert_eq!(dir.registry.get_connection(&s("p")), Some(s("R2")));
    assert!(matches!(dir.join_room(&s("R9"), s("p"), s("P"), 0), Err(ErrorCode::RoomNotFound)));
    assert!(dir.remove_room(&s("R1")));
    assert!(!dir.remove_room(&s("R1")));
    assert!(!dir.contains(&s("R1")));
    assert!(dir.contains(&s("R2")));
}

#[test]
fn hidden_chat_goes_to_eliminated_players_only() {
    let p = |id: &str, alive: bool| Player {
        id: s(id),
        name: s(id),
        role: None,
        word: None,
        is_alive: alive,
        last_action: 0,
    };
    let state = GameState::VotePhase {
        players: vec![p("a", true), p("b", false), p("c", false)],
        votes: vec![],
        descriptions: vec![],
        start_time: 0,
        duration: 30,
        remaining_time: 30,
        chat_messages: vec![],
        eliminated_chat_messages: vec![],
        host: s("a"),
    };
    let connected = vec![s("a"), s("b"), s("zz")];
    assert_eq!(eliminated_recipients(&state, &connected), vec![s("b")]);
}

#[test]
fn game_over_reveals_both_words() {
    let p = |id: &str, role: Role, word: &str| Player {
        id: s(id),
        name: s(id),
        role: Some(role),
        word: Some(s(word)),
        is_alive: true,
        last_action: 0,
    };
    let players = vec![p("a", Role::Civilian, "apple"), p("b", Role::Undercover, "pear"), p("c", Role::Civilian, "apple")];
    assert_eq!(revealed_words(&players), (Some(s("apple")), Some(s("pear"))));
    assert_eq!(revealed_words(&vec![]), (None, None));
}

#[test]
fn room_status() {
    let mut room = Room::new(s("R"), s("a"), config(2), 300, 1_000);
    assert_eq!(room.get_status(11_500), (0, 10, false, true));
    room.join(s("a"), s("A"), 0).unwrap();
    assert_eq!(room.get_status(0), (1, 0, false, false));
}

#[test]
fn recovery_policy() {
    let lobby = |host: &str| GameState::new(3, 8, s(host));
    let good = Checkpoint { state: lobby("ck"), version: 2, timestamp: 0, is_consistent: true };
    let bad = Checkpoint { state: lobby("ck"), version: 2, timestamp: 0, is_consistent: false };
    let from_good = recover_from_crash(Some(good), Some(lobby("hist"))).unwrap();
    assert_eq!(from_good.get_host(), Some(s("ck")));
    let from_bad = recover_from_crash(Some(bad), Some(lobby("hist"))).unwrap();
    assert_eq!(from_bad.get_host(), Some(s("hist")));
    assert!(recover_from_crash(None, None).is_none());
    assert!(verify_state_consistency(&None, &s("h1")));
    assert!(verify_state_consistency(&Some(s("h1")), &s("h1")));
    assert!(!verify_state_consistency(&Some(s("h0")), &s("h1")));
}

#[test]
fn counts_per_target() {
    let votes = vec![(s("A"), s("X")), (s("B"), s("Y")), (s("C"), s("X"))];
    assert_eq!(vote_counts(&votes), vec![(s("X"), 2), (s("Y"), 1)]);
    assert!(vote_counts(&vec![]).is_empty());
}

#[test]
fn last_missing_voter_leaving_closes_the_vote() {
    let mut room = Room::new(s("R"), s("a"), config(3), 300, 0);
    for id in ["a", "b", "c", "d"] {
        room.join(s(id), s(id), 0).unwrap();
    }
    for id in ["a", "b", "c", "d"] {
        room.ready(s(id), words(), 0).unwrap();
    }
    for id in ["a", "b", "c", "d"] {
        room.describe(s(id), s("x"), 0).unwrap();
    }
    room.vote(s("a"), s("b"), 1).unwrap();
    room.vote(s("b"), s("a"), 1).unwrap();
    room.vote(s("c"), s("a"), 1).unwrap();
    let events = room.leave(s("d"), 2).unwrap();
    assert!(matches!(events[0], GameEvent::PlayerLeft(_)));
    assert!(matches!(events[1], GameEvent::VotePhaseComplete(ref v) if v.len() == 3));
    assert_eq!(events.len(), 3);
    assert_ne!(room.state.get_state_type(), GameStateType::VotePhase);
}

#[test]
fn start_without_words_is_refused() {
    let mut room = Room::new(s("R"), s("a"), config(1), 300, 0);
    room.join(s("a"), s("A"), 0).unwrap();
    assert!(matches!(room.ready(s("a"), None, 0), Err(ErrorCode::InternalError)));
    assert_eq!(room.state.get_state_type(), GameStateType::Lobby);
    assert!(matches!(room.ready(s("zz"), words(), 0), Err(ErrorCode::PlayerNotFound)));
}

#[test]
fn leaving_after_the_game_leaves_the_table() {
    let mut room = Room::new(s("R"), s("a"), config(1), 300, 0);
    room.join(s("a"), s("A"), 0).unwrap();
    room.join(s("b"), s("B"), 0).unwrap();
    room.state = GameState::GameOver {
        winner: Role::Civilian,
        players: room.state.get_players_with_roles(),
        chat_messages: vec![],
        eliminated_chat_messages: vec![],
        host: s("a"),
    };
    assert!(room.leave(s("b"), 0).unwrap().is_empty());
    assert_eq!(room.player_count(), 1);
    assert_eq!(room.state.get_players().len(), 1);
}

#[test]
fn refused_intents_leave_the_room_as_it_was() {
    let mut room = Room::new(s("R"), s("a"), config(3), 300, 0);
    room.join(s("a"), s("A"), 0).unwrap();
    assert!(matches!(room.describe(s("a"), s("x"), 0), Err(ErrorCode::InvalidState)));
    assert!(matches!(room.vote(s("a"), s("a"), 0), Err(ErrorCode::InvalidState)));
    assert!(matches!(room.eliminated_chat(s("a"), s("x"), 0), Err(ErrorCode::InvalidAction)));
    assert_eq!(room.chat(s("a"), s("hello"), 7).unwrap().content, "hello");
    assert_eq!(room.state.get_state_type(), GameStateType::Lobby);
}
