use undercover_core::config::GameConfig;
use undercover_core::game::{ChatMessage, GameEvent, GameState, Player, Role, TimeoutResult};
use undercover_core::message::{ErrorCode, GameStateType};
use undercover_core::rules::{decide_winner, remaining_seconds, tally_votes, undercover_count};

fn config() -> GameConfig {
    GameConfig {
        min_players: 3,
        max_players: 12,
        describe_time_limit: 60,
        vote_time_limit: 30,
        round_delay: 5,
    }
}

fn s(x: &str) -> String {
    x.to_string()
}

fn player(id: &str, role: Option<Role>, alive: bool) -> Player {
    Player {
        id: s(id),
        name: format!("name-{}", id),
        role,
        word: None,
        is_alive: alive,
        last_action: 0,
    }
}

fn lobby_with(ids: &[&str], cfg: &GameConfig) -> GameState {
    let mut st = GameState::new(cfg.min_players, cfg.max_players, s(ids[0]));
    for id in ids {
        st.add_player(Player::new(s(id), format!("name-{}", id), 0)).unwrap();
    }
    st
}

fn ids(n: usize) -> Vec<String> {
    (0..n).map(|i| format!("p{}", i)).collect()
}

fn started_game(n: usize) -> GameState {
    let cfg = GameConfig { min_players: 1, ..config() };
    let names = ids(n);
    let refs: Vec<&str> = names.iter().map(|x| x.as_str()).collect();
    let mut st = lobby_with(&refs, &cfg);
    for id in &names {
        st.player_ready(id.clone(), &cfg, 0).unwrap();
    }
    let ev = st
        .start_game(Some((s("apple"), s("pear"))), &names, &cfg, 1_000)
        .unwrap();
    match ev {
        GameEvent::GameStarted(view) => {
            assert_eq!(view.len(), n);
            assert!(view.iter().all(|p| p.role.is_none()));
        }
        other => panic!("unexpected event {:?}", other),
    }
    st
}

#[test]
fn undercover_count_values() {
    assert_eq!(undercover_count(1), 1);
    assert_eq!(undercover_count(4), 1);
    assert_eq!(undercover_count(6), 1);
    assert_eq!(undercover_count(7), 2);
    assert_eq!(undercover_count(8), 2);
    assert_eq!(undercover_count(9), 3);
    assert_eq!(undercover_count(12), 3);
    assert_eq!(undercover_count(13), 4);
}

#[test]
fn start_game_deals_roles_and_words() {
    for n in 1..=12usize {
        let st = started_game(n);
        let players = st.get_players_with_roles();
        assert_eq!(players.len(), n);
        let undercover = players.iter().filter(|p| p.role == Some(Role::Undercover)).count();
        let civilian = players.iter().filter(|p| p.role == Some(Role::Civilian)).count();
        let expected = if n <= 6 { 1 } else { (n + 3) / 4 };
        assert_eq!(undercover, expected, "n = {}", n);
        assert_eq!(civilian, n - expected, "n = {}", n);
        for p in &players {
            match p.role {
                Some(Role::Undercover) => assert_eq!(p.word.as_deref(), Some("pear")),
                Some(Role::Civilian) => assert_eq!(p.word.as_deref(), Some("apple")),
                None => panic!("a player has no role"),
            }
        }
        assert_eq!(st.get_state_type(), GameStateType::DescribePhase);
        assert_eq!(st.get_current_player_index(), Some(0));
    }
}

#[test]
fn start_game_keeps_join_order() {
    let st = started_game(5);
    let order: Vec<String> = st.get_players_with_roles().iter().map(|p| p.id.clone()).collect();
    assert_eq!(order, ids(5));
}

#[test]
fn start_game_needs_enough_ready_players() {
    let cfg = config();
    let mut st = lobby_with(&["a", "b", "c"], &cfg);
    st.player_ready(s("a"), &cfg, 0).unwrap();
    let r = st.start_game(Some((s("x"), s("y"))), &vec![s("a"), s("b"), s("c")], &cfg, 0);
    assert!(matches!(r, Err(ErrorCode::InvalidState)));
    assert_eq!(st.get_state_type(), GameStateType::Lobby);
}

#[test]
fn start_game_without_word_pair_stays_in_lobby() {
    let cfg = config();
    let mut st = lobby_with(&["a", "b", "c"], &cfg);
    for id in ["a", "b", "c"] {
        st.player_ready(s(id), &cfg, 0).unwrap();
    }
    let r = st.start_game(None, &vec![s("a"), s("b"), s("c")], &cfg, 0);
    assert!(matches!(r, Err(ErrorCode::InternalError)));
    assert_eq!(st.get_state_type(), GameStateType::Lobby);
}

#[test]
fn add_player_twice_is_idempotent() {
    let cfg = config();
    let mut st = lobby_with(&["a", "b"], &cfg);
    st.player_ready(s("b"), &cfg, 0).unwrap();
    let first = st.add_player(Player::new(s("b"), s("B"), 5)).unwrap();
    let second = st.add_player(Player::new(s("b"), s("B"), 6)).unwrap();
    assert!(matches!(first, GameEvent::PlayerJoined(_)));
    assert!(matches!(second, GameEvent::PlayerJoined(_)));
    assert_eq!(st.get_players().len(), 2);
    // the returning player has to confirm readiness again
    match st.player_ready(s("b"), &cfg, 0).unwrap() {
        GameEvent::PlayerReady(id, _) => assert_eq!(id, "b"),
        other => panic!("unexpected {:?}", other),
    }
    match &st {
        GameState::Lobby { ready_players, .. } => assert_eq!(ready_players, &vec![s("b")]),
        _ => panic!("not a lobby"),
    }
}

#[test]
fn add_player_refused_when_full() {
    let cfg = GameConfig { max_players: 2, ..config() };
    let mut st = lobby_with(&["a", "b"], &cfg);
    let r = st.add_player(Player::new(s("c"), s("C"), 0));
    assert!(matches!(r, Err(ErrorCode::RoomFull)));
    assert_eq!(st.get_players().len(), 2);
}

#[test]
fn add_player_refused_after_start() {
    let mut st = started_game(3);
    let r = st.add_player(Player::new(s("z"), s("Z"), 0));
    assert!(matches!(r, Err(ErrorCode::GameStarted)));
}

#[test]
fn remove_and_kick_players() {
    let cfg = config();
    let mut st = lobby_with(&["a", "b", "c"], &cfg);
    assert!(matches!(st.remove_player(s("zz")), Err(ErrorCode::PlayerNotFound)));
    assert!(matches!(st.kick_player(s("b"), s("c")), Err(ErrorCode::PermissionDenied)));
    assert!(matches!(st.kick_player(s("a"), s("a")), Err(ErrorCode::InvalidAction)));
    assert!(matches!(st.kick_player(s("a"), s("q")), Err(ErrorCode::PlayerNotFound)));
    match st.kick_player(s("a"), s("c")).unwrap() {
        GameEvent::PlayerKicked(p, kicker) => {
            assert_eq!(p.id, "c");
            assert_eq!(kicker, "a");
        }
        other => panic!("unexpected {:?}", other),
    }
    match st.remove_player(s("b")).unwrap() {
        GameEvent::PlayerLeft(p) => assert_eq!(p.id, "b"),
        other => panic!("unexpected {:?}", other),
    }
    assert_eq!(st.get_players().len(), 1);
}

#[test]
fn player_ready_toggles_and_reports_start() {
    let cfg = config();
    let mut st = lobby_with(&["a", "b", "c"], &cfg);
    assert!(matches!(st.player_ready(s("a"), &cfg, 0), Ok(GameEvent::PlayerReady(_, false))));
    assert!(matches!(st.player_ready(s("b"), &cfg, 0), Ok(GameEvent::PlayerReady(_, false))));
    assert!(matches!(st.player_ready(s("c"), &cfg, 0), Ok(GameEvent::PlayerReady(_, true))));
    assert!(matches!(st.player_ready(s("c"), &cfg, 0), Ok(GameEvent::PlayerReady(_, false))));
    assert!(matches!(st.player_ready(s("nobody"), &cfg, 0), Err(ErrorCode::PlayerNotFound)));
}

fn game_over(players: Vec<Player>) -> GameState {
    GameState::GameOver {
        winner: Role::Civilian,
        players,
        chat_messages: vec![ChatMessage {
            player_id: s("a"),
            player_name: s("A"),
            content: s("gg"),
            timestamp: 1,
        }],
        eliminated_chat_messages: vec![ChatMessage {
            player_id: s("b"),
            player_name: s("B"),
            content: s("secret"),
            timestamp: 2,
        }],
        host: s("a"),
    }
}

#[test]
fn ready_after_game_over_resets_the_room() {
    let cfg = config();
    let mut st = game_over(vec![
        player("b", Some(Role::Undercover), false),
        player("a", Some(Role::Civilian), true),
    ]);
    let ev = st.player_ready(s("a"), &cfg, 42).unwrap();
    assert!(matches!(ev, GameEvent::PlayerReady(ref id, false) if id == "a"));
    match &st {
        GameState::Lobby {
            players,
            ready_players,
            chat_messages,
            eliminated_chat_messages,
            host,
            min_players,
            max_players,
        } => {
            assert_eq!(players.len(), 2);
            assert!(players.iter().all(|p| p.is_alive && p.role.is_none() && p.word.is_none()));
            assert!(players.iter().all(|p| p.last_action == 42));
            assert_eq!(ready_players, &vec![s("a")]);
            assert_eq!(chat_messages.len(), 1);
            assert!(eliminated_chat_messages.is_empty());
            assert_eq!(host, "b");
            assert_eq!(*min_players, 3);
            assert_eq!(*max_players, 12);
        }
        _ => panic!("not a lobby"),
    }
}

#[test]
fn reset_of_empty_game_fails() {
    let cfg = config();
    let mut st = game_over(vec![]);
    assert!(matches!(st.reset_game(&cfg, 0), Err(ErrorCode::InvalidState)));
    assert!(matches!(st.player_ready(s("a"), &cfg, 0), Err(ErrorCode::InvalidState)));
    assert_eq!(st.get_state_type(), GameStateType::GameOver);
}

fn describe_phase(players: Vec<Player>, current: usize) -> GameState {
    GameState::DescribePhase {
        players,
        current_player_index: current,
        descriptions: vec![],
        current_player_start_time: 0,
        player_duration: 60,
        remaining_time: 60,
        chat_messages: vec![],
        eliminated_chat_messages: vec![],
        host: s("a"),
    }
}

#[test]
fn describe_turns_skip_eliminated_players() {
    let cfg = config();
    let mut st = describe_phase(
        vec![
            player("a", Some(Role::Civilian), true),
            player("b", Some(Role::Civilian), false),
            player("c", Some(Role::Undercover), true),
            player("d", Some(Role::Civilian), false),
        ],
        0,
    );
    assert!(matches!(st.add_description(s("c"), s("x")), Err(ErrorCode::NotYourTurn)));
    assert!(matches!(st.add_description(s("a"), s("red")), Ok(GameEvent::DescriptionAdded(_, _))));
    match st.advance_describe_phase(&cfg, 10).unwrap() {
        GameEvent::NextPlayer(id) => assert_eq!(id, "c"),
        other => panic!("unexpected {:?}", other),
    }
    assert_eq!(st.get_current_player_index(), Some(2));
    st.add_description(s("c"), s("round")).unwrap();
    assert_eq!(st.get_descriptions().unwrap(), vec![(s("a"), s("red")), (s("c"), s("round"))]);
    assert!(matches!(st.advance_describe_phase(&cfg, 20), Ok(GameEvent::DescribePhaseComplete)));
    assert_eq!(st.get_state_type(), GameStateType::VotePhase);
    assert_eq!(st.get_descriptions().unwrap().len(), 2);
}

#[test]
fn describe_timeout_passes_the_turn() {
    let cfg = config();
    let mut st = describe_phase(
        vec![player("a", None, true), player("b", None, true)],
        0,
    );
    assert!(matches!(st.check_timeout(30_000), TimeoutResult::NoTimeout));
    assert!(matches!(st.check_timeout(60_001), TimeoutResult::DescribeTimeout(ref id) if id == "a"));
    assert!(matches!(st.handle_describe_timeout(&cfg, 60_001), Ok(GameEvent::NextPlayer(ref id)) if id == "b"));
    assert!(st.get_descriptions().unwrap().is_empty());
    assert!(matches!(st.handle_describe_timeout(&cfg, 70_000), Ok(GameEvent::DescribePhaseComplete)));
    assert!(matches!(st.handle_describe_timeout(&cfg, 70_000), Err(ErrorCode::InvalidState)));
}

#[test]
fn describe_rejects_eliminated_active_player() {
    let mut st = describe_phase(vec![player("a", None, false), player("b", None, true)], 0);
    assert!(matches!(st.add_description(s("a"), s("x")), Err(ErrorCode::InvalidAction)));
}

#[test]
fn tally_picks_the_sole_leader() {
    let votes = vec![(s("A"), s("X")), (s("B"), s("X")), (s("C"), s("Y"))];
    assert_eq!(tally_votes(&votes), "X");
}

#[test]
fn tally_reports_a_tie() {
    let votes = vec![(s("A"), s("X")), (s("B"), s("Y"))];
    assert_eq!(tally_votes(&votes), "tie");
    assert_eq!(tally_votes(&vec![]), "tie");
    let four = vec![(s("A"), s("X")), (s("B"), s("Y")), (s("C"), s("X")), (s("D"), s("Y"))];
    assert_eq!(tally_votes(&four), "tie");
}

fn vote_phase(players: Vec<Player>, votes: Vec<(String, String)>) -> GameState {
    GameState::VotePhase {
        players,
        votes,
        descriptions: vec![],
        start_time: 0,
        duration: 30,
        remaining_time: 30,
        chat_messages: vec![],
        eliminated_chat_messages: vec![],
        host: s("a"),
    }
}

#[test]
fn votes_are_checked_and_tallied_when_complete() {
    let cfg = config();
    let mut st = vote_phase(
        vec![
            player("a", Some(Role::Civilian), true),
            player("b", Some(Role::Civilian), true),
            player("c", Some(Role::Undercover), true),
            player("d", Some(Role::Civilian), false),
        ],
        vec![],
    );
    assert!(matches!(st.add_vote(s("d"), s("a"), &cfg, 0), Err(ErrorCode::InvalidAction)));
    assert!(matches!(st.add_vote(s("a"), s("d"), &cfg, 0), Err(ErrorCode::InvalidVote)));
    assert!(matches!(st.add_vote(s("a"), s("a"), &cfg, 0), Err(ErrorCode::InvalidVote)));
    assert!(matches!(st.add_vote(s("a"), s("c"), &cfg, 0), Ok(GameEvent::VoteAdded(_, _))));
    assert!(matches!(st.add_vote(s("a"), s("b"), &cfg, 0), Err(ErrorCode::AlreadyVoted)));
    assert!(matches!(st.add_vote(s("b"), s("c"), &cfg, 0), Ok(GameEvent::VoteAdded(_, _))));
    match st.add_vote(s("c"), s("a"), &cfg, 7).unwrap() {
        GameEvent::VotePhaseComplete(votes) => assert_eq!(votes.len(), 3),
        other => panic!("unexpected {:?}", other),
    }
    assert_eq!(st.get_state_type(), GameStateType::ResultPhase);
    assert_eq!(st.get_eliminated_player(), Some(s("c")));
    assert!(matches!(st.process_result_phase(&cfg, 8), Ok(GameEvent::GameOver(Role::Civilian))));
    assert!(st.get_players().iter().any(|p| p.role == Some(Role::Undercover)));
}

fn result_phase(players: Vec<Player>, eliminated: &str) -> GameState {
    GameState::ResultPhase {
        players,
        eliminated: s(eliminated),
        votes: vec![],
        next_round_delay: 5,
        remaining_time: 5,
        start_time: 0,
        chat_messages: vec![],
        eliminated_chat_messages: vec![],
        host: s("a"),
    }
}

#[test]
fn a_tie_eliminates_nobody() {
    let cfg = config();
    let table = vec![
        player("a", Some(Role::Civilian), true),
        player("b", Some(Role::Civilian), true),
        player("c", Some(Role::Civilian), true),
        player("d", Some(Role::Undercover), true),
    ];
    let mut st = result_phase(table, "tie");
    assert!(matches!(st.process_result_phase(&cfg, 0), Ok(GameEvent::RoundComplete)));
    assert!(st.get_players().iter().all(|p| p.is_alive));
    assert_eq!(st.get_current_player_index(), Some(0));
}

#[test]
fn new_round_starts_at_first_alive_player() {
    let cfg = config();
    let table = vec![
        player("a", Some(Role::Civilian), true),
        player("b", Some(Role::Civilian), true),
        player("c", Some(Role::Civilian), true),
        player("d", Some(Role::Undercover), true),
        player("e", Some(Role::Civilian), true),
    ];
    let mut st = result_phase(table, "a");
    assert!(matches!(st.process_result_phase(&cfg, 0), Ok(GameEvent::RoundComplete)));
    assert_eq!(st.get_current_player_index(), Some(1));
    assert!(!st.get_players()[0].is_alive);
}

#[test]
fn win_conditions() {
    assert_eq!(decide_winner(1, 0), Some(Role::Undercover));
    assert_eq!(decide_winner(0, 5), Some(Role::Civilian));
    assert_eq!(decide_winner(0, 0), Some(Role::Civilian));
    assert_eq!(decide_winner(1, 1), Some(Role::Undercover));
    assert_eq!(decide_winner(2, 1), Some(Role::Undercover));
    assert_eq!(decide_winner(1, 2), None);
    assert_eq!(decide_winner(2, 2), None);
}

#[test]
fn undercover_wins_with_two_left() {
    let cfg = config();
    let table = vec![
        player("a", Some(Role::Civilian), true),
        player("b", Some(Role::Civilian), true),
        player("c", Some(Role::Undercover), true),
    ];
    let mut st = result_phase(table, "a");
    assert!(matches!(st.process_result_phase(&cfg, 0), Ok(GameEvent::GameOver(Role::Undercover))));
    assert_eq!(st.get_state_type(), GameStateType::GameOver);
}

#[test]
fn vote_timeout_completes_the_ballots() {
    let cfg = config();
    let mut st = vote_phase(
        vec![
            player("a", Some(Role::Civilian), true),
            player("b", Some(Role::Civilian), true),
            player("c", Some(Role::Undercover), true),
        ],
        vec![(s("a"), s("b")), (s("b"), s("a"))],
    );
    assert!(matches!(st.check_timeout(10_000), TimeoutResult::NoTimeout));
    assert!(matches!(st.check_timeout(30_001), TimeoutResult::VoteTimeout));
    match st.handle_vote_timeout(&cfg, 30_001).unwrap() {
        GameEvent::VotePhaseComplete(votes) => {
            assert_eq!(votes.len(), 3);
            assert_eq!(votes[2].0, "c");
            assert!(votes[2].1 == "a" || votes[2].1 == "b");
        }
        other => panic!("unexpected {:?}", other),
    }
    assert_eq!(st.get_state_type(), GameStateType::ResultPhase);
    let eliminated = st.get_eliminated_player().unwrap();
    assert!(eliminated == "a" || eliminated == "b");
}

#[test]
fn vote_timeout_with_one_alive_player() {
    let cfg = config();
    let mut st = vote_phase(
        vec![player("a", Some(Role::Civilian), false), player("b", Some(Role::Undercover), true)],
        vec![],
    );
    st.handle_vote_timeout(&cfg, 0).unwrap();
    assert_eq!(st.get_eliminated_player(), Some(s("b")));
}

#[test]
fn no_vote_timeout_once_everyone_voted() {
    let st = vote_phase(
        vec![player("a", None, true), player("b", None, true)],
        vec![(s("a"), s("b")), (s("b"), s("a"))],
    );
    assert!(matches!(st.check_timeout(1_000_000), TimeoutResult::NoTimeout));
}

#[test]
fn countdown_values() {
    assert_eq!(remaining_seconds(0, 60, 0), 60);
    assert_eq!(remaining_seconds(0, 60, 1), 59);
    assert_eq!(remaining_seconds(0, 60, 59_999), 0);
    assert_eq!(remaining_seconds(0, 60, 90_000), 0);
    assert_eq!(remaining_seconds(10_000, 60, 0), 60);
    let mut st = result_phase(vec![player("a", None, true)], "tie");
    assert_eq!(st.update_countdown(2_500), Some(2));
    assert_eq!(st.update_countdown(5_000), None);
    assert!(matches!(st.check_timeout(5_000), TimeoutResult::ResultTimeout));
}

#[test]
fn chat_streams_are_kept_apart() {
    let cfg = config();
    let mut lobby = lobby_with(&["a", "b"], &cfg);
    match lobby.add_chat_message(s("a"), s("hi"), 9).unwrap() {
        GameEvent::ChatMessageAdded(m) => {
            assert_eq!(m.player_name, "name-a");
            assert_eq!(m.timestamp, 9);
        }
        other => panic!("unexpected {:?}", other),
    }
    assert!(matches!(lobby.add_chat_message(s("x"), s("hi"), 9), Err(ErrorCode::PlayerNotFound)));
    assert!(matches!(lobby.add_eliminated_chat_message(s("a"), s("hi"), 9), Err(ErrorCode::InvalidAction)));
    let mut st = describe_phase(vec![player("a", None, true), player("b", None, false)], 0);
    assert!(matches!(st.add_chat_message(s("a"), s("hi"), 9), Err(ErrorCode::InvalidState)));
    assert!(matches!(st.add_eliminated_chat_message(s("a"), s("hi"), 9), Err(ErrorCode::InvalidAction)));
    assert!(st.add_eliminated_chat_message(s("b"), s("psst"), 9).is_ok());
    assert_eq!(st.get_eliminated_chat_messages().unwrap().len(), 1);
    assert_eq!(st.get_chat_messages().unwrap().len(), 0);
}

#[test]
fn players_hide_roles_during_the_game() {
    let st = started_game(4);
    assert!(st.get_players().iter().all(|p| p.role.is_none() && p.word.is_some()));
    assert!(st.get_players_with_roles().iter().all(|p| p.role.is_some()));
    let over = game_over(vec![player("a", Some(Role::Civilian), true)]);
    assert_eq!(over.get_players()[0].role, Some(Role::Civilian));
    assert_eq!(over.get_host(), Some(s("a")));
}

#[test]
fn leaving_mid_game_marks_the_player_out() {
    let mut st = describe_phase(vec![player("a", None, true), player("b", None, true)], 0);
    assert!(matches!(st.mark_player_left(s("b")), Ok(GameEvent::PlayerLeft(_))));
    assert!(!st.get_players()[1].is_alive);
    assert!(matches!(st.mark_player_left(s("z")), Err(ErrorCode::PlayerNotFound)));
}

#[test]
fn ready_from_outside_a_finished_game_changes_nothing() {
    let cfg = config();
    let mut st = game_over(vec![player("a", Some(Role::Civilian), true)]);
    assert!(matches!(st.player_ready(s("stranger"), &cfg, 0), Err(ErrorCode::PlayerNotFound)));
    assert_eq!(st.get_state_type(), GameStateType::GameOver);
}

#[test]
fn a_leaving_voter_loses_their_ballot() {
    let mut st = vote_phase(
        vec![player("a", None, true), player("b", None, true), player("c", None, true)],
        vec![(s("a"), s("b")), (s("c"), s("b"))],
    );
    st.mark_player_left(s("a")).unwrap();
    assert_eq!(st.get_votes().unwrap(), vec![(s("c"), s("b"))]);
    assert!(!st.get_players()[0].is_alive);
}

#[test]
fn chat_is_open_during_the_result() {
    let mut st = result_phase(vec![player("a", None, true)], "tie");
    assert!(st.add_chat_message(s("a"), s("gg"), 3).is_ok());
    assert_eq!(st.get_chat_messages().unwrap().len(), 1);
}

#[test]
fn finished_game_forgets_a_player() {
    let mut st = game_over(vec![player("a", None, true), player("b", None, true)]);
    assert!(st.forget_player(&s("a")).is_ok());
    assert_eq!(st.get_players().len(), 1);
    let mut lobby = lobby_with(&["a"], &config());
    assert!(matches!(lobby.forget_player(&s("a")), Err(ErrorCode::InvalidState)));
}
