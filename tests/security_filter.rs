use undercover_core::message::{intent_kind, ErrorCode, IntentKind};
use undercover_core::naming::{check_room_id, generate_random_room_id, RoomIdProblem};
use undercover_core::config::RateLimitConfig;
use undercover_core::security::{InputProblem, RateLimiter, Security, WordFilter};

fn s(x: &str) -> String {
    x.to_string()
}

fn filter() -> WordFilter {
    WordFilter {
        sensitive_words: vec![s("bad")],
        custom_words: vec![s("ugly")],
        replacement: s("***"),
    }
}

#[test]
fn rate_limiter_counts_within_a_window() {
    let mut limiter = RateLimiter::new(10, 2, 0);
    assert!(limiter.check(1_000));
    assert!(limiter.check(2_000));
    assert!(!limiter.check(3_000));
    assert_eq!(limiter.count, 2);
    assert!(limiter.check(10_001));
    assert_eq!(limiter.count, 1);
    assert_eq!(limiter.last_action, 10_001);
}

#[test]
fn filter_masks_words() {
    let f = filter();
    assert_eq!(f.filter(&s("a bad and ugly day")), "a *** and *** day");
    assert_eq!(f.filter(&s("fine")), "fine");
    assert!(f.contains_sensitive_words(&s("so bad")));
    assert!(f.contains_sensitive_words(&s("so ugly")));
    assert!(!f.contains_sensitive_words(&s("so nice")));
}

#[test]
fn custom_words_are_managed() {
    let mut f = filter();
    f.add_custom_word(s("ugly"));
    f.add_custom_word(s("rude"));
    assert_eq!(f.get_custom_words(), vec![s("ugly"), s("rude")]);
    f.remove_custom_word(&s("ugly"));
    assert_eq!(f.get_custom_words(), vec![s("rude")]);
}

#[test]
fn input_validation() {
    let f = filter();
    assert_eq!(f.validate_input(&s("hello"), 3), Err(InputProblem::TooLong));
    assert_eq!(f.validate_input(&s("   "), 10), Err(InputProblem::Empty));
    assert_eq!(f.validate_input(&s(""), 10), Err(InputProblem::Empty));
    assert_eq!(f.validate_input(&s("bad"), 10), Err(InputProblem::SensitiveWord));
    assert_eq!(f.validate_input(&s("hello"), 10), Ok(()));
}

#[test]
fn room_id_rules() {
    assert_eq!(check_room_id(&s("abc_DEF-123")), Ok(()));
    assert_eq!(check_room_id(&s("")), Err(RoomIdProblem::Empty));
    assert_eq!(check_room_id(&s("aaaaaaaaaaaaaaaaaaaaa")), Err(RoomIdProblem::TooLong));
    assert_eq!(check_room_id(&s("aaaaaaaaaaaaaaaaaaaa")), Ok(()));
    assert_eq!(check_room_id(&s("no spaces")), Err(RoomIdProblem::BadCharacter));
    assert_eq!(check_room_id(&s("房间")), Ok(()));
}

#[test]
fn envelope_types() {
    assert_eq!(intent_kind(&s("join")), Ok(IntentKind::Join));
    assert_eq!(intent_kind(&s("eliminated_chat")), Ok(IntentKind::EliminatedChat));
    assert_eq!(intent_kind(&s("kick")), Ok(IntentKind::Kick));
    assert_eq!(intent_kind(&s("dance")), Err(ErrorCode::InvalidAction));
}

#[test]
fn per_player_rate_limits() {
    let config = RateLimitConfig {
        describe_window: 10,
        describe_max_actions: 1,
        vote_window: 10,
        vote_max_actions: 5,
        default_window: 10,
        default_max_actions: 5,
    };
    let mut sec = Security::new(config, filter());
    assert_eq!(sec.check_rate_limit(&s("p"), &s("describe"), 0), Ok(()));
    assert_eq!(sec.rate_limits[0].1.max_actions, 1);
    assert_eq!(sec.check_rate_limit(&s("p"), &s("describe"), 1_000), Ok(()));
    assert_eq!(sec.check_rate_limit(&s("p"), &s("describe"), 2_000), Err(InputProblem::RateLimited));
    assert_eq!(sec.check_rate_limit(&s("q"), &s("vote"), 2_000), Ok(()));
    assert_eq!(sec.rate_limits[1].1.max_actions, 5);
    assert_eq!(sec.check_rate_limit(&s("p"), &s("describe"), 12_001), Ok(()));
    assert_eq!(sec.filter_sensitive_words(&s("bad")), "***");
    assert_eq!(sec.validate_input(&s("ugly"), 10), Err(InputProblem::SensitiveWord));
}

#[test]
fn generated_room_ids() {
    for _ in 0..20 {
        let id = generate_random_room_id();
        assert_eq!(id.chars().count(), 6);
        assert!(id.chars().all(|c| c.is_ascii_uppercase()));
        assert_eq!(check_room_id(&id), Ok(()));
    }
}

#[test]
fn filter_edge_cases() {
    let overlapping = WordFilter { sensitive_words: vec![s("aa")], custom_words: vec![], replacement: s("*") };
    assert_eq!(overlapping.filter(&s("aaa")), "*a");
    let empty = WordFilter { sensitive_words: vec![s("")], custom_words: vec![], replacement: s("-") };
    assert_eq!(empty.filter(&s("ab")), "-a-b-");
}
