//! What is persisted about a room, and the policy for getting a room back
//! after a crash. Reading and writing the records is left to the caller.
use vstd::prelude::*;
use crate::game::{GameState, Player, Role};

verus! {

/// The outcome of a finished game; `timestamp` in milliseconds.
pub struct GameResult {
    pub room_id: String,
    pub winner: Role,
    pub players: Vec<Player>,
    pub timestamp: i64,
}

/// A player's running totals; `last_played` in milliseconds.
#[derive(Debug, Clone, Copy, Default, PartialEq, Eq, Structural)]
pub struct PlayerStats {
    pub games_played: u32,
    pub games_won: u32,
    pub games_as_undercover: u32,
    pub games_won_as_undercover: u32,
    pub games_as_civilian: u32,
    pub games_won_as_civilian: u32,
    pub total_votes_received: u32,
    pub total_votes_cast: u32,
    pub correct_votes: u32,
    pub last_played: Option<i64>,
}

/// A versioned snapshot of a room's state, flagged when it was written
/// consistently; `timestamp` in milliseconds.
pub struct Checkpoint {
    pub state: GameState,
    pub version: u64,
    pub timestamp: i64,
    pub is_consistent: bool,
}

/// The state a room recovers to: the latest checkpoint when it is flagged
/// consistent, else the most recent entry of the room's history, else
/// nothing (the room starts empty).
pub open spec fn recovered(checkpoint: Option<Checkpoint>, latest_history: Option<GameState>) -> Option<
    GameState,
> {
    match checkpoint {
        Some(c) if c.is_consistent => Some(c.state),
        _ => latest_history,
    }
}

/// Applies the recovery policy (see [`recovered`]).
pub fn recover_from_crash(checkpoint: Option<Checkpoint>, latest_history: Option<GameState>) -> (r:
    Option<GameState>)
    ensures
        r == recovered(checkpoint, latest_history),
{
    match checkpoint {
        Some(c) => {
            if c.is_consistent {
                Some(c.state)
            } else {
                latest_history
            }
        },
        None => latest_history,
    }
}

/// A freshly computed state hash agrees with the one stored before it:
/// trivially so when none was stored.
pub fn verify_state_consistency(previous_hash: &Option<String>, current_hash: &String) -> (r: bool)
    ensures
        r == match previous_hash {
            Some(h) => h@ == current_hash@,
            None => true,
        },
{
    match previous_hash {
        Some(h) => *h == *current_hash,
        None => true,
    }
}

} // verus!
