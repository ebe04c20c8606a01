//! The crate-wide error.
use vstd::prelude::*;

verus! {

/// What went wrong, by area, with a human-readable explanation.
#[derive(Debug, Clone)]
pub enum Error {
    Network(String),
    Game(String),
    Room(String),
    Storage(String),
    Config(String),
    Auth(String),
}

} // verus!
