//! Session core of a round-based social deduction game: the phase state
//! machine, its rules, and the room-level decisions built on it.
pub mod config;
pub mod directory;
pub mod error;
pub mod game;
pub mod message;
pub mod naming;
pub mod registry;
pub mod room;
pub mod rules;
pub mod security;
pub mod storage;

mod outside;
