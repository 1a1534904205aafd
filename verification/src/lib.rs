//! Server-side rules of a trick-taking card game played with the forty-card
//! Italian deck: cards and their comparison, dealing, the match state machine
//! and the decisions of the connection hub.

pub mod card;
pub mod deck;
pub mod error;
pub mod events;
pub mod game;
pub mod hub;
pub mod identity;
pub mod laws;
pub mod model;
pub mod player;
pub mod shuffle;
pub mod sums;
pub mod text;
pub mod upkeep;
