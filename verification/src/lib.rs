//! Authoritative simulation core of a tick-based grid combat game.
//!
//! Players move on a rectangular tile grid, place timed bombs whose blast
//! spreads in a cross, destroy terrain and damage each other. Every rule of
//! the match is an executable function with a contract over a mathematical
//! model of the match.

pub mod blast;
pub mod detonation;
pub mod game_server;
pub mod game_state;
pub mod ids;
pub mod map_system;
pub mod map_template;
pub mod match_laws;
pub mod pathfinding;
pub mod player;
pub mod protocol;
pub mod text;
