//! Session and game orchestration for a multiplayer tower-building puzzle server.
//!
//! The library owns the rules: the game state machine and roster, the spell
//! economy, the periodic win-condition evaluation, session lifetimes, and the
//! routing decisions of the wire protocol. Transport, timers and the physics
//! engine are driven from outside, which hands the library plain values.
mod error;
pub mod cache;
pub mod config;
pub mod game;
pub mod game_manager;
pub mod ids;
pub mod metrics;
pub mod network;
pub mod paths;
pub mod physics;
pub mod session;
pub mod strings;
pub mod text;
pub mod validation;
mod random;

pub use error::ServerError;
