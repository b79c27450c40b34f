use vstd::prelude::*;

verus! {

/// The failures that an operation of the server can report to a client.
#[derive(Clone, Copy, Debug, PartialEq, Eq, Structural)]
pub enum ServerError {
    /// A session, game, player, spell or block is absent.
    NotFound,
    /// The operation is illegal in the current state of the game.
    InvalidState,
    /// The connection has no session bound to it.
    Unauthorized,
    /// The message needs a session and names none.
    MissingSession,
    /// The session table is full.
    CapacityExceeded,
    /// The game roster is full.
    GameFull,
    /// The caster's score is below the spell's cost.
    InsufficientScore,
    /// The spell may not be aimed at this player.
    InvalidTarget,
    /// The physics engine failed or returned no result.
    PhysicsFailure,
    /// The message envelope is malformed or lacks a field.
    ProtocolError,
    /// No block is currently being placed in the game.
    NoCurrentBlock,
    /// A freshly drawn identifier is already in use.
    Internal,
}

impl ServerError {
    /// A short human-readable text for the error, sent back to clients.
    pub fn message(&self) -> (r: &'static str) {
        match self {
            ServerError::NotFound => "Not found",
            ServerError::InvalidState => "Invalid state",
            ServerError::Unauthorized => "Not authenticated",
            ServerError::MissingSession => "Missing session",
            ServerError::CapacityExceeded => "Capacity exceeded",
            ServerError::GameFull => "Game is full",
            ServerError::InsufficientScore => "Not enough score to cast spell",
            ServerError::InvalidTarget => "Invalid spell target",
            ServerError::PhysicsFailure => "Physics failure",
            ServerError::ProtocolError => "Protocol error",
            ServerError::NoCurrentBlock => "No current block",
            ServerError::Internal => "Internal error",
        }
    }
}

} // verus!
