//! The message surface and the error taxonomy.
//!
//! Every request and answer is a plain value; the host's dispatch and
//! serialization envelope stays outside this crate.

use vstd::prelude::*;

verus! {

/// Everything that can go wrong in a call. Each error is terminal for the
/// call: a failed call commits no state change.
#[derive(Clone, Copy, Debug, PartialEq, Eq, Structural)]
pub enum GameError {
    /// The game id was never allocated.
    InvalidGameId,
    /// The game is not open for joining any more.
    GameNotJoinable,
    /// The caller hosts this game and cannot also join it.
    CannotJoinOwnGame,
    /// A coordinate lies outside the 3x3 board.
    InvalidPosition,
    /// The game is not in its playing stage.
    GameNotInProgress,
    /// The caller is not the participant whose turn it is.
    NotYourTurn,
    /// The target cell is already occupied.
    PositionOccupied,
}

impl GameError {
    /// The human-readable reason carried by this error.
    pub open spec fn spec_message(self) -> Seq<char> {
        match self {
            GameError::InvalidGameId => "Invalid Game ID"@,
            GameError::GameNotJoinable => "The game is already in progress or completed."@,
            GameError::CannotJoinOwnGame => "You can't join the game you hosted."@,
            GameError::InvalidPosition => "Invalid Position"@,
            GameError::GameNotInProgress => "The game is not in progress now."@,
            GameError::NotYourTurn => "It's not your turn."@,
            GameError::PositionOccupied => "This position was already filled."@,
        }
    }

    /// Returns the human-readable reason for this error.
    pub fn message(self) -> (m: &'static str)
        ensures
            m@ == self.spec_message(),
    {
        match self {
            GameError::InvalidGameId => "Invalid Game ID",
            GameError::GameNotJoinable => "The game is already in progress or completed.",
            GameError::CannotJoinOwnGame => "You can't join the game you hosted.",
            GameError::InvalidPosition => "Invalid Position",
            GameError::GameNotInProgress => "The game is not in progress now.",
            GameError::NotYourTurn => "It's not your turn.",
            GameError::PositionOccupied => "This position was already filled.",
        }
    }
}

/// Request that sets up an empty store. It carries no data.
#[derive(Clone, Copy, Debug, PartialEq, Eq, Structural)]
pub struct InstantiateMsg {}

/// Request that migrates a deployed store. It carries no data and the
/// migration changes nothing.
#[derive(Clone, Copy, Debug, PartialEq, Eq, Structural)]
pub struct MigrateMsg {}

/// A state-changing request: create a game, join one, or play a move.
#[derive(Clone, Copy, Debug, PartialEq, Eq, Structural)]
pub enum ExecuteMsg {
    NewGame {},
    JoinGame { game_id: u128 },
    Play { game_id: u128, x_pos: u16, y_pos: u16 },
}

/// A read-only request: one game record, or a page of ids from one of the
/// three lifecycle lists.
#[derive(Clone, Copy, Debug, PartialEq, Eq)]
pub enum QueryMsg {
    GameInfoById { game_id: u128 },
    NewGames { start_after: Option<u128>, limit: Option<u32> },
    PlayingGames { start_after: Option<u128>, limit: Option<u32> },
    CompletedGames { start_after: Option<u128>, limit: Option<u32> },
}

} // verus!
