use vstd::prelude::*;

verus! {

/// Every way in which an engine operation can be refused.
#[derive(Clone, Copy, Debug, PartialEq, Eq, Structural)]
pub enum Error {
    /// The caller already has an open board.
    AlreadyPlaying,
    /// No game is stored under the given id.
    GameNotInitialized,
    /// The caller has no board.
    HexBoardNotInitialized,
    /// The caller's board is still waiting for a match.
    HexBoardInMatchmakingState,
    /// The caller's board is not attached to a running game.
    HexBoardNotInPlayingState,
    /// The caller's board has not been released by a finished game.
    HexBoardNotInFinishedState,
    /// The creator must be the first of the players.
    CreatorNotInPlayersAtIndexZero,
    /// A game with this id exists already.
    GameAlreadyCreated,
    /// A condition that prior validation makes unreachable.
    InternalError,
    /// Fewer players than the configured minimum.
    NumberOfPlayersIsTooSmall,
    /// More players than the configured maximum.
    NumberOfPlayersIsTooLarge,
    /// Coordinate arithmetic left the range of its type.
    MathOverflow,
    /// The board cannot pay the cost.
    NotEnoughResources,
    /// The offer index is outside the selection or the offer table.
    BuyIndexOutOfBounds,
    /// The cell index is outside the board.
    PlaceIndexOutOfBounds,
    /// Another player is on turn.
    PlayerNotOnTurn,
    /// The caller is not one of the game's players.
    PlayerNotInGame,
    /// The player on turn cannot force the end of their own turn.
    CurrentPlayerCannotForceFinishTurn,
    /// The game is finished.
    GameNotPlaying,
    /// The grid size is none of 9, 25 and 49.
    BadGridSize,
    /// A tile can only be placed on an empty cell.
    TileIsNotEmpty,
    /// The tile has reached the highest level.
    TileOnMaxLevel,
    /// An empty cell cannot be upgraded.
    CannotLevelUpEmptyTile,
    /// Only home tiles can be upgraded.
    CannotLevelUp,
    /// A new tile must touch a non-empty tile.
    TileSurroundedByEmptyTiles,
    /// The player on turn still has time left.
    BlocksToPlayLimitNotPassed,
    /// The player is queued already.
    AlreadyQueued,
}

} // verus!
