//! A deterministic, turn-based hex-grid resource-economy game engine: hex geometry, tiles and
//! boards, the per-turn economy, formation detection, the tile marketplace, the turn and round
//! state machine, ratings and quick-match queues.

pub mod error;
pub mod hex;
pub mod tile;
pub mod config;
pub mod board;
pub mod economy;
pub mod pattern;
pub mod game;
pub mod market;
pub mod rating;
pub mod matchmaker;
pub mod store;
pub mod ids;
pub mod turn;
pub mod engine;

pub use board::{
    BoardStats, GameId, HexBoard, MatchmakingState, Move, ResourceAmount, ResourceProductions,
    ResourceType, Rewards, TileCost,
};
pub use engine::{Event, Pallet};
pub use error::Error;
pub use game::{Game, GameState};
pub use tile::{GetTileInfo, Tile, TilePattern, TileType};
