//! The game's configuration: limits, per-kind production and the offer table.
use vstd::prelude::*;

use crate::board::{ResourceAmount, ResourceProductions, ResourceType, TileCost};
use crate::tile::{Tile, TilePattern, TileType};

verus! {

/// Most players in one game.
pub const MAX_PLAYERS: u32 = 100;

/// Fewest players in one game.
pub const MIN_PLAYERS: u8 = 1;

/// Rounds played before a game ends in a draw.
pub const MAX_ROUNDS: u8 = 25;

/// Ticks the player on turn has before others may end the turn for them.
pub const BLOCKS_TO_PLAY_LIMIT: u8 = 10;

/// Cells of the largest board.
pub const MAX_HEX_GRID_SIZE: u32 = 49;

/// Largest size of the marketplace selection.
pub const MAX_TILE_SELECTION: u32 = 16;

/// Number of offers in the offer table.
pub const NUMBER_OF_TILE_COSTS: usize = 15;

/// Water one human consumes.
pub const WATER_PER_HUMAN: u8 = 2;

/// Food one human consumes.
pub const FOOD_PER_HUMAN: u8 = 1;

/// Humans one home level houses.
pub const HOME_PER_HUMANS: u8 = 3;

/// Population that wins the game.
pub const TARGET_GOAL_HUMAN: u8 = 7;

/// Resources of a fresh board: one mana and one human.
pub open spec fn spec_default_resources() -> Seq<u8> {
    seq![1u8, 1u8, 0u8, 0u8, 0u8, 0u8, 0u8]
}

/// Resources of a fresh board.
pub fn default_player_resources() -> (r: [u8; 7])
    ensures
        r@ == spec_default_resources(),
{
    let r: [u8; 7] = [1, 1, 0, 0, 0, 0, 0];
    assert(r@ =~= spec_default_resources());
    r
}

/// Amount of resource `j` that one tile of the kind at position `t` produces.
pub open spec fn produces(t: int, j: int) -> int {
    if t == 1 && j == 1 {
        1
    } else if t == 2 && j == 3 {
        2
    } else if t == 3 && j == 2 {
        2
    } else if t == 4 && j == 5 {
        4
    } else if t == 5 && j == 3 {
        1
    } else if t == 5 && j == 4 {
        3
    } else if t == 7 && j == 5 {
        2
    } else if t == 7 && j == 6 {
        1
    } else {
        0
    }
}

/// Population that each unit of resource `j` produced by the kind at position `t` needs.
pub open spec fn human_requirement(t: int, j: int) -> int {
    if t == 4 && j == 5 {
        4
    } else if t == 5 && j == 4 {
        2
    } else if t == 7 && j == 5 {
        2
    } else if t == 7 && j == 6 {
        3
    } else {
        0
    }
}

/// The production table entry of the kind at position `t`.
pub fn tile_resource_productions(t: usize) -> (r: ResourceProductions)
    requires
        t < 8,
    ensures
        forall|j: int| 0 <= j < 7 ==> #[trigger] r.produces@[j] == produces(t as int, j),
        forall|j: int| 0 <= j < 7 ==> #[trigger] r.human_requirements@[j] == human_requirement(
            t as int,
            j,
        ),
        r.produces@.len() == 7,
        r.human_requirements@.len() == 7,
{
    let (produces, human_requirements): ([u8; 7], [u8; 7]) = match t {
        1 => ([0, 1, 0, 0, 0, 0, 0], [0, 0, 0, 0, 0, 0, 0]),
        2 => ([0, 0, 0, 2, 0, 0, 0], [0, 0, 0, 0, 0, 0, 0]),
        3 => ([0, 0, 2, 0, 0, 0, 0], [0, 0, 0, 0, 0, 0, 0]),
        4 => ([0, 0, 0, 0, 0, 4, 0], [0, 0, 0, 0, 0, 4, 0]),
        5 => ([0, 0, 0, 1, 3, 0, 0], [0, 0, 0, 0, 2, 0, 0]),
        7 => ([0, 0, 0, 0, 0, 2, 1], [0, 0, 0, 0, 0, 2, 3]),
        _ => ([0, 0, 0, 0, 0, 0, 0], [0, 0, 0, 0, 0, 0, 0]),
    };
    ResourceProductions { produces, human_requirements }
}

/// Kind of tile that offer `i` yields.
pub open spec fn offer_type(i: int) -> TileType {
    if i < 3 {
        TileType::Grass
    } else if i < 6 {
        TileType::Water
    } else if i < 9 {
        TileType::Mountain
    } else if i < 12 {
        TileType::Tree
    } else if i < 13 {
        TileType::Desert
    } else {
        TileType::Cave
    }
}

/// Offer `i` of the offer table: a level-0 tile of `offer_type(i)` for one mana.
pub open spec fn spec_tile_cost(i: int) -> TileCost {
    TileCost {
        tile_to_buy: Tile { tile_type: offer_type(i), level: 0, pattern: TilePattern::Normal },
        cost: ResourceAmount { resource_type: ResourceType::Mana, amount: 1 },
    }
}

/// Offer `i` of the offer table.
pub fn tile_cost(i: usize) -> (r: TileCost)
    requires
        i < NUMBER_OF_TILE_COSTS,
    ensures
        r == spec_tile_cost(i as int),
{
    let tile_type = if i < 3 {
        TileType::Grass
    } else if i < 6 {
        TileType::Water
    } else if i < 9 {
        TileType::Mountain
    } else if i < 12 {
        TileType::Tree
    } else if i < 13 {
        TileType::Desert
    } else {
        TileType::Cave
    };
    TileCost {
        tile_to_buy: Tile { tile_type, level: 0, pattern: TilePattern::Normal },
        cost: ResourceAmount { resource_type: ResourceType::Mana, amount: 1 },
    }
}

} // verus!
