//! A player's board: resources, the hex grid of tiles, and the game it belongs to.
use vstd::prelude::*;

use crate::config::{default_player_resources, spec_default_resources, MAX_HEX_GRID_SIZE};
use crate::tile::{
    pattern_index, type_index, GetTileInfo, Tile, TilePattern, TileType, MAX_LEVEL,
    NUMBER_OF_LEVELS, NUMBER_OF_PATTERNS, NUMBER_OF_TILE_TYPES,
};

verus! {

/// Opaque identifier of a game; it also seeds the game's tile offers.
pub type GameId = [u8; 32];

/// Number of resource counters on a board.
pub const NUMBER_OF_RESOURCE_TYPES: usize = 7;

/// Highest value of a resource counter.
pub const RESOURCE_CAP: u8 = 99;

/// The resources a board keeps count of.
#[derive(Clone, Copy, Debug, PartialEq, Eq, Structural)]
pub enum ResourceType {
    Mana,
    Human,
    Water,
    Food,
    Wood,
    Stone,
    Gold,
}

/// Position of a resource in the resource counters.
pub open spec fn resource_index(r: ResourceType) -> int {
    match r {
        ResourceType::Mana => 0,
        ResourceType::Human => 1,
        ResourceType::Water => 2,
        ResourceType::Food => 3,
        ResourceType::Wood => 4,
        ResourceType::Stone => 5,
        ResourceType::Gold => 6,
    }
}

impl ResourceType {
    /// Position of this resource in the resource counters.
    pub fn index(self) -> (r: usize)
        ensures
            r as int == resource_index(self),
            r < NUMBER_OF_RESOURCE_TYPES,
    {
        match self {
            ResourceType::Mana => 0,
            ResourceType::Human => 1,
            ResourceType::Water => 2,
            ResourceType::Food => 3,
            ResourceType::Wood => 4,
            ResourceType::Stone => 5,
            ResourceType::Gold => 6,
        }
    }
}

/// An amount of one resource.
#[derive(Clone, Copy, Debug, PartialEq, Eq, Structural)]
pub struct ResourceAmount {
    pub resource_type: ResourceType,
    pub amount: u8,
}

/// What one tile of a kind produces per turn, and the population each unit of a resource
/// needs (0: none).
#[derive(Clone, Copy, Debug)]
pub struct ResourceProductions {
    pub produces: [u8; 7],
    pub human_requirements: [u8; 7],
}

/// An offer of the marketplace: the tile it yields and what it costs.
#[derive(Clone, Copy, Debug, PartialEq, Eq, Structural)]
pub struct TileCost {
    pub tile_to_buy: Tile,
    pub cost: ResourceAmount,
}

/// A placement: the cell to fill and the offer to buy.
#[derive(Clone, Copy, Debug, PartialEq, Eq, Structural)]
pub struct Move {
    pub place_index: u8,
    pub buy_index: u8,
}

/// How a player's game ended for them.
#[derive(Clone, Copy, Debug, PartialEq, Eq, Structural)]
pub enum Rewards {
    Winner,
    Loser,
    Draw,
}

/// Where a board stands: idle, waiting for a match, in a game, or released by a finished game.
#[derive(Clone, Copy, Debug, PartialEq, Eq)]
pub enum MatchmakingState {
    Idle,
    Matchmaking,
    Joined(GameId),
    Finished(Rewards),
}

impl MatchmakingState {
    /// The game the board plays in, if any.
    pub fn get_game_id(self) -> (r: Option<GameId>)
        ensures
            r == (match self {
                MatchmakingState::Joined(id) => Some(id),
                _ => None::<GameId>,
            }),
    {
        match self {
            MatchmakingState::Joined(game_id) => Some(game_id),
            _ => None,
        }
    }
}

/// A player's board.
#[derive(Debug)]
pub struct HexBoard {
    pub resources: [u8; 7],
    pub hex_grid: Vec<Tile>,
    pub matchmaking_state: MatchmakingState,
}

/// The resources stay within their cap.
pub open spec fn resources_bounded(res: Seq<u8>) -> bool {
    forall|j: int| 0 <= j < res.len() ==> #[trigger] res[j] <= RESOURCE_CAP
}

/// A grid of one of the board shapes whose tiles all have valid levels.
pub open spec fn grid_wf(grid: Seq<Tile>) -> bool {
    &&& (grid.len() == 9 || grid.len() == 25 || grid.len() == 49)
    &&& forall|i: int| 0 <= i < grid.len() ==> (#[trigger] grid[i]).wf()
}

/// Number of tiles of `s` that satisfy `f`.
pub open spec fn count(s: Seq<Tile>, f: spec_fn(Tile) -> bool) -> nat
    decreases s.len(),
{
    if s.len() == 0 {
        0
    } else {
        count(s.drop_last(), f) + if f(s.last()) {
            1nat
        } else {
            0nat
        }
    }
}

/// Tiles counted in slot `k` of the per-kind statistics.
pub open spec fn in_type_slot(k: int) -> spec_fn(Tile) -> bool {
    |t: Tile| type_index(t.tile_type) == k
}

/// Tiles counted in slot `k` of the per-kind-and-level statistics.
pub open spec fn in_level_slot(k: int) -> spec_fn(Tile) -> bool {
    |t: Tile| type_index(t.tile_type) * NUMBER_OF_LEVELS + t.level == k
}

/// Tiles counted in slot `k` of the per-kind-and-formation statistics.
pub open spec fn in_pattern_slot(k: int) -> spec_fn(Tile) -> bool {
    |t: Tile| type_index(t.tile_type) * NUMBER_OF_PATTERNS + pattern_index(t.pattern) == k
}

/// Number of tiles of kind `t` on the grid.
pub open spec fn count_type(grid: Seq<Tile>, t: TileType) -> nat {
    count(grid, in_type_slot(type_index(t)))
}

/// Number of tiles of kind `t` at `level` on the grid.
pub open spec fn count_type_level(grid: Seq<Tile>, t: TileType, level: int) -> nat {
    count(grid, in_level_slot(type_index(t) * NUMBER_OF_LEVELS + level))
}

/// A count never exceeds the length of the sequence.
pub proof fn lemma_count_bound(s: Seq<Tile>, f: spec_fn(Tile) -> bool)
    ensures
        count(s, f) <= s.len(),
    decreases s.len(),
{
    if s.len() > 0 {
        lemma_count_bound(s.drop_last(), f);
    }
}

/// Tile counts of a board, by kind, by kind and level, and by kind and formation.
pub struct BoardStats {
    tiles: [u8; 8],
    levels: [u8; 32],
    patterns: [u8; 64],
}

impl BoardStats {
    pub closed spec fn spec_tiles(&self) -> Seq<u8> {
        self.tiles@
    }

    pub closed spec fn spec_levels(&self) -> Seq<u8> {
        self.levels@
    }

    pub closed spec fn spec_patterns(&self) -> Seq<u8> {
        self.patterns@
    }

    pub open spec fn wf(&self) -> bool {
        &&& self.spec_tiles().len() == NUMBER_OF_TILE_TYPES
        &&& self.spec_levels().len() == NUMBER_OF_TILE_TYPES * NUMBER_OF_LEVELS
        &&& self.spec_patterns().len() == NUMBER_OF_TILE_TYPES * NUMBER_OF_PATTERNS
    }

    /// The statistics of `grid`: every slot holds the number of tiles it counts.
    pub open spec fn counts(&self, grid: Seq<Tile>) -> bool {
        &&& self.wf()
        &&& forall|k: int|
            0 <= k < NUMBER_OF_TILE_TYPES ==> #[trigger] self.spec_tiles()[k] == count(
                grid,
                in_type_slot(k),
            )
        &&& forall|k: int|
            0 <= k < NUMBER_OF_TILE_TYPES * NUMBER_OF_LEVELS ==> #[trigger] self.spec_levels()[k]
                == count(grid, in_level_slot(k))
        &&& forall|k: int|
            0 <= k < NUMBER_OF_TILE_TYPES * NUMBER_OF_PATTERNS
                ==> #[trigger] self.spec_patterns()[k] == count(grid, in_pattern_slot(k))
    }

    /// Number of tiles of kind `tile_type`.
    pub fn get_tiles(&self, tile_type: TileType) -> (r: u8)
        ensures
            r == self.spec_tiles()[type_index(tile_type)],
    {
        self.tiles[tile_type.index()]
    }

    /// Number of tiles of the kind at position `tile_type_index`.
    pub fn get_tiles_by_tile_index(&self, tile_type_index: usize) -> (r: u8)
        requires
            tile_type_index < NUMBER_OF_TILE_TYPES,
        ensures
            r == self.spec_tiles()[tile_type_index as int],
    {
        self.tiles[tile_type_index]
    }

    /// Sets the number of tiles of kind `tile_type`.
    pub fn set_tiles(&mut self, tile_type: TileType, value: u8)
        ensures
            final(self).spec_tiles() == old(self).spec_tiles().update(type_index(tile_type), value),
            final(self).spec_levels() == old(self).spec_levels(),
            final(self).spec_patterns() == old(self).spec_patterns(),
    {
        self.tiles[tile_type.index()] = value;
    }

    /// Number of tiles of kind `tile_type` at `level`.
    pub fn get_levels(&self, tile_type: TileType, level: usize) -> (r: u8)
        requires
            level < NUMBER_OF_LEVELS,
        ensures
            r == self.spec_levels()[type_index(tile_type) * NUMBER_OF_LEVELS + level],
    {
        self.levels[tile_type.index() * NUMBER_OF_LEVELS + level]
    }

    /// Sets the number of tiles of kind `tile_type` at `level`.
    pub fn set_levels(&mut self, tile_type: TileType, level: u8, value: u8)
        requires
            level <= MAX_LEVEL,
        ensures
            final(self).spec_levels() == old(self).spec_levels().update(
                type_index(tile_type) * NUMBER_OF_LEVELS + level,
                value,
            ),
            final(self).spec_tiles() == old(self).spec_tiles(),
            final(self).spec_patterns() == old(self).spec_patterns(),
    {
        self.levels[tile_type.index() * NUMBER_OF_LEVELS + level as usize] = value;
    }

    /// Number of tiles of kind `tile_type` carrying formation `pattern`.
    pub fn get_patterns(&self, tile_type: TileType, pattern: TilePattern) -> (r: u8)
        ensures
            r == self.spec_patterns()[type_index(tile_type) * NUMBER_OF_PATTERNS + pattern_index(
                pattern,
            )],
    {
        self.patterns[tile_type.index() * NUMBER_OF_PATTERNS + pattern.index()]
    }

    /// Sets the number of tiles of kind `tile_type` carrying formation `pattern`.
    pub fn set_patterns(&mut self, tile_type: TileType, pattern: TilePattern, value: u8)
        ensures
            final(self).spec_patterns() == old(self).spec_patterns().update(
                type_index(tile_type) * NUMBER_OF_PATTERNS + pattern_index(pattern),
                value,
            ),
            final(self).spec_tiles() == old(self).spec_tiles(),
            final(self).spec_levels() == old(self).spec_levels(),
    {
        self.patterns[tile_type.index() * NUMBER_OF_PATTERNS + pattern.index()] = value;
    }
}

impl Default for BoardStats {
    fn default() -> (r: BoardStats)
        ensures
            r.counts(Seq::empty()),
    {
        let r = BoardStats { tiles: [0;8], levels: [0;32], patterns: [0;64] };
        assert(r.wf());
        r
    }
}

/// Counting one more tile adds one to the slots it falls in and keeps the others.
proof fn lemma_count_push(s: Seq<Tile>, x: Tile, f: spec_fn(Tile) -> bool)
    ensures
        count(s.push(x), f) == count(s, f) + if f(x) {
            1nat
        } else {
            0nat
        },
{
    assert(s.push(x).drop_last() =~= s);
}

/// `b` is a fresh board of `size` cells in state `state`: default resources, a home tile at
/// index `size / 2` and empty cells elsewhere.
pub open spec fn fresh_board(b: HexBoard, size: int, state: MatchmakingState) -> bool {
    &&& b.resources@ == spec_default_resources()
    &&& b.matchmaking_state == state
    &&& b.hex_grid@.len() == size
    &&& b.hex_grid@[size / 2] == Tile::spec_home()
    &&& forall|i: int| 0 <= i < size && i != size / 2 ==> #[trigger] b.hex_grid@[i] == Tile::spec_empty()
}

impl HexBoard {
    /// Well-formed: a grid of one of the board shapes with valid tiles.
    pub open spec fn wf(&self) -> bool {
        grid_wf(self.hex_grid@)
    }

    /// A fresh board of `size` cells: default resources, a home tile at index `size / 2`
    /// and empty cells elsewhere. `None` for an empty grid or one larger than the largest
    /// board shape.
    pub fn try_new(size: usize, matchmaking_state: MatchmakingState) -> (r: Option<HexBoard>)
        ensures
            r.is_some() == (0 < size <= MAX_HEX_GRID_SIZE),
            r matches Some(b) ==> fresh_board(b, size as int, matchmaking_state),
    {
        if size == 0 || size > MAX_HEX_GRID_SIZE as usize {
            return None;
        }
        let mut grid: Vec<Tile> = Vec::new();
        let mut i: usize = 0;
        while i < size
            invariant
                i <= size,
                grid@.len() == i,
                forall|j: int| 0 <= j < i ==> #[trigger] grid@[j] == Tile::spec_empty(),
            decreases size - i,
        {
            grid.push(Tile::empty());
            i = i + 1;
        }
        grid.set(size / 2, Tile::get_home());
        Some(HexBoard { resources: default_player_resources(), hex_grid: grid, matchmaking_state })
    }

    /// The game the board plays in, if any.
    pub fn get_game_id(&self) -> (r: Option<GameId>)
        ensures
            r == (match self.matchmaking_state {
                MatchmakingState::Joined(id) => Some(id),
                _ => None::<GameId>,
            }),
    {
        self.matchmaking_state.get_game_id()
    }

    /// Tile counts by kind, by kind and level, and by kind and formation.
    pub fn get_stats(&self) -> (stats: BoardStats)
        requires
            self.wf(),
        ensures
            stats.counts(self.hex_grid@),
    {
        let mut stats = BoardStats::default();
        let ghost grid = self.hex_grid@;
        let mut i: usize = 0;
        while i < self.hex_grid.len()
            invariant
                grid == self.hex_grid@,
                grid_wf(grid),
                i <= grid.len(),
                stats.counts(grid.take(i as int)),
            decreases grid.len() - i,
        {
            let tile = self.hex_grid[i];
            let ghost prev = grid.take(i as int);
            let tile_type = tile.get_type();
            let level = tile.get_level();
            let pattern = tile.get_pattern();
            proof {
                assert(grid.take(i as int + 1) =~= grid.take(i as int).push(tile));
                assert forall|f: spec_fn(Tile) -> bool|
                    count(#[trigger] grid.take(i as int + 1), f) == count(grid.take(i as int), f)
                        + if f(tile) {
                        1nat
                    } else {
                        0nat
                    } by {
                    lemma_count_push(grid.take(i as int), tile, f);
                }
                assert forall|f: spec_fn(Tile) -> bool|
                    count(#[trigger] grid.take(i as int), f) <= i by {
                    lemma_count_bound(grid.take(i as int), f);
                }
                assert(grid[i as int].wf());
            }
            let t = stats.get_tiles(tile_type);
            let lv = stats.get_levels(tile_type, level as usize);
            let pt = stats.get_patterns(tile_type, pattern);
            stats.set_tiles(tile_type, t + 1);
            stats.set_levels(tile_type, level, lv + 1);
            stats.set_patterns(tile_type, pattern, pt + 1);
            i = i + 1;
            proof {
                let s = grid.take(i as int);
                assert forall|k: int| 0 <= k < NUMBER_OF_TILE_TYPES implies #[trigger] stats.spec_tiles()[k]
                    == count(s, in_type_slot(k)) by {
                    assert(count(s, in_type_slot(k)) == count(prev, in_type_slot(k))
                        + if in_type_slot(k)(tile) {
                        1nat
                    } else {
                        0nat
                    });
                }
                assert forall|k: int|
                    0 <= k < NUMBER_OF_TILE_TYPES * NUMBER_OF_LEVELS implies #[trigger] stats.spec_levels()[k]
                        == count(s, in_level_slot(k)) by {
                    assert(count(s, in_level_slot(k)) == count(prev, in_level_slot(k))
                        + if in_level_slot(k)(tile) {
                        1nat
                    } else {
                        0nat
                    });
                }
                assert forall|k: int|
                    0 <= k < NUMBER_OF_TILE_TYPES * NUMBER_OF_PATTERNS implies #[trigger] stats.spec_patterns()[k]
                        == count(s, in_pattern_slot(k)) by {
                    assert(count(s, in_pattern_slot(k)) == count(
                prev, in_pattern_slot(k)) + if in_pattern_slot(k)(tile) {
                        1nat
                    } else {
                        0nat
                    });
                }
            }
        }
        assert(grid.take(grid.len() as int) =~= grid);
        stats
    }
}

impl Tile {
    pub open spec fn spec_home() -> Tile {
        Tile { tile_type: TileType::Home, level: 0, pattern: TilePattern::Normal }
    }

    pub open spec fn spec_empty() -> Tile {
        Tile { tile_type: TileType::Empty, level: 0, pattern: TilePattern::Normal }
    }
}

} // verus!
