//! Tiles: a kind, a level and a formation flag.
use vstd::prelude::*;

verus! {

/// Number of tile kinds.
pub const NUMBER_OF_TILE_TYPES: usize = 8;

/// Number of levels a tile can have (0 to 3).
pub const NUMBER_OF_LEVELS: usize = 4;

/// Number of formation flags (slots reserved in the statistics).
pub const NUMBER_OF_PATTERNS: usize = 8;

/// Highest level of a tile.
pub const MAX_LEVEL: u8 = 3;

/// The kind of a tile.
#[derive(Clone, Copy, Debug, PartialEq, Eq, Structural)]
pub enum TileType {
    Empty,
    Home,
    Grass,
    Water,
    Mountain,
    Tree,
    Desert,
    Cave,
}

/// The formation flag of a tile.
#[derive(Clone, Copy, Debug, PartialEq, Eq, Structural)]
pub enum TilePattern {
    Normal,
    Delta,
    Line,
    Ypsilon,
}

/// Position of a tile kind in the per-kind tables.
pub open spec fn type_index(t: TileType) -> int {
    match t {
        TileType::Empty => 0,
        TileType::Home => 1,
        TileType::Grass => 2,
        TileType::Water => 3,
        TileType::Mountain => 4,
        TileType::Tree => 5,
        TileType::Desert => 6,
        TileType::Cave => 7,
    }
}

/// The tile kind with code `v`; codes above 7 mean an empty cell.
pub open spec fn type_from_code(v: int) -> TileType {
    if v == 1 {
        TileType::Home
    } else if v == 2 {
        TileType::Grass
    } else if v == 3 {
        TileType::Water
    } else if v == 4 {
        TileType::Mountain
    } else if v == 5 {
        TileType::Tree
    } else if v == 6 {
        TileType::Desert
    } else if v == 7 {
        TileType::Cave
    } else {
        TileType::Empty
    }
}

/// Position of a formation flag in the statistics.
pub open spec fn pattern_index(p: TilePattern) -> int {
    match p {
        TilePattern::Normal => 0,
        TilePattern::Delta => 1,
        TilePattern::Line => 2,
        TilePattern::Ypsilon => 3,
    }
}

/// The formation flag with code `v`; unknown codes mean no formation.
pub open spec fn pattern_from_code(v: int) -> TilePattern {
    if v == 1 {
        TilePattern::Delta
    } else if v == 2 {
        TilePattern::Line
    } else if v == 3 {
        TilePattern::Ypsilon
    } else {
        TilePattern::Normal
    }
}

impl TileType {
    /// Position of this kind in the per-kind tables.
    pub fn index(self) -> (r: usize)
        ensures
            r as int == type_index(self),
            r < NUMBER_OF_TILE_TYPES,
    {
        match self {
            TileType::Empty => 0,
            TileType::Home => 1,
            TileType::Grass => 2,
            TileType::Water => 3,
            TileType::Mountain => 4,
            TileType::Tree => 5,
            TileType::Desert => 6,
            TileType::Cave => 7,
        }
    }
}

impl TilePattern {
    /// Position of this flag in the statistics.
    pub fn index(self) -> (r: usize)
        ensures
            r as int == pattern_index(self),
            r < 4,
    {
        match self {
            TilePattern::Normal => 0,
            TilePattern::Delta => 1,
            TilePattern::Line => 2,
            TilePattern::Ypsilon => 3,
        }
    }
}

impl From<u8> for TileType {
    fn from(value: u8) -> (r: TileType) {
        match value {
            1 => TileType::Home,
            2 => TileType::Grass,
            3 => TileType::Water,
            4 => TileType::Mountain,
            5 => TileType::Tree,
            6 => TileType::Desert,
            7 => TileType::Cave,
            _ => TileType::Empty,
        }
    }
}

impl vstd::std_specs::convert::FromSpecImpl<u8> for TileType {
    open spec fn obeys_from_spec() -> bool {
        true
    }

    open spec fn from_spec(v: u8) -> TileType {
        type_from_code(v as int)
    }
}

impl From<u8> for TilePattern {
    fn from(value: u8) -> (r: TilePattern) {
        match value {
            1 => TilePattern::Delta,
            2 => TilePattern::Line,
            3 => TilePattern::Ypsilon,
            _ => TilePattern::Normal,
        }
    }
}

impl vstd::std_specs::convert::FromSpecImpl<u8> for TilePattern {
    open spec fn obeys_from_spec() -> bool {
        true
    }

    open spec fn from_spec(v: u8) -> TilePattern {
        pattern_from_code(v as int)
    }
}

/// Read and write access to the parts of a tile.
pub trait GetTileInfo: Sized {
    spec fn spec_level(&self) -> u8;

    spec fn spec_type(&self) -> TileType;

    spec fn spec_pattern(&self) -> TilePattern;

    fn get_level(&self) -> (r: u8)
        ensures
            r == self.spec_level(),
    ;

    fn set_level(&mut self, level: u8)
        requires
            level <= MAX_LEVEL,
        ensures
            final(self).spec_level() == level,
            final(self).spec_type() == old(self).spec_type(),
            final(self).spec_pattern() == old(self).spec_pattern(),
    ;

    fn get_type(&self) -> (r: TileType)
        ensures
            r == self.spec_type(),
    ;

    fn get_pattern(&self) -> (r: TilePattern)
        ensures
            r == self.spec_pattern(),
    ;

    fn set_pattern(&mut self, value: TilePattern)
        ensures
            final(self).spec_pattern() == value,
            final(self).spec_type() == old(self).spec_type(),
            final(self).spec_level() == old(self).spec_level(),
    ;

    /// Whether two tiles are of the same kind; level and formation do not count.
    fn same(&self, other: &Self) -> (r: bool)
        ensures
            r == (self.spec_type() == other.spec_type()),
    {
        let a = self.get_type();
        let b = other.get_type();
        a == b
    }

    /// The tile that seeds the center of every board: a home at level 0 with no formation.
    fn get_home() -> (r: Self)
        ensures
            r.spec_type() == TileType::Home,
            r.spec_level() == 0,
            r.spec_pattern() == TilePattern::Normal,
    ;
}

/// A cell of a board.
#[derive(Clone, Copy, Debug, PartialEq, Eq, Structural)]
pub struct Tile {
    pub tile_type: TileType,
    pub level: u8,
    pub pattern: TilePattern,
}

impl Tile {
    /// Levels stay within 0 to 3.
    pub open spec fn wf(&self) -> bool {
        self.level <= MAX_LEVEL
    }

    /// A tile of kind `tile_type` at `level` with formation flag `pattern`.
    pub fn new(tile_type: TileType, level: u8, pattern: TilePattern) -> (r: Tile)
        requires
            level <= MAX_LEVEL,
        ensures
            r == (Tile { tile_type, level, pattern }),
    {
        Tile { tile_type, level, pattern }
    }

    /// An empty cell.
    pub fn empty() -> (r: Tile)
        ensures
            r == (Tile { tile_type: TileType::Empty, level: 0, pattern: TilePattern::Normal }),
    {
        Tile { tile_type: TileType::Empty, level: 0, pattern: TilePattern::Normal }
    }

    /// The tile stored in one byte: the formation code in the low three bits, the kind in the
    /// next three and the level in the top two.
    pub fn from_byte(b: u8) -> (r: Tile)
        ensures
            r.tile_type == type_from_code((b / 8) as int % 8),
            r.level == b / 64,
            r.pattern == pattern_from_code(b as int % 8),
            r.wf(),
    {
        Tile {
            tile_type: TileType::from((b / 8) % 8),
            level: b / 64,
            pattern: TilePattern::from(b % 8),
        }
    }
}

impl GetTileInfo for Tile {
    open spec fn spec_level(&self) -> u8 {
        self.level
    }

    open spec fn spec_type(&self) -> TileType {
        self.tile_type
    }

    open spec fn spec_pattern(&self) -> TilePattern {
        self.pattern
    }

    fn get_level(&self) -> (r: u8) {
        self.level
    }

    fn set_level(&mut self, level: u8) {
        self.level = level;
    }

    fn get_type(&self) -> (r: TileType) {
        self.tile_type
    }

    fn get_pattern(&self) -> (r: TilePattern) {
        self.pattern
    }

    fn set_pattern(&mut self, value: TilePattern) {
        self.pattern = value;
    }

    fn get_home() -> (r: Tile) {
        Tile { tile_type: TileType::Home, level: 0, pattern: TilePattern::Normal }
    }
}

} // verus!
