//! Formation detection: deltas, lines and ypsilons of same-kind tiles.
use vstd::prelude::*;

use crate::board::{grid_wf, HexBoard};
use crate::hex::{
    coords_of, coords_to_index, geometry, get_neighbouring_tiles, index_of, index_to_coords,
    lemma_coords_round_trip, max_distance_from_center, max_distance_of, neighbour_of, side_length,
    side_length_of, valid_hex,
};
use crate::tile::{GetTileInfo, Tile, TilePattern, TileType};

verus! {

/// A neighbourhood slot: the cell index and its tile, or nothing past the board's edge.
pub type Slot = Option<(u8, Tile)>;

/// The slots `a`, `b` and `c` all hold tiles of one kind.
pub open spec fn same3(n: Seq<Slot>, a: int, b: int, c: int) -> bool {
    &&& n[a] is Some
    &&& n[b] is Some
    &&& n[c] is Some
    &&& n[a]->Some_0.1.tile_type == n[b]->Some_0.1.tile_type
    &&& n[a]->Some_0.1.tile_type == n[c]->Some_0.1.tile_type
}

/// The slots `a`, `b`, `c` and `d` all hold tiles of one kind.
pub open spec fn same4(n: Seq<Slot>, a: int, b: int, c: int, d: int) -> bool {
    same3(n, a, b, c) && n[d] is Some && n[a]->Some_0.1.tile_type == n[d]->Some_0.1.tile_type
}

/// Cell indices of slots `a`, `b` and `c`.
pub open spec fn idx3(n: Seq<Slot>, a: int, b: int, c: int) -> Seq<u8> {
    seq![n[a]->Some_0.0, n[b]->Some_0.0, n[c]->Some_0.0]
}

/// Cell indices of slots `a`, `b`, `c` and `d`.
pub open spec fn idx4(n: Seq<Slot>, a: int, b: int, c: int, d: int) -> Seq<u8> {
    idx3(n, a, b, c).push(n[d]->Some_0.0)
}

/// The formation found around slot 0 (the center) with its six neighbour slots 1 to 6: the
/// first match among the six deltas, then the three lines, then the two ypsilons (flagged as
/// lines), with the indices of the matched cells. None for an empty center.
pub open spec fn spec_get_pattern(n: Seq<Slot>) -> Option<(TilePattern, Seq<u8>)> {
    if n[0] is Some && n[0]->Some_0.1.tile_type == TileType::Empty {
        None
    } else if same3(n, 0, 1, 2) {
        Some((TilePattern::Delta, idx3(n, 0, 1, 2)))
    } else if same3(n, 0, 2, 3) {
        Some((TilePattern::Delta, idx3(n, 0, 2, 3)))
    } else if same3(n, 0, 3, 4) {
        Some((TilePattern::Delta, idx3(n, 0, 3, 4)))
    } else if same3(n, 0, 4, 5) {
        Some((TilePattern::Delta, idx3(n, 0, 4, 5)))
    } else if same3(n, 0, 5, 6) {
        Some((TilePattern::Delta, idx3(n, 0, 5, 6)))
    } else if same3(n, 0, 6, 1) {
        Some((TilePattern::Delta, idx3(n, 0, 6, 1)))
    } else if same3(n, 0, 1, 4) {
        Some((TilePattern::Line, idx3(n, 0, 1, 4)))
    } else if same3(n, 0, 2, 5) {
        Some((TilePattern::Line, idx3(n, 0, 2, 5)))
    } else if same3(n, 0, 3, 6) {
        Some((TilePattern::Line, idx3(n, 0, 3, 6)))
    } else if same4(n, 0, 1, 3, 5) {
        Some((TilePattern::Line, idx4(n, 0, 1, 3, 5)))
    } else if same4(n, 0, 2, 4, 6) {
        Some((TilePattern::Line, idx4(n, 0, 2, 4, 6)))
    } else {
        None
    }
}

/// Every filled slot names a cell of a grid of `len` cells.
pub open spec fn slots_within(n: Seq<Slot>, len: int) -> bool {
    forall|j: int| 0 <= j < n.len() && (#[trigger] n[j]) is Some ==> n[j]->Some_0.0 < len
}

/// The slots of the cell at `index`: the cell itself, then its six neighbours in direction
/// order.
pub open spec fn neighbourhood(grid: Seq<Tile>, index: int) -> Seq<Slot> {
    let m = max_distance_of(grid.len() as int);
    let s = side_length_of(grid.len() as int);
    let (q, r) = coords_of(index, s, m);
    Seq::new(
        7,
        |j: int|
            if j == 0 {
                Some((index as u8, grid[index]))
            } else {
                match neighbour_of(m, q, r, j - 1) {
                    Some(c) => {
                        let k = index_of(m, s, c.0 as int, c.1 as int);
                        Some((k as u8, grid[k]))
                    },
                    None => None,
                }
            },
    )
}

/// `grid` with flag `p` set on the cells listed in `idxs` that carry no formation yet.
pub open spec fn apply_flag(grid: Seq<Tile>, p: TilePattern, idxs: Seq<u8>) -> Seq<Tile> {
    Seq::new(
        grid.len(),
        |i: int|
            if idxs.contains(i as u8) && grid[i].pattern == TilePattern::Normal {
                Tile { pattern: p, ..grid[i] }
            } else {
                grid[i]
            },
    )
}

/// The grid after detection centered on the cell at `index`; a center that already carries a
/// formation is left alone.
pub open spec fn detect_at(grid: Seq<Tile>, index: int) -> Seq<Tile> {
    if grid[index].pattern != TilePattern::Normal {
        grid
    } else {
        match spec_get_pattern(neighbourhood(grid, index)) {
            Some((p, idxs)) => apply_flag(grid, p, idxs),
            None => grid,
        }
    }
}

/// The grid after detection centered on each listed cell in turn (empty slots skipped).
pub open spec fn detect_all(grid: Seq<Tile>, centers: Seq<Option<int>>, n: nat) -> Seq<Tile>
    decreases n,
{
    if n == 0 {
        grid
    } else {
        let g = detect_all(grid, centers, (n - 1) as nat);
        match centers[n - 1] {
            Some(i) => detect_at(g, i),
            None => g,
        }
    }
}

/// The cell at `(q, r)` followed by its six neighbour slots, as cell indices.
pub open spec fn impact_of(len: int, q: int, r: int) -> Seq<Option<int>> {
    let m = max_distance_of(len);
    let s = side_length_of(len);
    Seq::new(
        7,
        |j: int|
            if j == 0 {
                Some(index_of(m, s, q, r))
            } else {
                match neighbour_of(m, q, r, j - 1) {
                    Some(c) => Some(index_of(m, s, c.0 as int, c.1 as int)),
                    None => None,
                }
            },
    )
}

/// The grid after detection around `(q, r)`: centered on that cell and on each neighbour.
pub open spec fn detect_around(grid: Seq<Tile>, q: int, r: int) -> Seq<Tile> {
    detect_all(grid, impact_of(grid.len() as int, q, r), 7)
}

/// Tiles that carry a formation are kept as they are.
pub open spec fn keeps_flagged(before: Seq<Tile>, after: Seq<Tile>) -> bool {
    &&& after.len() == before.len()
    &&& forall|i: int|
        0 <= i < before.len() && before[i].pattern != TilePattern::Normal ==> #[trigger] after[i]
            == before[i]
}

/// Detection changes formation flags only: kinds and levels stay.
pub open spec fn keeps_kinds(before: Seq<Tile>, after: Seq<Tile>) -> bool {
    &&& after.len() == before.len()
    &&& forall|i: int|
        0 <= i < before.len() ==> (#[trigger] after[i]).tile_type == before[i].tile_type
            && after[i].level == before[i].level
}

proof fn lemma_get_pattern_within(n: Seq<Slot>, len: int)
    requires
        n.len() == 7,
        slots_within(n, len),
    ensures
        spec_get_pattern(n) matches Some((p, idxs)) ==> p != TilePattern::Normal && forall|k: int|
            0 <= k < idxs.len() ==> #[trigger] idxs[k] < len,
{
    assert(n[0] is Some ==> n[0]->Some_0.0 < len);
    assert(n[1] is Some ==> n[1]->Some_0.0 < len);
    assert(n[2] is Some ==> n[2]->Some_0.0 < len);
    assert(n[3] is Some ==> n[3]->Some_0.0 < len);
    assert(n[4] is Some ==> n[4]->Some_0.0 < len);
    assert(n[5] is Some ==> n[5]->Some_0.0 < len);
    assert(n[6] is Some ==> n[6]->Some_0.0 < len);
}

proof fn lemma_detect_at(grid: Seq<Tile>, index: int)
    requires
        grid_wf(grid),
        0 <= index < grid.len(),
        slots_within(neighbourhood(grid, index), grid.len() as int),
    ensures
        keeps_flagged(grid, detect_at(grid, index)),
        keeps_kinds(grid, detect_at(grid, index)),
        grid_wf(detect_at(grid, index)),
{
    lemma_get_pattern_within(neighbourhood(grid, index), grid.len() as int);
    let g = detect_at(grid, index);
    assert forall|i: int| 0 <= i < g.len() implies (#[trigger] g[i]).wf() by {
        assert(grid[i].wf());
    }
}

/// Re-running detection keeps every tile that already carries a formation, and never changes
/// a tile's kind or level.
pub proof fn lemma_detection_keeps_flagged(grid: Seq<Tile>, q: int, r: int)
    requires
        grid_wf(grid),
        valid_hex(max_distance_of(grid.len() as int), q, r),
    ensures
        keeps_flagged(grid, detect_around(grid, q, r)),
        keeps_kinds(grid, detect_around(grid, q, r)),
        grid_wf(detect_around(grid, q, r)),
{
    lemma_detect_all(grid, impact_of(grid.len() as int, q, r), 7, q, r);
}

proof fn lemma_detect_all(grid: Seq<Tile>, centers: Seq<Option<int>>, n: nat, q: int, r: int)
    requires
        grid_wf(grid),
        centers == impact_of(grid.len() as int, q, r),
        valid_hex(max_distance_of(grid.len() as int), q, r),
        n <= 7,
    ensures
        keeps_flagged(grid, detect_all(grid, centers, n)),
        keeps_kinds(grid, detect_all(grid, centers, n)),
        grid_wf(detect_all(grid, centers, n)),
    decreases n,
{
    if n > 0 {
        lemma_detect_all(grid, centers, (n - 1) as nat, q, r);
        let g = detect_all(grid, centers, (n - 1) as nat);
        match centers[n - 1] {
            Some(i) => {
                lemma_impact_within(grid.len() as int, q, r, n - 1);
                lemma_neighbourhood_within(g, i);
                lemma_detect_at(g, i);
            },
            None => {},
        }
    }
}

/// Each board size has a matching geometry whose side squared is the size.
pub proof fn lemma_geometry_of(len: int)
    requires
        len == 9 || len == 25 || len == 49,
    ensures
        geometry(max_distance_of(len), side_length_of(len)),
        side_length_of(len) * side_length_of(len) == len,
{
}

proof fn lemma_impact_within(len: int, q: int, r: int, j: int)
    requires
        len == 9 || len == 25 || len == 49,
        valid_hex(max_distance_of(len), q, r),
        0 <= j < 7,
    ensures
        impact_of(len, q, r)[j] matches Some(i) ==> 0 <= i < len,
{
    lemma_geometry_of(len);
    let m = max_distance_of(len);
    let s = side_length_of(len);
    if j == 0 {
        lemma_coords_round_trip(m, s, q, r);
    } else {
        match neighbour_of(m, q, r, j - 1) {
            Some(c) => {
                lemma_coords_round_trip(m, s, c.0 as int, c.1 as int);
            },
            None => {},
        }
    }
}

/// Every cell index of a board has coordinates on the board.
pub proof fn lemma_index_coords_valid(len: int, index: int)
    requires
        len == 9 || len == 25 || len == 49,
        0 <= index < len,
    ensures
        valid_hex(
            max_distance_of(len),
            coords_of(index, side_length_of(len), max_distance_of(len)).0,
            coords_of(index, side_length_of(len), max_distance_of(len)).1,
        ),
{
    lemma_geometry_of(len);
    let s = side_length_of(len);
    assert(0 <= index / s < s) by (nonlinear_arith)
        requires
            0 <= index < s * s,
            s > 0,
    ;
}

proof fn lemma_neighbourhood_within(grid: Seq<Tile>, index: int)
    requires
        grid_wf(grid),
        0 <= index < grid.len(),
    ensures
        slots_within(neighbourhood(grid, index), grid.len() as int),
{
    let len = grid.len() as int;
    lemma_geometry_of(len);
    lemma_index_coords_valid(len, index);
    let m = max_distance_of(len);
    let s = side_length_of(len);
    let (q, r) = coords_of(index, s, m);
    let n = neighbourhood(grid, index);
    assert forall|j: int| 0 <= j < n.len() && (#[trigger] n[j]) is Some implies n[j]->Some_0.0
        < len by {
        if j > 0 {
            match neighbour_of(m, q, r, j - 1) {
                Some(c) => {
                    lemma_coords_round_trip(m, s, c.0 as int, c.1 as int);
                },
                None => {},
            }
        }
    }
}

/// The three cells of slots `n1`, `n2` and `n3` when all hold tiles of one kind.
pub fn match_same_tile(n1: Slot, n2: Slot, n3: Slot) -> (r: Option<Vec<u8>>)
    ensures
        r is Some == same3(seq![n1, n2, n3], 0, 1, 2),
        r matches Some(v) ==> v@ == idx3(seq![n1, n2, n3], 0, 1, 2),
{
    proof {
        let n = seq![n1, n2, n3];
        assert(n[0] == n1 && n[1] == n2 && n[2] == n3);
    }
    match (n1, n2, n3) {
        (Some((index1, tile1)), Some((index2, tile2)), Some((index3, tile3))) => {
            if tile1.same(&tile2) && tile1.same(&tile3) {
                let v = vec![index1, index2, index3];
                assert(v@ =~= idx3(seq![n1, n2, n3], 0, 1, 2));
                Some(v)
            } else {
                None
            }
        },
        _ => None,
    }
}

/// The four cells of slots `n1` to `n4` when all hold tiles of one kind.
pub fn match_same_tile_4(n1: Slot, n2: Slot, n3: Slot, n4: Slot) -> (r: Option<Vec<u8>>)
    ensures
        r is Some == same4(seq![n1, n2, n3, n4], 0, 1, 2, 3),
        r matches Some(v) ==> v@ == idx4(seq![n1, n2, n3, n4], 0, 1, 2, 3),
{
    proof {
        let n = seq![n1, n2, n3, n4];
        assert(n[0] == n1 && n[1] == n2 && n[2] == n3 && n[3] == n4);
    }
    match (n1, n2, n3, n4) {
        (Some((index1, tile1)), Some((index2, tile2)), Some((index3, tile3)), Some((index4, tile4))) => {
            if tile1.same(&tile2) && tile1.same(&tile3) && tile1.same(&tile4) {
                let v = vec![index1, index2, index3, index4];
                assert(v@ =~= idx4(seq![n1, n2, n3, n4], 0, 1, 2, 3));
                Some(v)
            } else {
                None
            }
        },
        _ => None,
    }
}

fn try3(n: &Vec<Slot>, a: usize, b: usize, c: usize) -> (r: Option<Vec<u8>>)
    requires
        a < n.len(),
        b < n.len(),
        c < n.len(),
    ensures
        r is Some == same3(n@, a as int, b as int, c as int),
        r matches Some(v) ==> v@ == idx3(n@, a as int, b as int, c as int),
{
    let r = match_same_tile(n[a], n[b], n[c]);
    proof {
        let s = seq![n@[a as int], n@[b as int], n@[c as int]];
        assert(s[0] == n@[a as int] && s[1] == n@[b as int] && s[2] == n@[c as int]);
        assert(idx3(s, 0, 1, 2) =~= idx3(n@, a as int, b as int, c as int));
    }
    r
}

fn try4(n: &Vec<Slot>, a: usize, b: usize, c: usize, d: usize) -> (r: Option<Vec<u8>>)
    requires
        a < n.len(),
        b < n.len(),
        c < n.len(),
        d < n.len(),
    ensures
        r is Some == same4(n@, a as int, b as int, c as int, d as int),
        r matches Some(v) ==> v@ == idx4(n@, a as int, b as int, c as int, d as int),
{
    let r = match_same_tile_4(n[a], n[b], n[c], n[d]);
    proof {
        let s = seq![n@[a as int], n@[b as int], n@[c as int], n@[d as int]];
        assert(s[0] == n@[a as int] && s[1] == n@[b as int] && s[2] == n@[c as int] && s[3]
            == n@[d as int]);
        assert(idx4(s, 0, 1, 2, 3) =~= idx4(n@, a as int, b as int, c as int, d as int));
    }
    r
}

/// The formation around the center slot 0 of `n`, with the cells it covers.
pub fn get_pattern(n: &Vec<Slot>) -> (r: Option<(TilePattern, Vec<u8>)>)
    requires
        n.len() == 7,
    ensures
        r is Some == spec_get_pattern(n@) is Some,
        r matches Some((p, v)) ==> spec_get_pattern(n@) == Some((p, v@)),
{
    if let Some((_i, tile)) = n[0] {
        if tile.get_type() == TileType::Empty {
            return None;
        }
    }
    if let Some(v) = try3(n, 0, 1, 2) {
        return Some((TilePattern::Delta, v));
    }
    if let Some(v) = try3(n, 0, 2, 3) {
        return Some((TilePattern::Delta, v));
    }
    if let Some(v) = try3(n, 0, 3, 4) {
        return Some((TilePattern::Delta, v));
    }
    if let Some(v) = try3(n, 0, 4, 5) {
        return Some((TilePattern::Delta, v));
    }
    if let Some(v) = try3(n, 0, 5, 6) {
        return Some((TilePattern::Delta, v));
    }
    if let Some(v) = try3(n, 0, 6, 1) {
        return Some((TilePattern::Delta, v));
    }
    if let Some(v) = try3(n, 0, 1, 4) {
        return Some((TilePattern::Line, v));
    }
    if let Some(v) = try3(n, 0, 2, 5) {
        return Some((TilePattern::Line, v));
    }
    if let Some(v) = try3(n, 0, 3, 6) {
        return Some((TilePattern::Line, v));
    }
    if let Some(v) = try4(n, 0, 1, 3, 5) {
        return Some((TilePattern::Line, v));
    }
    if let Some(v) = try4(n, 0, 2, 4, 6) {
        return Some((TilePattern::Line, v));
    }
    None
}

/// Sets flag `p` on the listed cells that carry no formation yet.
fn flag_tiles(hex_board: &mut HexBoard, p: TilePattern, idxs: &Vec<u8>)
    requires
        forall|k: int| 0 <= k < idxs.len() ==> #[trigger] idxs@[k] < old(hex_board).hex_grid@.len(),
        old(hex_board).hex_grid@.len() <= 255,
        p != TilePattern::Normal,
    ensures
        final(hex_board).hex_grid@ == apply_flag(old(hex_board).hex_grid@, p, idxs@),
        final(hex_board).resources == old(hex_board).resources,
        final(hex_board).matchmaking_state == old(hex_board).matchmaking_state,
{
    let ghost orig = hex_board.hex_grid@;
    let mut k: usize = 0;
    while k < idxs.len()
        invariant
            k <= idxs.len(),
            p != TilePattern::Normal,
            orig.len() <= 255,
            hex_board.hex_grid@.len() == orig.len(),
            forall|j: int| 0 <= j < idxs.len() ==> #[trigger] idxs@[j] < orig.len(),
            hex_board.hex_grid@ == apply_flag(orig, p, idxs@.take(k as int)),
            hex_board.resources == old(hex_board).resources,
            hex_board.matchmaking_state == old(hex_board).matchmaking_state,
        decreases idxs.len() - k,
    {
        let i = idxs[k] as usize;
        let ghost before = hex_board.hex_grid@;
        if hex_board.hex_grid[i].get_pattern() == TilePattern::Normal {
            let mut t = hex_board.hex_grid[i];
            t.set_pattern(p);
            hex_board.hex_grid.set(i, t);
        }
        proof {
            let next = idxs@.take(k as int + 1);
            assert(next =~= idxs@.take(k as int).push(idxs@[k as int]));
            assert forall|x: int| 0 <= x < orig.len() implies #[trigger] hex_board.hex_grid@[x]
                == apply_flag(orig, p, next)[x] by {
                let prev = idxs@.take(k as int);
                let y = idxs@[k as int];
                let v = x as u8;
                if prev.contains(v) {
                    let j = choose|j: int| 0 <= j < prev.len() && prev[j] == v;
                    assert(next[j] == v);
                }
                if y == v {
                    assert(next[k as int] == y);
                }
                if next.contains(v) {
                    let j = choose|j: int| 0 <= j < next.len() && next[j] == v;
                    if j < k {
                        assert(prev[j] == v);
                    }
                }
                assert(next.contains(v) == (prev.contains(v) || y == v));
            }
            assert(hex_board.hex_grid@ =~= apply_flag(orig, p, next));
        }
        k = k + 1;
    }
    assert(idxs@.take(idxs.len() as int) =~= idxs@);
}

/// Runs detection centered on the cell at `index` and flags the matched cells that carry no
/// formation yet; a center that already carries one is left alone.
pub fn set_pattern_around_tile(hex_board: &mut HexBoard, index: u8, max_distance: i8, side_length: i8)
    requires
        old(hex_board).wf(),
        max_distance as int == max_distance_of(old(hex_board).hex_grid@.len() as int),
        side_length as int == side_length_of(old(hex_board).hex_grid@.len() as int),
        index < old(hex_board).hex_grid@.len(),
    ensures
        final(hex_board).hex_grid@ == detect_at(old(hex_board).hex_grid@, index as int),
        final(hex_board).wf(),
        final(hex_board).resources == old(hex_board).resources,
        final(hex_board).matchmaking_state == old(hex_board).matchmaking_state,
{
    let ghost grid = hex_board.hex_grid@;
    let ghost len = grid.len() as int;
    proof {
        lemma_geometry_of(len);
        lemma_index_coords_valid(len, index as int);
        lemma_neighbourhood_within(grid, index as int);
        lemma_detect_at(grid, index as int);
    }
    let tile = hex_board.hex_grid[index as usize];
    if tile.get_pattern() != TilePattern::Normal {
        return;
    }
    let coords = index_to_coords(index, side_length, max_distance);
    let (q, r) = coords.unwrap();
    let neighbours = get_neighbouring_tiles(max_distance, q, r).unwrap();
    let ghost full = neighbourhood(grid, index as int);
    let mut n: Vec<Slot> = Vec::new();
    n.push(Some((index, tile)));
    let mut i: usize = 0;
    while i < 6
        invariant
            i <= 6,
            n@ == full.take(i as int + 1),
            neighbours@ == crate::hex::neighbours_of(max_distance as int, q as int, r as int),
            (q as int, r as int) == coords_of(index as int, side_length as int, max_distance as int),
            geometry(max_distance as int, side_length as int),
            side_length as int * side_length as int == len,
            hex_board.hex_grid@ == grid,
            grid.len() == len,
            full == neighbourhood(grid, index as int),
            max_distance as int == max_distance_of(len),
            side_length as int == side_length_of(len),
        decreases 6 - i,
    {
        let slot = match neighbours[i] {
            Some((nq, nr)) => {
                let k = coords_to_index(max_distance, side_length, nq, nr);
                Some((k as u8, hex_board.hex_grid[k as usize]))
            },
            None => None,
        };
        n.push(slot);
        proof {
            assert(full.take(i as int + 2) =~= full.take(i as int + 1).push(full[i as int + 1]));
        }
        i = i + 1;
    }
    assert(n@ =~= full);
    if let Some((pattern, idxs)) = get_pattern(&n) {
        proof {
            lemma_get_pattern_within(full, len);
        }
        flag_tiles(hex_board, pattern, &idxs);
    }
}

/// Runs detection centered on the cell at `tile_coords` and then on each of its neighbours.
#[verifier::rlimit(50)]
pub fn set_patterns(hex_board: &mut HexBoard, tile_coords: (i8, i8))
    requires
        old(hex_board).wf(),
        valid_hex(
            max_distance_of(old(hex_board).hex_grid@.len() as int),
            tile_coords.0 as int,
            tile_coords.1 as int,
        ),
    ensures
        final(hex_board).hex_grid@ == detect_around(
            old(hex_board).hex_grid@,
            tile_coords.0 as int,
            tile_coords.1 as int,
        ),
        final(hex_board).wf(),
        keeps_flagged(old(hex_board).hex_grid@, final(hex_board).hex_grid@),
        keeps_kinds(old(hex_board).hex_grid@, final(hex_board).hex_grid@),
        final(hex_board).resources == old(hex_board).resources,
        final(hex_board).matchmaking_state == old(hex_board).matchmaking_state,
{
    let ghost grid = hex_board.hex_grid@;
    let ghost len = grid.len() as int;
    let grid_length = hex_board.hex_grid.len();
    let max_distance = max_distance_from_center(grid_length);
    let side_length = side_length(grid_length);
    let (q, r) = tile_coords;
    let ghost centers = impact_of(len, q as int, r as int);
    proof {
        lemma_geometry_of(len);
        lemma_detection_keeps_flagged(grid, q as int, r as int);
    }
    let neighbours = get_neighbouring_tiles(max_distance, q, r).unwrap();
    let center = coords_to_index(max_distance, side_length, q, r);
    let mut j: usize = 0;
    while j < 7
        invariant
            j <= 7,
            hex_board.hex_grid@ == detect_all(grid, centers, j as nat),
            hex_board.wf(),
            hex_board.hex_grid@.len() == len,
            grid_wf(grid),
            grid.len() == len,
            centers == impact_of(len, q as int, r as int),
            valid_hex(max_distance as int, q as int, r as int),
            neighbours@ == crate::hex::neighbours_of(max_distance as int, q as int, r as int),
            geometry(max_distance as int, side_length as int),
            side_length as int * side_length as int == len,
            max_distance as int == max_distance_of(len),
            side_length as int == side_length_of(len),
            center as int == index_of(max_distance as int, side_length as int, q as int, r as int),
            hex_board.resources == old(hex_board).resources,
            hex_board.matchmaking_state == old(hex_board).matchmaking_state,
        decreases 7 - j,
    {
        proof {
            lemma_detect_all(grid, centers, j as nat, q as int, r as int);
            lemma_impact_within(len, q as int, r as int, j as int);
        }
        if j == 0 {
            set_pattern_around_tile(hex_board, center as u8, max_distance, side_length);
        } else {
            match neighbours[j - 1] {
                Some((nq, nr)) => {
                    let k = coords_to_index(max_distance, side_length, nq, nr);
                    set_pattern_around_tile(hex_board, k as u8, max_distance, side_length);
                },
                None => {},
            }
        }
        j = j + 1;
    }
}

} // verus!
