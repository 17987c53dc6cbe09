//! The moves of one player on their board and game: placing, upgrading and ending a turn.
use vstd::prelude::*;

use crate::board::{grid_wf, resources_bounded, GameId, HexBoard, Move};
use crate::config::{spec_tile_cost, tile_cost, NUMBER_OF_TILE_COSTS, TARGET_GOAL_HUMAN};
use crate::economy::{evaluate, evaluate_board, is_game_won};
use crate::error::Error;
use crate::game::{spec_new_selection, spec_refilled, spec_refilled_size, Game, GameState};
use crate::hex::{
    coords_of, coords_to_index, geometry, get_neighbouring_tiles, index_of, index_to_coords,
    max_distance_from_center, max_distance_of, neighbour_of, neighbours_of, side_length,
    side_length_of, valid_hex,
};
use crate::market::{
    buy_from_selection, can_buy, can_upgrade, offer_in_range, spend_for_tile_upgrade, upgrade_paid,
};
use crate::pattern::{detect_around, lemma_geometry_of, lemma_index_coords_valid, set_patterns};
use crate::tile::{GetTileInfo, Tile, TileType, MAX_LEVEL};

verus! {

/// Some neighbour slot of the list lies on the board and holds a non-empty tile.
pub open spec fn touches_tile(
    grid: Seq<Tile>,
    max_distance: int,
    side_length: int,
    neighbours: Seq<Option<(i8, i8)>>,
) -> bool {
    exists|j: int|
        0 <= j < neighbours.len() && (#[trigger] neighbours[j]) is Some && grid[index_of(
            max_distance,
            side_length,
            neighbours[j]->Some_0.0 as int,
            neighbours[j]->Some_0.1 as int,
        )].tile_type != TileType::Empty
}

/// Some neighbour of the cell at `index` holds a non-empty tile.
pub open spec fn cell_touches_tile(grid: Seq<Tile>, index: int) -> bool {
    let m = max_distance_of(grid.len() as int);
    let s = side_length_of(grid.len() as int);
    let (q, r) = coords_of(index, s, m);
    touches_tile(grid, m, s, neighbours_of(m, q, r))
}

/// Whether one of `neighbours` lies on the board and holds a non-empty tile.
pub fn not_surrounded_by_empty_tiles(
    neighbours: &Vec<Option<(i8, i8)>>,
    hex_grid: &Vec<Tile>,
    max_distance: i8,
    side_length: i8,
) -> (r: bool)
    requires
        geometry(max_distance as int, side_length as int),
        hex_grid@.len() == side_length * side_length,
        forall|j: int|
            0 <= j < neighbours@.len() && (#[trigger] neighbours@[j]) is Some ==> valid_hex(
                max_distance as int,
                neighbours@[j]->Some_0.0 as int,
                neighbours@[j]->Some_0.1 as int,
            ),
    ensures
        r == touches_tile(hex_grid@, max_distance as int, side_length as int, neighbours@),
{
    let mut j: usize = 0;
    while j < neighbours.len()
        invariant
            j <= neighbours@.len(),
            geometry(max_distance as int, side_length as int),
            hex_grid@.len() == side_length * side_length,
            forall|k: int|
                0 <= k < neighbours@.len() && (#[trigger] neighbours@[k]) is Some ==> valid_hex(
                    max_distance as int,
                    neighbours@[k]->Some_0.0 as int,
                    neighbours@[k]->Some_0.1 as int,
                ),
            forall|k: int|
                0 <= k < j && (#[trigger] neighbours@[k]) is Some ==> hex_grid@[index_of(
                    max_distance as int,
                    side_length as int,
                    neighbours@[k]->Some_0.0 as int,
                    neighbours@[k]->Some_0.1 as int,
                )].tile_type == TileType::Empty,
        decreases neighbours@.len() - j,
    {
        if let Some((q, r)) = neighbours[j] {
            let k = coords_to_index(max_distance, side_length, q, r);
            if hex_grid[k as usize].get_type() != TileType::Empty {
                return true;
            }
        }
        j = j + 1;
    }
    false
}

/// Centers of the detection runs after a placement at `(q, r)`: each neighbour on the board in
/// direction order, then the placed cell.
pub open spec fn move_centers(len: int, q: int, r: int) -> Seq<Option<(int, int)>> {
    let m = max_distance_of(len);
    Seq::new(
        7,
        |j: int|
            if j < 6 {
                match neighbour_of(m, q, r, j) {
                    Some(c) => Some((c.0 as int, c.1 as int)),
                    None => None,
                }
            } else {
                Some((q, r))
            },
    )
}

/// The grid after detection around the first `n` move centers, in order.
pub open spec fn detect_move_upto(grid: Seq<Tile>, cs: Seq<Option<(int, int)>>, n: nat) -> Seq<
    Tile,
>
    decreases n,
{
    if n == 0 {
        grid
    } else {
        let g = detect_move_upto(grid, cs, (n - 1) as nat);
        match cs[n - 1] {
            Some(c) => detect_around(g, c.0, c.1),
            None => g,
        }
    }
}

/// The grid after the formation scan that follows a placement at the cell at `index`.
pub open spec fn detect_move(grid: Seq<Tile>, index: int) -> Seq<Tile> {
    let (q, r) = coords_of(
        index,
        side_length_of(grid.len() as int),
        max_distance_of(grid.len() as int),
    );
    detect_move_upto(grid, move_centers(grid.len() as int, q, r), 7)
}

/// Why a placement is refused, if it is: a cell outside the board, an occupied cell, an offer
/// outside the selection or the table, an offer the board cannot pay, a cell with no
/// non-empty neighbour.
pub open spec fn play_error(b: HexBoard, g: Game, mv: Move) -> Option<Error> {
    let grid = b.hex_grid@;
    let i = mv.place_index as int;
    if i >= grid.len() {
        Some(Error::PlaceIndexOutOfBounds)
    } else if grid[i].tile_type != TileType::Empty {
        Some(Error::TileIsNotEmpty)
    } else if !offer_in_range(g.selection@, mv.buy_index as int) {
        Some(Error::BuyIndexOutOfBounds)
    } else if !can_buy(g.selection@, b.resources@, mv.buy_index as int) {
        Some(Error::NotEnoughResources)
    } else if !cell_touches_tile(grid, i) {
        Some(Error::TileSurroundedByEmptyTiles)
    } else {
        None
    }
}

/// `nb` is the board `b` after the placement `mv` bought from the selection of `g`.
pub open spec fn played_board(b: HexBoard, g: Game, mv: Move, nb: HexBoard) -> bool {
    let offer = spec_tile_cost(g.selection@[mv.buy_index as int] as int);
    &&& nb.resources@ == crate::market::paid(b.resources@, offer.cost)
    &&& nb.hex_grid@ == detect_move(
        b.hex_grid@.update(mv.place_index as int, offer.tile_to_buy),
        mv.place_index as int,
    )
    &&& nb.matchmaking_state == b.matchmaking_state
}

/// `ng` is the game `g` after the placement `mv`: the offer is gone, the selection is refilled
/// when due, and the player has played this turn.
pub open spec fn played_game(g: Game, mv: Move, id: GameId, now: u64, ng: Game) -> bool {
    let sel = g.selection@.remove(mv.buy_index as int);
    &&& ng.selection@ == spec_refilled(sel, g.selection_size as int, id@, now as int)
    &&& ng.selection_size as int == spec_refilled_size(sel.len() as int, g.selection_size as int)
    &&& ng == (Game {
        selection: ng.selection,
        selection_size: ng.selection_size,
        played: true,
        ..g
    })
}

/// Places a tile: buys offer `mv.buy_index` from the selection, puts its tile on the empty cell
/// `mv.place_index`, refills the selection when due, and runs the formation scan around the
/// cell. Refused, changing nothing, as `play_error` says.
pub fn play_move(
    hex_board: &mut HexBoard,
    game: &mut Game,
    game_id: &GameId,
    mv: Move,
    now: u64,
) -> (r: Result<bool, Error>)
    requires
        old(hex_board).wf(),
        old(game).wf(),
    ensures
        r is Ok == (play_error(*old(hex_board), *old(game), mv) is None),
        play_error(*old(hex_board), *old(game), mv) matches Some(e) ==> r == Err::<bool, Error>(e),
        r matches Ok(refilled) ==> refilled == crate::game::needs_refill(
            old(game).selection@.len() - 1,
            old(game).selection_size as int,
        ),
        r is Err ==> *final(hex_board) == *old(hex_board) && *final(game) == *old(game),
        r is Ok ==> played_board(*old(hex_board), *old(game), mv, *final(hex_board)) && played_game(
            *old(game),
            mv,
            *game_id,
            now,
            *final(game),
        ),
        final(hex_board).wf(),
        final(game).wf(),
{
    let ghost b0 = *hex_board;
    let ghost g0 = *game;
    let ghost len = hex_board.hex_grid@.len() as int;
    let place = mv.place_index as usize;
    if place >= hex_board.hex_grid.len() {
        return Err(Error::PlaceIndexOutOfBounds);
    }
    if hex_board.hex_grid[place].get_type() != TileType::Empty {
        return Err(Error::TileIsNotEmpty);
    }
    let grid_length = hex_board.hex_grid.len();
    let side = side_length(grid_length);
    let max_distance = max_distance_from_center(grid_length);
    proof {
        lemma_geometry_of(len);
        lemma_index_coords_valid(len, place as int);
    }
    let (tile_q, tile_r) = index_to_coords(mv.place_index, side, max_distance).unwrap();
    let neighbours = get_neighbouring_tiles(max_distance, tile_q, tile_r).unwrap();
    proof {
        assert forall|j: int|
            0 <= j < neighbours@.len() && (#[trigger] neighbours@[j]) is Some implies valid_hex(
                max_distance as int,
                neighbours@[j]->Some_0.0 as int,
                neighbours@[j]->Some_0.1 as int,
            ) by {
            assert(neighbours@[j] == neighbour_of(max_distance as int, tile_q as int, tile_r as int, j));
        }
    }
    let touches = not_surrounded_by_empty_tiles(&neighbours, &hex_board.hex_grid, max_distance, side);
    // A purchase that would fail is reported before a cell without neighbours; the purchase
    // itself only happens once the cell is known to be acceptable.
    if !touches && (mv.buy_index as usize) < game.selection.len() && (game.selection[mv.buy_index
        as usize] as usize) < NUMBER_OF_TILE_COSTS {
        let offer = tile_cost(game.selection[mv.buy_index as usize] as usize);
        if hex_board.resources[offer.cost.resource_type.index()] >= offer.cost.amount {
            return Err(Error::TileSurroundedByEmptyTiles);
        }
    }
    let tile = match buy_from_selection(&mut game.selection, hex_board, mv.buy_index as usize) {
        Ok(t) => t,
        Err(e) => {
            return Err(e);
        },
    };
    hex_board.hex_grid.set(place, tile);
    game.played = true;
    let refilled = game.refill_selection(game_id, now);
    let ghost placed = hex_board.hex_grid@;
    let ghost cs = move_centers(len, tile_q as int, tile_r as int);
    proof {
        assert(grid_wf(placed));
    }
    let mut j: usize = 0;
    while j < 7
        invariant
            j <= 7,
            hex_board.wf(),
            hex_board.hex_grid@.len() == len,
            hex_board.hex_grid@ == detect_move_upto(placed, cs, j as nat),
            cs == move_centers(len, tile_q as int, tile_r as int),
            max_distance as int == max_distance_of(len),
            valid_hex(max_distance as int, tile_q as int, tile_r as int),
            neighbours@ == neighbours_of(max_distance as int, tile_q as int, tile_r as int),
            hex_board.matchmaking_state == b0.matchmaking_state,
            hex_board.resources@ == crate::market::paid(
                b0.resources@,
                spec_tile_cost(g0.selection@[mv.buy_index as int] as int).cost,
            ),
        decreases 7 - j,
    {
        if j < 6 {
            if let Some(c) = neighbours[j] {
                set_patterns(hex_board, c);
            }
        } else {
            set_patterns(hex_board, (tile_q, tile_r));
        }
        j = j + 1;
    }
    Ok(refilled)
}

/// Why an upgrade of the cell at `place_index` is refused, if it is: a cell outside the board,
/// a tile at the highest level, an empty cell, a tile other than a home, or a board that cannot
/// pay.
pub open spec fn upgrade_error(b: HexBoard, place_index: u8) -> Option<Error> {
    let grid = b.hex_grid@;
    let i = place_index as int;
    if i >= grid.len() {
        Some(Error::PlaceIndexOutOfBounds)
    } else if grid[i].level == MAX_LEVEL {
        Some(Error::TileOnMaxLevel)
    } else if grid[i].tile_type == TileType::Empty {
        Some(Error::CannotLevelUpEmptyTile)
    } else if grid[i].tile_type != TileType::Home {
        Some(Error::CannotLevelUp)
    } else if !can_upgrade(b.resources@, grid[i].level as int) {
        Some(Error::NotEnoughResources)
    } else {
        None
    }
}

/// Upgrades the home at `place_index` by one level and pays for it. Refused, changing nothing,
/// as `upgrade_error` says.
pub fn upgrade_tile(hex_board: &mut HexBoard, place_index: u8) -> (r: Result<(), Error>)
    requires
        old(hex_board).wf(),
    ensures
        r == (match upgrade_error(*old(hex_board), place_index) {
            Some(e) => Err::<(), Error>(e),
            None => Ok(()),
        }),
        r is Err ==> *final(hex_board) == *old(hex_board),
        r is Ok ==> {
            let t = old(hex_board).hex_grid@[place_index as int];
            &&& final(hex_board).resources@ == upgrade_paid(old(hex_board).resources@, t.level as int)
            &&& final(hex_board).hex_grid@ == old(hex_board).hex_grid@.update(
                place_index as int,
                Tile { level: (t.level + 1) as u8, ..t },
            )
            &&& final(hex_board).matchmaking_state == old(hex_board).matchmaking_state
        },
        final(hex_board).wf(),
{
    if place_index as usize >= hex_board.hex_grid.len() {
        return Err(Error::PlaceIndexOutOfBounds);
    }
    let tile_to_upgrade = hex_board.hex_grid[place_index as usize];
    let tile_level = tile_to_upgrade.get_level();
    assert(tile_to_upgrade.wf());
    if tile_level == MAX_LEVEL {
        return Err(Error::TileOnMaxLevel);
    }
    match spend_for_tile_upgrade(hex_board, &tile_to_upgrade) {
        Ok(()) => {},
        Err(e) => {
            return Err(e);
        },
    }
    let mut upgraded = tile_to_upgrade;
    upgraded.set_level(tile_level + 1);
    hex_board.hex_grid.set(place_index as usize, upgraded);
    Ok(())
}

/// How a turn ended.
#[derive(Clone, Copy, Debug, PartialEq, Eq, Structural)]
pub enum TurnOutcome {
    /// The player on turn reached the goal.
    Won,
    /// The rounds are used up.
    Draw,
    /// The next player is on turn.
    Next,
}

/// `ng` is `g` at the end of the turn of the player on turn at tick `now`, before it passes:
/// a fresh selection if they placed nothing, the played flag cleared.
pub open spec fn closed_turn(g: Game, id: GameId, now: u64, ng: Game) -> bool {
    &&& ng.selection@ == (if g.played {
        g.selection@
    } else {
        spec_new_selection(id@, g.selection_size as int, now as int)
    })
    &&& ng == (Game { selection: ng.selection, played: false, last_played_block: now, ..g })
}

/// The resources after the turn reach the goal.
pub open spec fn turn_wins(b: HexBoard) -> bool {
    evaluate(b.resources@, b.hex_grid@)[1] >= TARGET_GOAL_HUMAN
}

/// `ng` is `g` after the turn of the player on turn on board `b` has ended at tick `now`: the
/// player wins when the evaluated board reaches the goal, otherwise the turn passes on.
pub open spec fn ended_turn(g: Game, b: HexBoard, id: GameId, now: u64, ng: Game) -> bool {
    exists|mid: Game|
        #[trigger] closed_turn(g, id, now, mid) && if turn_wins(b) {
            ng == (Game { state: GameState::Finished { winner: Some(g.player_turn) }, ..mid })
        } else {
            ng == mid.spec_advanced()
        }
}

/// How the turn on board `b` ended, given the game `ng` after it.
pub open spec fn turn_outcome(b: HexBoard, ng: Game) -> TurnOutcome {
    if turn_wins(b) {
        TurnOutcome::Won
    } else if ng.state == GameState::Playing {
        TurnOutcome::Next
    } else {
        TurnOutcome::Draw
    }
}

/// Ends the turn of the player on turn at tick `now`: draws a fresh selection if they placed
/// nothing, runs the economy on their board, and then either declares them the winner or
/// passes the turn on (ending the game in a draw once the rounds are used up).
pub fn finish_turn_on(hex_board: &mut HexBoard, game: &mut Game, game_id: &GameId, now: u64) -> (r:
    TurnOutcome)
    requires
        old(hex_board).wf(),
        old(game).wf(),
        old(game).state == GameState::Playing,
    ensures
        final(hex_board).resources@ == evaluate(old(hex_board).resources@, old(hex_board).hex_grid@),
        resources_bounded(final(hex_board).resources@),
        final(hex_board).hex_grid@ == old(hex_board).hex_grid@,
        final(hex_board).matchmaking_state == old(hex_board).matchmaking_state,
        final(hex_board).wf(),
        final(game).wf(),
        final(game).player_turn < final(game).players@.len(),
        ended_turn(*old(game), *old(hex_board), *game_id, now, *final(game)),
        final(game).players == old(game).players,
        r == TurnOutcome::Won ==> final(game).round == old(game).round && final(game).player_turn
            == old(game).player_turn,
        r != TurnOutcome::Won ==> final(game).round == old(game).round + (if final(game).player_turn
            == 0 {
            1int
        } else {
            0int
        }),
        r == turn_outcome(*old(hex_board), *final(game)),
{
    game.last_played_block = now;
    if game.played {
        game.played = false;
    } else {
        game.new_selection(game_id, now);
    }
    let ghost mid = *game;
    assert(closed_turn(*old(game), *game_id, now, mid));
    evaluate_board(hex_board);
    if is_game_won(hex_board) {
        game.state = GameState::Finished { winner: Some(game.player_turn) };
        TurnOutcome::Won
    } else if game.advance_turn() {
        TurnOutcome::Draw
    } else {
        TurnOutcome::Next
    }
}

} // verus!
