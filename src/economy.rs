//! The per-turn economy: production and consumption with saturating counters.
use vstd::prelude::*;

use crate::board::{
    count, count_type, count_type_level, in_type_slot, resources_bounded,
    BoardStats, HexBoard, ResourceProductions, RESOURCE_CAP,
};
use crate::config::{
    human_requirement, produces, tile_resource_productions, FOOD_PER_HUMAN, HOME_PER_HUMANS,
    TARGET_GOAL_HUMAN, WATER_PER_HUMAN,
};
use crate::tile::{type_index, Tile, TileType, NUMBER_OF_LEVELS, NUMBER_OF_TILE_TYPES};

verus! {

/// `x` saturated at the largest `u8`.
pub open spec fn sat_u8(x: int) -> int {
    if x > 255 {
        255
    } else {
        x
    }
}

/// `x` capped at the resource cap.
pub open spec fn cap99(x: int) -> int {
    if x > 99 {
        99
    } else {
        x
    }
}

pub open spec fn min_int(a: int, b: int) -> int {
    if a < b {
        a
    } else {
        b
    }
}

/// New value of resource `j` after one production step: `p` per tile times `mult` tiles, and,
/// where each unit needs `q` humans, no more than the current population allows.
pub open spec fn produce_one(res: Seq<u8>, p: int, q: int, mult: int, j: int) -> u8 {
    if p == 0 {
        res[j]
    } else if q == 0 {
        cap99(sat_u8(res[j] + sat_u8(p * mult))) as u8
    } else {
        cap99(sat_u8(res[j] + min_int(sat_u8(p * mult), res[1] as int / q))) as u8
    }
}

/// The resources after producing the first `n` resources of one table entry, in order.
pub open spec fn produce_upto(res: Seq<u8>, ps: Seq<u8>, qs: Seq<u8>, mult: int, n: nat) -> Seq<
    u8,
>
    decreases n,
{
    if n == 0 {
        res
    } else {
        let prev = produce_upto(res, ps, qs, mult, (n - 1) as nat);
        prev.update(n - 1, produce_one(prev, ps[n - 1] as int, qs[n - 1] as int, mult, n - 1))
    }
}

/// Production amounts of the kind at position `t`.
pub open spec fn produces_row(t: int) -> Seq<u8> {
    Seq::new(7, |j: int| produces(t, j) as u8)
}

/// Population requirements of the kind at position `t`.
pub open spec fn requirements_row(t: int) -> Seq<u8> {
    Seq::new(7, |j: int| human_requirement(t, j) as u8)
}

/// The resources after the first `n` tile kinds of `grid` have produced, in order.
pub open spec fn produce_types(res: Seq<u8>, grid: Seq<Tile>, n: nat) -> Seq<u8>
    decreases n,
{
    if n == 0 {
        res
    } else {
        produce_upto(
            produce_types(res, grid, (n - 1) as nat),
            produces_row(n - 1),
            requirements_row(n - 1),
            count(grid, in_type_slot(n - 1)) as int,
            7,
        )
    }
}

/// Homes weighted by level: the sum over the first `n` levels of (level + 1) times the homes
/// at that level, saturating.
pub open spec fn home_weighted(grid: Seq<Tile>, n: nat) -> int
    decreases n,
{
    if n == 0 {
        0
    } else {
        sat_u8(
            home_weighted(grid, (n - 1) as nat) + sat_u8(
                (n * count_type_level(grid, TileType::Home, n - 1)) as int,
            ),
        )
    }
}

/// Population after an evaluation: homes plus what food and water feed, at most what the
/// homes house, at least one, capped.
pub open spec fn new_humans(res: Seq<u8>, grid: Seq<Tile>) -> int {
    let homes = count_type(grid, TileType::Home) as int;
    let eaten = min_int(
        sat_u8(res[3] * FOOD_PER_HUMAN),
        sat_u8(res[2] * WATER_PER_HUMAN),
    );
    let housed = sat_u8(home_weighted(grid, 4) * HOME_PER_HUMANS);
    let fed = min_int(sat_u8(homes + eaten), housed);
    cap99(if fed < 1 {
        1
    } else {
        fed
    })
}

/// Mana after an evaluation: a third of the population plus one per home, capped.
pub open spec fn new_mana(res: Seq<u8>, grid: Seq<Tile>) -> int {
    cap99(sat_u8(sat_u8(res[0] + res[1] / 3) + count_type(grid, TileType::Home)))
}

/// The resources after one evaluation of a board with resources `res` and tiles `grid`.
pub open spec fn evaluate(res: Seq<u8>, grid: Seq<Tile>) -> Seq<u8> {
    let with_mana = res.update(0, new_mana(res, grid) as u8);
    produce_types(with_mana, grid, 8).update(1, new_humans(res, grid) as u8)
}

/// A resource that some kind before position `n` produces.
pub open spec fn produced_before(j: int, n: int) -> bool {
    exists|t: int| 0 <= t < n && produces(t, j) != 0
}

proof fn lemma_produce_upto(res: Seq<u8>, ps: Seq<u8>, qs: Seq<u8>, mult: int, n: nat)
    requires
        res.len() == 7,
        ps.len() == 7,
        qs.len() == 7,
        n <= 7,
        mult >= 0,
    ensures
        produce_upto(res, ps, qs, mult, n).len() == 7,
        forall|j: int|
            0 <= j < n && ps[j] != 0 ==> #[trigger] produce_upto(res, ps, qs, mult, n)[j]
                <= RESOURCE_CAP,
        forall|j: int|
            0 <= j < 7 && (j >= n || ps[j] == 0) ==> #[trigger] produce_upto(res, ps, qs, mult, n)[j]
                == res[j],
    decreases n,
{
    if n > 0 {
        lemma_produce_upto(res, ps, qs, mult, (n - 1) as nat);
    }
}

proof fn lemma_produce_types(res: Seq<u8>, grid: Seq<Tile>, n: nat)
    requires
        res.len() == 7,
        n <= 8,
    ensures
        produce_types(res, grid, n).len() == 7,
        forall|j: int|
            0 <= j < 7 && produced_before(j, n as int) ==> #[trigger] produce_types(res, grid, n)[j]
                <= RESOURCE_CAP,
        forall|j: int|
            0 <= j < 7 && !produced_before(j, n as int) ==> #[trigger] produce_types(res, grid, n)[j]
                == res[j],
    decreases n,
{
    if n > 0 {
        let m = (n - 1) as nat;
        lemma_produce_types(res, grid, m);
        let prev = produce_types(res, grid, m);
        lemma_produce_upto(
            prev,
            produces_row(m as int),
            requirements_row(m as int),
            count(grid, in_type_slot(m as int)) as int,
            7,
        );
        assert forall|j: int| 0 <= j < 7 && produced_before(j, n as int) implies #[trigger] produce_types(
            res,
            grid,
            n,
        )[j] <= RESOURCE_CAP by {
            if produces(m as int, j) == 0 {
                let t = choose|t: int| 0 <= t < n && produces(t, j) != 0;
                assert(produced_before(j, m as int)) by {
                    assert(0 <= t < m);
                }
            }
        }
        assert forall|j: int|
            0 <= j < 7 && !produced_before(j, n as int) implies #[trigger] produce_types(res, grid, n)[j]
                == res[j] by {
            assert(produces(m as int, j) == 0);
            assert(!produced_before(j, m as int));
        }
    }
}

/// Every evaluation leaves each resource counter within the cap, whatever the counters held
/// before; so any sequence of evaluations does.
pub proof fn lemma_evaluation_bounded(res: Seq<u8>, grid: Seq<Tile>)
    requires
        res.len() == 7,
    ensures
        evaluate(res, grid).len() == 7,
        resources_bounded(evaluate(res, grid)),
{
    let with_mana = res.update(0, new_mana(res, grid) as u8);
    lemma_produce_types(with_mana, grid, 8);
    assert(produces(3, 2) != 0);
    assert(produces(2, 3) != 0);
    assert(produces(5, 4) != 0);
    assert(produces(4, 5) != 0);
    assert(produces(7, 6) != 0);
    assert forall|j: int| 0 <= j < 7 implies #[trigger] evaluate(res, grid)[j] <= RESOURCE_CAP by {
        if j == 0 {
            assert(!produced_before(0, 8));
        } else if j == 2 {
            assert(produced_before(2, 8));
        } else if j == 3 {
            assert(produced_before(3, 8));
        } else if j == 4 {
            assert(produced_before(4, 8));
        } else if j == 5 {
            assert(produced_before(5, 8));
        } else if j == 6 {
            assert(produced_before(6, 8));
        }
    }
}

/// The resources after `n` evaluations of a board with tiles `grid`.
pub open spec fn evaluations(res: Seq<u8>, grid: Seq<Tile>, n: nat) -> Seq<u8>
    decreases n,
{
    if n == 0 {
        res
    } else {
        evaluate(evaluations(res, grid, (n - 1) as nat), grid)
    }
}

/// Counters within the cap stay within it over any number of evaluations.
pub proof fn lemma_evaluations_bounded(res: Seq<u8>, grid: Seq<Tile>, n: nat)
    requires
        res.len() == 7,
        resources_bounded(res),
    ensures
        evaluations(res, grid, n).len() == 7,
        resources_bounded(evaluations(res, grid, n)),
    decreases n,
{
    if n > 0 {
        lemma_evaluations_bounded(res, grid, (n - 1) as nat);
        lemma_evaluation_bounded(evaluations(res, grid, (n - 1) as nat), grid);
    }
}

/// `x` capped at 99.
pub fn saturate_at_99(x: u8) -> (r: u8)
    ensures
        r as int == cap99(x as int),
{
    if x > 99 {
        99
    } else {
        x
    }
}

fn sat_add(a: u8, b: u8) -> (r: u8)
    ensures
        r as int == sat_u8(a + b),
{
    a.saturating_add(b)
}

fn sat_mul(a: u8, b: u8) -> (r: u8)
    ensures
        r as int == sat_u8(a * b),
{
    assert(a as int * b as int <= 255 * 255) by (nonlinear_arith)
        requires
            a <= 255,
            b <= 255,
    ;
    let x: u16 = a as u16 * b as u16;
    if x > 255 {
        255
    } else {
        x as u8
    }
}

fn min_u8(a: u8, b: u8) -> (r: u8)
    ensures
        r as int == min_int(a as int, b as int),
{
    if a < b {
        a
    } else {
        b
    }
}

/// Adds what `multiplier` tiles with production entry `resource_productions` yield, resource
/// by resource; requirement-gated resources use the population as it stands at that point.
pub fn produce(hex_board: &mut HexBoard, resource_productions: &ResourceProductions, multiplier: u8)
    ensures
        final(hex_board).resources@ == produce_upto(
            old(hex_board).resources@,
            resource_productions.produces@,
            resource_productions.human_requirements@,
            multiplier as int,
            7,
        ),
        final(hex_board).hex_grid@ == old(hex_board).hex_grid@,
        final(hex_board).matchmaking_state == old(hex_board).matchmaking_state,
{
    let ghost start = hex_board.resources@;
    let ghost ps = resource_productions.produces@;
    let ghost qs = resource_productions.human_requirements@;
    let mut j: usize = 0;
    while j < 7
        invariant
            j <= 7,
            hex_board.resources@ == produce_upto(start, ps, qs, multiplier as int, j as nat),
            hex_board.hex_grid@ == old(hex_board).hex_grid@,
            hex_board.matchmaking_state == old(hex_board).matchmaking_state,
            ps == resource_productions.produces@,
            qs == resource_productions.human_requirements@,
        decreases 7 - j,
    {
        let p = resource_productions.produces[j];
        let q = resource_productions.human_requirements[j];
        if p != 0 {
            let amount = sat_mul(p, multiplier);
            let current = hex_board.resources[j];
            let gained = if q == 0 {
                amount
            } else {
                min_u8(amount, hex_board.resources[1] / q)
            };
            hex_board.resources[j] = saturate_at_99(sat_add(current, gained));
        }
        j = j + 1;
    }
}

/// Weighted home count, summed over the levels.
fn compute_home_weighted(stats: &BoardStats, Ghost(grid): Ghost<Seq<Tile>>) -> (r: u8)
    requires
        stats.counts(grid),
    ensures
        r as int == home_weighted(grid, 4),
{
    let mut hw: u8 = 0;
    let mut level: usize = 0;
    while level < NUMBER_OF_LEVELS
        invariant
            level <= NUMBER_OF_LEVELS,
            stats.counts(grid),
            hw as int == home_weighted(grid, level as nat),
        decreases NUMBER_OF_LEVELS - level,
    {
        let n = stats.get_levels(TileType::Home, level);
        hw = sat_add(hw, sat_mul(level as u8 + 1, n));
        level = level + 1;
    }
    hw
}

/// One turn of the economy: mana from population and homes, the population update from food,
/// water and housing, and the production of every tile kind; every counter stays within 99.
pub fn evaluate_board(hex_board: &mut HexBoard)
    requires
        old(hex_board).wf(),
    ensures
        final(hex_board).resources@ == evaluate(old(hex_board).resources@, old(hex_board).hex_grid@),
        resources_bounded(final(hex_board).resources@),
        final(hex_board).hex_grid@ == old(hex_board).hex_grid@,
        final(hex_board).matchmaking_state == old(hex_board).matchmaking_state,
{
    let ghost res = hex_board.resources@;
    let ghost grid = hex_board.hex_grid@;
    let board_stats = hex_board.get_stats();
    let homes = board_stats.get_tiles(TileType::Home);
    proof {
        assert(type_index(TileType::Home) == 1);
    }
    let mana = saturate_at_99(
        sat_add(sat_add(hex_board.resources[0], hex_board.resources[1] / 3), homes),
    );
    let food_and_water_eaten = min_u8(
        sat_mul(hex_board.resources[3], FOOD_PER_HUMAN),
        sat_mul(hex_board.resources[2], WATER_PER_HUMAN),
    );
    let home_weighted = compute_home_weighted(&board_stats, Ghost(grid));
    let fed = min_u8(sat_add(homes, food_and_water_eaten), sat_mul(home_weighted, HOME_PER_HUMANS));
    let new_humans = saturate_at_99(
        if fed < 1 {
            1
        } else {
            fed
        },
    );
    hex_board.resources[0] = mana;
    let ghost with_mana = hex_board.resources@;
    let mut t: usize = 0;
    while t < NUMBER_OF_TILE_TYPES
        invariant
            t <= NUMBER_OF_TILE_TYPES,
            board_stats.counts(grid),
            hex_board.resources@ == produce_types(with_mana, grid, t as nat),
            hex_board.hex_grid@ == grid,
            hex_board.matchmaking_state == old(hex_board).matchmaking_state,
        decreases NUMBER_OF_TILE_TYPES - t,
    {
        let productions = tile_resource_productions(t);
        let multiplier = board_stats.get_tiles_by_tile_index(t);
        proof {
            assert(productions.produces@ =~= produces_row(t as int));
            assert(productions.human_requirements@ =~= requirements_row(t as int));
        }
        produce(hex_board, &productions, multiplier);
        t = t + 1;
    }
    hex_board.resources[1] = new_humans;
    proof {
        lemma_evaluation_bounded(res, grid);
    }
}

/// Whether the board's population has reached the goal.
pub fn is_game_won(hex_board: &HexBoard) -> (r: bool)
    ensures
        r == (hex_board.resources@[1] >= TARGET_GOAL_HUMAN),
{
    hex_board.resources[1] >= TARGET_GOAL_HUMAN
}

} // verus!
