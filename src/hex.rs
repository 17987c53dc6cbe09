//! Axial hex-coordinate geometry of the hexagonal boards.
use vstd::prelude::*;
use vstd::arithmetic::div_mod::{
    lemma_fundamental_div_mod_converse_div, lemma_fundamental_div_mod_converse_mod,
};

use crate::error::Error;

verus! {

/// The grid lengths a board may have: hexagons of side 3, 5 and 7.
pub open spec fn valid_grid_size(len: int) -> bool {
    len == 9 || len == 25 || len == 49
}

/// Distance from the center to the edge of a board of `len` cells (0 for any other length).
pub open spec fn max_distance_of(len: int) -> int {
    if len == 9 {
        1
    } else if len == 25 {
        2
    } else if len == 49 {
        3
    } else {
        0
    }
}

/// Side length of a board of `len` cells (0 for any other length).
pub open spec fn side_length_of(len: int) -> int {
    if len == 9 {
        3
    } else if len == 25 {
        5
    } else if len == 49 {
        7
    } else {
        0
    }
}

/// A matching pair of max distance and side length of one of the board shapes.
pub open spec fn geometry(max_distance: int, side_length: int) -> bool {
    (max_distance == 1 && side_length == 3) || (max_distance == 2 && side_length == 5) || (
    max_distance == 3 && side_length == 7)
}

/// `(q, r)` lies on the board: both coordinates are at most `max_distance` from the center.
pub open spec fn valid_hex(max_distance: int, q: int, r: int) -> bool {
    -max_distance <= q <= max_distance && -max_distance <= r <= max_distance
}

/// Linear index of the cell at `(q, r)`.
pub open spec fn index_of(max_distance: int, side_length: int, q: int, r: int) -> int {
    (q + max_distance) + (r + max_distance) * side_length
}

/// Axial coordinates of the cell at linear index `index`.
pub open spec fn coords_of(index: int, side_length: int, max_distance: int) -> (int, int) {
    (index % side_length - max_distance, index / side_length - (side_length - 1) / 2)
}

/// The six neighbour offsets, in their fixed order.
pub open spec fn direction(i: int) -> (int, int) {
    if i == 0 {
        (0, -1)
    } else if i == 1 {
        (1, -1)
    } else if i == 2 {
        (1, 0)
    } else if i == 3 {
        (0, 1)
    } else if i == 4 {
        (-1, 1)
    } else {
        (-1, 0)
    }
}

/// The neighbour of `(q, r)` in direction `i`, if it lies on the board.
pub open spec fn neighbour_of(max_distance: int, q: int, r: int, i: int) -> Option<(i8, i8)> {
    let nq = q + direction(i).0;
    let nr = r + direction(i).1;
    if valid_hex(max_distance, nq, nr) {
        Some((nq as i8, nr as i8))
    } else {
        None
    }
}

/// The six neighbour slots of `(q, r)`, in direction order.
pub open spec fn neighbours_of(max_distance: int, q: int, r: int) -> Seq<Option<(i8, i8)>> {
    Seq::new(6, |i: int| neighbour_of(max_distance, q, r, i))
}

/// Adding any neighbour offset to `(q, r)` stays within `i8`.
pub open spec fn offsets_fit(q: int, r: int) -> bool {
    -128 < q < 127 && -128 < r < 127
}

/// Index and coordinates are inverse to each other on every board shape.
pub proof fn lemma_coords_round_trip(max_distance: int, side_length: int, q: int, r: int)
    requires
        geometry(max_distance, side_length),
        valid_hex(max_distance, q, r),
    ensures
        coords_of(index_of(max_distance, side_length, q, r), side_length, max_distance) == (q, r),
        0 <= index_of(max_distance, side_length, q, r) < side_length * side_length,
{
    let a = q + max_distance;
    let b = r + max_distance;
    let x = index_of(max_distance, side_length, q, r);
    assert(x == b * side_length + a);
    lemma_fundamental_div_mod_converse_mod(x, side_length, b, a);
    lemma_fundamental_div_mod_converse_div(x, side_length, b, a);
    assert(0 <= x < side_length * side_length) by (nonlinear_arith)
        requires
            x == b * side_length + a,
            0 <= a < side_length,
            0 <= b < side_length,
    ;
}

/// Whether `(q, r)` lies within `max_distance` of the center on both axes.
pub fn is_valid_hex(max_distance: i8, q: i8, r: i8) -> (res: bool)
    ensures
        res == valid_hex(max_distance as int, q as int, r as int),
{
    -(max_distance as i16) <= q as i16 && q <= max_distance && -(max_distance as i16) <= r as i16
        && r <= max_distance
}

/// Linear index of the cell at `(q, r)`.
pub fn coords_to_index(max_distance: i8, side_length: i8, q: i8, r: i8) -> (res: i8)
    requires
        geometry(max_distance as int, side_length as int),
        valid_hex(max_distance as int, q as int, r as int),
    ensures
        res as int == index_of(max_distance as int, side_length as int, q as int, r as int),
        0 <= res < side_length * side_length,
{
    proof {
        lemma_coords_round_trip(max_distance as int, side_length as int, q as int, r as int);
    }
    assert((r + max_distance) * side_length <= 42) by (nonlinear_arith)
        requires
            0 <= r + max_distance <= 6,
            side_length <= 7,
    ;
    q + max_distance + (r + max_distance) * side_length
}

/// Axial coordinates of the cell at `index`; indices above `i8::MAX` are refused.
pub fn index_to_coords(index: u8, side_length: i8, max_distance: i8) -> (res: Result<
    (i8, i8),
    Error,
>)
    requires
        geometry(max_distance as int, side_length as int),
    ensures
        index <= 127 ==> res == Ok::<(i8, i8), Error>(
            (
                coords_of(index as int, side_length as int, max_distance as int).0 as i8,
                coords_of(index as int, side_length as int, max_distance as int).1 as i8,
            ),
        ),
        index > 127 ==> res == Err::<(i8, i8), Error>(Error::InternalError),
{
    if index > 127 {
        return Err(Error::InternalError);
    }
    let s: u8 = side_length as u8;
    let q: i8 = (index % s) as i8 - max_distance;
    let r: i8 = (index / s) as i8 - (side_length - 1) / 2;
    Ok((q, r))
}

/// The neighbour of `(q, r)` in direction `(dq, dr)`, if it lies on the board.
fn neighbour(max_distance: i8, q: i8, r: i8, dq: i8, dr: i8) -> (res: Option<(i8, i8)>)
    requires
        offsets_fit(q as int, r as int),
        -1 <= dq <= 1,
        -1 <= dr <= 1,
    ensures
        res == (if valid_hex(max_distance as int, q + dq, r + dr) {
            Some(((q + dq) as i8, (r + dr) as i8))
        } else {
            None
        }),
{
    let nq: i8 = q + dq;
    let nr: i8 = r + dr;
    if is_valid_hex(max_distance, nq, nr) {
        Some((nq, nr))
    } else {
        None
    }
}

/// The six neighbour slots of `(q, r)` in direction order: the coordinates where they lie on
/// the board, `None` where they do not. Fails where an offset would leave `i8`.
pub fn get_neighbouring_tiles(max_distance: i8, q: i8, r: i8) -> (res: Result<
    Vec<Option<(i8, i8)>>,
    Error,
>)
    ensures
        res.is_ok() == offsets_fit(q as int, r as int),
        res matches Ok(v) ==> v@ == neighbours_of(max_distance as int, q as int, r as int),
        res matches Err(e) ==> e == Error::MathOverflow,
{
    if q == i8::MAX || q == i8::MIN || r == i8::MAX || r == i8::MIN {
        return Err(Error::MathOverflow);
    }
    let mut v: Vec<Option<(i8, i8)>> = Vec::new();
    v.push(neighbour(max_distance, q, r, 0, -1));
    v.push(neighbour(max_distance, q, r, 1, -1));
    v.push(neighbour(max_distance, q, r, 1, 0));
    v.push(neighbour(max_distance, q, r, 0, 1));
    v.push(neighbour(max_distance, q, r, -1, 1));
    v.push(neighbour(max_distance, q, r, -1, 0));
    assert(v@ =~= neighbours_of(max_distance as int, q as int, r as int));
    Ok(v)
}

/// Distance from the center to the edge of a board of `hex_grid_len` cells.
pub fn max_distance_from_center(hex_grid_len: usize) -> (res: i8)
    ensures
        res as int == max_distance_of(hex_grid_len as int),
{
    match hex_grid_len {
        9 => 1,
        25 => 2,
        49 => 3,
        _ => 0,
    }
}

/// Side length of a board of `hex_grid_len` cells.
pub fn side_length(hex_grid_len: usize) -> (res: i8)
    ensures
        res as int == side_length_of(hex_grid_len as int),
{
    match hex_grid_len {
        9 => 3,
        25 => 5,
        49 => 7,
        _ => 0,
    }
}

/// Whether `size` is one of the board sizes 9, 25 and 49.
pub fn is_valid_grid_size(size: u8) -> (res: bool)
    ensures
        res == valid_grid_size(size as int),
{
    size == 9 || size == 25 || size == 49
}

} // verus!
