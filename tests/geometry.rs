use hexalem::hex::{coords_to_index, is_valid_grid_size, max_distance_from_center, side_length};
use hexalem::pattern::{get_pattern, match_same_tile, match_same_tile_4};
use hexalem::{GetTileInfo, Error, Tile, TilePattern, TileType};

#[test]
fn coords_to_sindex() {
    assert_eq!(coords_to_index(2, 5, 0, 0), 12);
    assert_eq!(coords_to_index(2, 5, -2, -2), 0);
    assert_eq!(coords_to_index(2, 5, 2, 2), 24);
    assert_eq!(coords_to_index(2, 5, 2, -2), 4);
    assert_eq!(coords_to_index(2, 5, -2, 2), 20);
    assert_eq!(coords_to_index(2, 5, 1, 0), 13);
    assert_eq!(coords_to_index(2, 5, 2, 0), 14);
    assert_eq!(coords_to_index(2, 5, 2, 1), 19);
    assert_eq!(coords_to_index(2, 5, -1, 1), 16);
}

#[test]
fn get_neighbouring_tiles() {
    assert_eq!(
        hexalem::hex::get_neighbouring_tiles(2, 0, 0),
        Ok(vec![Some((0, -1)), Some((1, -1)), Some((1, 0)), Some((0, 1)), Some((-1, 1)), Some((-1, 0))])
    );

    assert_eq!(
        hexalem::hex::get_neighbouring_tiles(2, -2, -2),
        Ok(vec![None, None, Some((-1, -2)), Some((-2, -1)), None, None])
    );

    assert_eq!(
        hexalem::hex::get_neighbouring_tiles(2, -2, 2),
        Ok(vec![Some((-2, 1)), Some((-1, 1)), Some((-1, 2)), None, None, None])
    );
}

#[test]
fn neighbours_overflow_is_an_error() {
    assert_eq!(hexalem::hex::get_neighbouring_tiles(3, 127, 0), Err(Error::MathOverflow));
    assert_eq!(hexalem::hex::get_neighbouring_tiles(3, 0, -128), Err(Error::MathOverflow));
}

#[test]
fn is_valid_hex() {
    assert!(hexalem::hex::is_valid_hex(2, 0, 0));
    assert!(hexalem::hex::is_valid_hex(2, 1, -1));
    assert!(hexalem::hex::is_valid_hex(2, -2, -2));
    assert!(hexalem::hex::is_valid_hex(2, 2, -2));
    assert!(!hexalem::hex::is_valid_hex(2, -3, 2));
    assert!(!hexalem::hex::is_valid_hex(2, -3, -2));
    assert!(!hexalem::hex::is_valid_hex(2, -1, -3));
    assert!(!hexalem::hex::is_valid_hex(2, -1, 10));
    assert!(!hexalem::hex::is_valid_hex(2, -128, 0));
}

#[test]
fn index_to_coords() {
    assert_eq!(hexalem::hex::index_to_coords(0, 5, 2), Ok((-2, -2)));
    assert_eq!(hexalem::hex::index_to_coords(12, 5, 2), Ok((0, 0)));
    assert_eq!(hexalem::hex::index_to_coords(200, 5, 2), Err(Error::InternalError));
}

#[test]
fn coordinates_round_trip_on_every_board() {
    for len in [9usize, 25, 49] {
        let m = max_distance_from_center(len);
        let s = side_length(len);
        for q in -m..=m {
            for r in -m..=m {
                let index = coords_to_index(m, s, q, r);
                assert!(index >= 0 && (index as usize) < len);
                assert_eq!(hexalem::hex::index_to_coords(index as u8, s, m), Ok((q, r)));
            }
        }
    }
}

#[test]
fn board_shapes() {
    assert_eq!((max_distance_from_center(9), side_length(9)), (1, 3));
    assert_eq!((max_distance_from_center(25), side_length(25)), (2, 5));
    assert_eq!((max_distance_from_center(49), side_length(49)), (3, 7));
    assert_eq!((max_distance_from_center(10), side_length(10)), (0, 0));
    assert!(is_valid_grid_size(9) && is_valid_grid_size(25) && is_valid_grid_size(49));
    assert!(!is_valid_grid_size(1) && !is_valid_grid_size(20) && !is_valid_grid_size(0));
}

#[test]
fn match_tiles() {
    assert_eq!(match_same_tile(None, None, None), None);

    assert_eq!(
        match_same_tile(
            Some((16, Tile::from_byte(56))),
            Some((20, Tile::from_byte(56))),
            Some((21, Tile::from_byte(56)))
        ),
        Some(vec![16, 20, 21])
    );

    assert_eq!(
        match_same_tile(
            Some((11, Tile::from_byte(16))),
            Some((10, Tile::from_byte(16))),
            Some((15, Tile::from_byte(16)))
        ),
        Some(vec![11, 10, 15])
    );
}

#[test]
fn match_ignores_level_and_formation() {
    let a = Tile::new(TileType::Water, 0, TilePattern::Normal);
    let b = Tile::new(TileType::Water, 2, TilePattern::Delta);
    let c = Tile::new(TileType::Grass, 0, TilePattern::Normal);
    assert_eq!(match_same_tile(Some((1, a)), Some((2, b)), Some((3, a))), Some(vec![1, 2, 3]));
    assert_eq!(match_same_tile(Some((1, a)), Some((2, b)), Some((3, c))), None);
    assert_eq!(match_same_tile(Some((1, a)), None, Some((3, a))), None);
    assert_eq!(match_same_tile_4(Some((1, a)), Some((2, b)), Some((3, a)), Some((4, a))), Some(vec![1, 2, 3, 4]));
    assert_eq!(match_same_tile_4(Some((1, a)), Some((2, b)), Some((3, a)), Some((4, c))), None);
}

#[test]
fn pattern_order_delta_line_ypsilon() {
    let w = Tile::new(TileType::Water, 0, TilePattern::Normal);
    let g = Tile::new(TileType::Grass, 0, TilePattern::Normal);
    let e = Tile::empty();
    // A delta between the center and neighbours 0 and 1.
    let n = vec![Some((0, w)), Some((1, w)), Some((2, w)), Some((3, g)), Some((4, w)), None, None];
    assert_eq!(get_pattern(&n), Some((TilePattern::Delta, vec![0, 1, 2])));
    // A line through neighbours 0 and 3.
    let n = vec![Some((0, w)), Some((1, w)), Some((2, g)), Some((3, g)), Some((4, w)), None, None];
    assert_eq!(get_pattern(&n), Some((TilePattern::Line, vec![0, 1, 4])));
    // A ypsilon over neighbours 0, 2 and 4 is flagged as a line.
    let n = vec![Some((0, w)), Some((1, w)), Some((2, g)), Some((3, w)), Some((4, g)), Some((5, w)), None];
    assert_eq!(get_pattern(&n), Some((TilePattern::Line, vec![0, 1, 3, 5])));
    // An empty center never forms anything.
    let n = vec![Some((0, e)), Some((1, e)), Some((2, e)), Some((3, e)), Some((4, e)), Some((5, e)), Some((6, e))];
    assert_eq!(get_pattern(&n), None);
}

#[test]
fn tiles() {
    assert_eq!(Tile::from_byte(0).get_type(), TileType::Empty);
    assert_eq!(Tile::from_byte(24).get_type(), TileType::Water);
    assert_eq!(Tile::from_byte(56).get_type(), TileType::Cave);
}

#[test]
fn tile_accessors() {
    let mut t = Tile::from_byte(0b1100_1010);
    assert_eq!(t.get_level(), 3);
    assert_eq!(t.get_type(), TileType::Home);
    assert_eq!(t.get_pattern(), TilePattern::Line);
    t.set_level(1);
    t.set_pattern(TilePattern::Delta);
    assert_eq!(t, Tile::new(TileType::Home, 1, TilePattern::Delta));
    assert!(t.same(&Tile::get_home()));
    assert!(!t.same(&Tile::empty()));
    assert_eq!(Tile::get_home(), Tile::new(TileType::Home, 0, TilePattern::Normal));
    assert_eq!(TileType::from(9), TileType::Empty);
    assert_eq!(TilePattern::from(7), TilePattern::Normal);
}
