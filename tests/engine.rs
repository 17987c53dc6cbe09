use hexalem::config::{tile_cost, BLOCKS_TO_PLAY_LIMIT, MAX_ROUNDS};
use hexalem::rating::RatingEvent;
use hexalem::{
    Event, GameId, GameState, GetTileInfo, HexBoard, Pallet, Error, MatchmakingState, Move,
    ResourceType, Rewards, Tile, TilePattern, TileType,
};

/// A 25-cell grid from tile bytes, with a level-0 home at the center.
fn grid_25(cells: &[(usize, u8)]) -> Vec<Tile> {
    let mut grid = vec![Tile::from_byte(0); 25];
    grid[12] = Tile::get_home();
    for (i, b) in cells {
        grid[*i] = Tile::from_byte(*b);
    }
    grid
}

fn mixed_grid() -> Vec<Tile> {
    grid_25(&[(6, 56), (7, 48), (8, 40), (9, 32), (10, 24), (11, 16)])
}

fn game_id_of(engine: &Pallet, player: u64) -> GameId {
    engine.get_hex_board(player).unwrap().get_game_id().unwrap()
}

#[test]
fn game_loop() {
    let mut engine = Pallet::new();
    let now = 1;
    let players = vec![1, 2, 3];

    assert_eq!(engine.create_game(1, players.clone(), 25, now), Ok(()));
    let hex_board = engine.get_hex_board(1).unwrap();
    assert_eq!(hex_board.resources, [1, 1, 0, 0, 0, 0, 0]);
    let default_hex_grid = grid_25(&[]);
    assert_eq!(hex_board.hex_grid, default_hex_grid);

    let game_id = game_id_of(&engine, 1);
    assert_eq!(
        engine.events().last(),
        Some(&Event::GameCreated { game_id, grid_size: 25, players: players.clone() })
    );

    let game = engine.get_game(&game_id).unwrap();
    assert_eq!(game.players, players);
    assert_eq!(game.get_player_turn(), 0);
    assert!(!game.get_played());
    assert_eq!(game.get_round(), 0);
    assert_eq!(game.get_selection_size(), 2);
    assert_eq!(game.get_state(), GameState::Playing);

    let selection_one_cost = tile_cost(game.selection[0] as usize);
    let move_played = Move { place_index: 11, buy_index: 0 };
    assert_eq!(selection_one_cost.cost.resource_type, ResourceType::Mana);
    assert_eq!(selection_one_cost.cost.amount, 1);

    assert_eq!(engine.play(1, move_played, now), Ok(()));
    assert_eq!(
        engine.events().last(),
        Some(&Event::MovePlayed { game_id, player: 1, move_played })
    );

    let hex_board = engine.get_hex_board(1).unwrap();
    assert_eq!(hex_board.resources, [0, 1, 0, 0, 0, 0, 0]);
    let mut expected_hex_grid = grid_25(&[]);
    expected_hex_grid[11] = selection_one_cost.tile_to_buy;
    assert_eq!(hex_board.hex_grid, expected_hex_grid);

    let game = engine.get_game(&game_id).unwrap();
    assert_eq!(game.players, players);
    assert_eq!(game.get_player_turn(), 0);
    assert!(game.get_played());
    assert_eq!(game.get_round(), 0);
    assert_eq!(game.get_selection_size(), 4);
    assert_eq!(game.get_state(), GameState::Playing);

    assert_eq!(engine.finish_turn(1, now), Ok(()));
    assert_eq!(engine.events().last(), Some(&Event::NewTurn { game_id, next_player: 2 }));

    let hex_board = engine.get_hex_board(1).unwrap();
    assert_eq!(hex_board.resources, [1, 1, 2, 0, 0, 0, 0]);
    assert_eq!(hex_board.hex_grid, expected_hex_grid);

    let game = engine.get_game(&game_id).unwrap();
    assert_eq!(game.players, players);
    assert_eq!(game.get_player_turn(), 1);
    assert!(!game.get_played());
    assert_eq!(game.get_round(), 0);
    assert_eq!(game.get_selection_size(), 4);
    assert_eq!(game.get_state(), GameState::Playing);
}

#[test]
fn create_game() {
    let mut engine = Pallet::new();
    let now = 0;

    assert_eq!(engine.create_game(1, vec![], 25, now), Err(Error::NumberOfPlayersIsTooSmall));
    assert_eq!(
        engine.create_game(1, (1..=101).collect::<Vec<u64>>(), 25, now),
        Err(Error::NumberOfPlayersIsTooLarge)
    );
    assert_eq!(engine.create_game(1, vec![1], 1, now), Err(Error::BadGridSize));
    assert_eq!(engine.create_game(1, vec![1], 2, now), Err(Error::BadGridSize));
    assert_eq!(engine.create_game(1, vec![1], 20, now), Err(Error::BadGridSize));

    assert_eq!(engine.create_game(1, (1..=100).collect::<Vec<u64>>(), 25, now), Ok(()));

    assert_eq!(engine.create_game(1, vec![1], 25, now), Err(Error::GameAlreadyCreated));
    assert_eq!(engine.create_game(2, vec![2, 1], 25, now), Err(Error::AlreadyPlaying));

    assert_eq!(engine.create_game(101, vec![101], 9, now), Ok(()));
    assert_eq!(engine.create_game(102, vec![102], 49, now), Ok(()));

    assert_eq!(
        engine.create_game(103, vec![104], 9, now),
        Err(Error::CreatorNotInPlayersAtIndexZero)
    );
    assert_eq!(
        engine.create_game(103, vec![104, 103], 9, now),
        Err(Error::CreatorNotInPlayersAtIndexZero)
    );

    assert_eq!(engine.create_game(105, vec![105, 105], 25, now), Err(Error::AlreadyPlaying));
    assert_eq!(
        engine.create_game(105, vec![105, 106, 106, 107], 25, now),
        Err(Error::AlreadyPlaying)
    );
    assert!(engine.get_hex_board(106).is_none());
}

#[test]
fn fresh_boards_have_a_home_at_the_center() {
    let mut engine = Pallet::new();
    assert_eq!(engine.create_game(1, vec![1], 9, 0), Ok(()));
    assert_eq!(engine.create_game(2, vec![2], 25, 0), Ok(()));
    assert_eq!(engine.create_game(3, vec![3], 49, 0), Ok(()));
    for (player, size) in [(1u64, 9usize), (2, 25), (3, 49)] {
        let board = engine.get_hex_board(player).unwrap();
        assert_eq!(board.hex_grid.len(), size);
        for (i, tile) in board.hex_grid.iter().enumerate() {
            if i == size / 2 {
                assert_eq!(*tile, Tile::get_home());
            } else {
                assert_eq!(*tile, Tile::empty());
            }
        }
    }
    assert!(HexBoard::try_new(0, MatchmakingState::Idle).is_none());
    assert!(HexBoard::try_new(50, MatchmakingState::Idle).is_none());
}

#[test]
fn test_resource_generation() {
    let mut engine = Pallet::new();
    assert_eq!(engine.create_game(1, vec![1], 25, 0), Ok(()));
    let game_id = game_id_of(&engine, 1);

    engine.set_hex_board(
        1,
        HexBoard {
            matchmaking_state: MatchmakingState::Joined(game_id),
            hex_grid: mixed_grid(),
            resources: [0, 1, 0, 0, 0, 0, 0],
        },
    );

    assert_eq!(engine.finish_turn(1, 0), Ok(()));
    assert_eq!(engine.get_hex_board(1).unwrap().resources, [1, 1, 2, 3, 1, 1, 0]);
}

#[test]
fn test_saturate_99() {
    let mut engine = Pallet::new();
    assert_eq!(engine.create_game(1, vec![1], 25, 0), Ok(()));
    let game_id = game_id_of(&engine, 1);

    engine.set_hex_board(
        1,
        HexBoard {
            matchmaking_state: MatchmakingState::Joined(game_id),
            hex_grid: mixed_grid(),
            resources: [99; 7],
        },
    );

    assert_eq!(engine.finish_turn(1, 0), Ok(()));
    assert_eq!(engine.get_hex_board(1).unwrap().resources, [99, 3, 99, 99, 99, 99, 99]);
}

#[test]
fn resources_stay_within_the_cap() {
    let mut engine = Pallet::new();
    assert_eq!(engine.create_game(1, vec![1], 25, 0), Ok(()));
    let game_id = game_id_of(&engine, 1);
    engine.set_hex_board(
        1,
        HexBoard {
            matchmaking_state: MatchmakingState::Joined(game_id),
            hex_grid: mixed_grid(),
            resources: [200, 1, 150, 255, 120, 100, 250],
        },
    );
    for _ in 0..5 {
        assert_eq!(engine.finish_turn(1, 0), Ok(()));
        for r in engine.get_hex_board(1).unwrap().resources {
            assert!(r <= 99);
        }
    }
}

#[test]
fn test_game_finishes_on_25th_round() {
    let mut engine = Pallet::new();
    let now = 1;
    assert_eq!(engine.create_game(1, vec![1], 25, now), Ok(()));
    let game_id = game_id_of(&engine, 1);

    for _ in 0..MAX_ROUNDS {
        assert_eq!(engine.finish_turn(1, now), Ok(()));
    }

    let hex_board = engine.get_hex_board(1).unwrap();
    assert_eq!(hex_board.matchmaking_state, MatchmakingState::Finished(Rewards::Draw));
    assert!(engine.events().contains(&Event::GameFinished { game_id }));
    assert_eq!(
        engine.get_game(&game_id).unwrap().get_state(),
        GameState::Finished { winner: None }
    );

    assert_eq!(engine.finish_turn(1, now), Err(Error::HexBoardNotInPlayingState));
}

#[test]
fn test_game_finishes_on_25th_round_3p() {
    let mut engine = Pallet::new();
    let now = 1;
    assert_eq!(engine.create_game(1, vec![1, 2, 3], 25, now), Ok(()));
    let game_id = game_id_of(&engine, 2);

    for _ in 0..MAX_ROUNDS {
        assert_eq!(engine.finish_turn(1, now), Ok(()));
        assert_eq!(engine.finish_turn(2, now), Ok(()));
        assert_eq!(engine.finish_turn(3, now), Ok(()));
    }

    let hex_board = engine.get_hex_board(2).unwrap();
    assert_eq!(hex_board.matchmaking_state, MatchmakingState::Finished(Rewards::Draw));
    assert!(engine.events().contains(&Event::GameFinished { game_id }));

    assert_eq!(engine.finish_turn(1, now), Err(Error::HexBoardNotInPlayingState));
    assert_eq!(engine.finish_turn(2, now), Err(Error::HexBoardNotInPlayingState));
    assert_eq!(engine.finish_turn(3, now), Err(Error::HexBoardNotInPlayingState));
}

#[test]
fn test_game_force_finishes_on_25th_round_3p() {
    let mut engine = Pallet::new();
    let mut now: u64 = 1;
    assert_eq!(engine.create_game(1, vec![1, 2, 3], 25, now), Ok(()));
    let game_id = game_id_of(&engine, 2);

    for _ in 0..MAX_ROUNDS {
        now = BLOCKS_TO_PLAY_LIMIT as u64 + now + 1;
        assert_eq!(engine.force_finish_turn(2, game_id, now), Ok(()));

        now = BLOCKS_TO_PLAY_LIMIT as u64 + now + 1;
        assert_eq!(engine.force_finish_turn(3, game_id, now), Ok(()));

        now = BLOCKS_TO_PLAY_LIMIT as u64 + now + 1;
        assert_eq!(engine.force_finish_turn(1, game_id, now), Ok(()));
    }

    let hex_board = engine.get_hex_board(2).unwrap();
    assert_eq!(hex_board.matchmaking_state, MatchmakingState::Finished(Rewards::Draw));
    assert!(engine.events().contains(&Event::GameFinished { game_id }));

    assert_eq!(engine.finish_turn(1, now), Err(Error::HexBoardNotInPlayingState));
    assert_eq!(engine.finish_turn(2, now), Err(Error::HexBoardNotInPlayingState));
    assert_eq!(engine.finish_turn(3, now), Err(Error::HexBoardNotInPlayingState));
}

#[test]
fn test_force_finish_turn() {
    let mut engine = Pallet::new();
    assert_eq!(engine.create_game(1, vec![1, 2], 25, 0), Ok(()));
    let game_id = game_id_of(&engine, 1);

    assert_eq!(
        engine.force_finish_turn(2, game_id, 0),
        Err(Error::BlocksToPlayLimitNotPassed)
    );

    let now = BLOCKS_TO_PLAY_LIMIT as u64 + 1;

    assert_eq!(
        engine.force_finish_turn(1, game_id, now),
        Err(Error::CurrentPlayerCannotForceFinishTurn)
    );
    assert_eq!(engine.force_finish_turn(3, game_id, now), Err(Error::PlayerNotInGame));

    assert_eq!(engine.force_finish_turn(2, game_id, now), Ok(()));
    assert_eq!(engine.get_game(&game_id).unwrap().get_player_turn(), 1);
    assert_eq!(
        engine.events().last(),
        Some(&Event::TurnForceFinished { game_id, player: 1 })
    );
    assert_eq!(
        engine.force_finish_turn(2, [0; 32], now),
        Err(Error::GameNotInitialized)
    );
}

#[test]
fn turn_wraps_into_a_new_round() {
    let mut engine = Pallet::new();
    assert_eq!(engine.create_game(1, vec![1, 2, 3], 25, 0), Ok(()));
    let game_id = game_id_of(&engine, 1);
    let expected = [(1u8, 0u8), (2, 0), (0, 1), (1, 1)];
    let order = [1u64, 2, 3, 1];
    for (who, (turn, round)) in order.iter().zip(expected.iter()) {
        assert_eq!(engine.finish_turn(*who, 0), Ok(()));
        let game = engine.get_game(&game_id).unwrap();
        assert!((game.get_player_turn() as usize) < game.players.len());
        assert_eq!((game.get_player_turn(), game.get_round()), (*turn, *round));
    }
}

#[test]
fn play() {
    let mut engine = Pallet::new();
    assert_eq!(engine.create_game(1, vec![1, 2], 25, 0), Ok(()));
    let game_id = game_id_of(&engine, 1);

    assert_eq!(engine.play(1, Move { place_index: 12, buy_index: 0 }, 0), Err(Error::TileIsNotEmpty));
    assert_eq!(
        engine.play(1, Move { place_index: 0, buy_index: 0 }, 0),
        Err(Error::TileSurroundedByEmptyTiles)
    );
    assert_eq!(
        engine.play(1, Move { place_index: 26, buy_index: 0 }, 0),
        Err(Error::PlaceIndexOutOfBounds)
    );
    assert_eq!(
        engine.play(1, Move { place_index: 11, buy_index: 2 }, 0),
        Err(Error::BuyIndexOutOfBounds)
    );

    let hex_grid = engine.get_hex_board(1).unwrap().hex_grid.clone();
    engine.set_hex_board(
        1,
        HexBoard {
            matchmaking_state: MatchmakingState::Joined(game_id),
            hex_grid,
            resources: [0; 7],
        },
    );

    assert_eq!(
        engine.play(1, Move { place_index: 11, buy_index: 0 }, 0),
        Err(Error::NotEnoughResources)
    );
    assert_eq!(engine.play(2, Move { place_index: 11, buy_index: 0 }, 0), Err(Error::PlayerNotOnTurn));
    assert_eq!(
        engine.play(3, Move { place_index: 11, buy_index: 0 }, 0),
        Err(Error::HexBoardNotInitialized)
    );
    assert_eq!(engine.get_hex_board(1).unwrap().resources, [0; 7]);
    assert_eq!(engine.get_game(&game_id).unwrap().selection.len(), 2);
}

#[test]
fn play_pattern() {
    let mut engine = Pallet::new();
    assert_eq!(engine.create_game(1, vec![1, 2], 25, 0), Ok(()));
    let game_id = game_id_of(&engine, 1);

    let new_hex_grid = grid_25(&[(6, 24), (7, 24), (16, 56), (18, 24), (20, 56), (22, 24)]);
    engine.set_hex_board(
        1,
        HexBoard {
            matchmaking_state: MatchmakingState::Joined(game_id),
            hex_grid: new_hex_grid,
            resources: [5; 7],
        },
    );

    let game = engine.get_game(&game_id).unwrap();
    assert_eq!(tile_cost(game.selection[1] as usize).tile_to_buy, Tile::from_byte(56));

    assert_eq!(engine.play(1, Move { place_index: 21, buy_index: 0 }, 0), Ok(()));

    let hex_board = engine.get_hex_board(1).unwrap();
    assert_eq!(hex_board.hex_grid[16].get_type(), TileType::Cave);
    assert_eq!(hex_board.hex_grid[20].get_type(), TileType::Cave);
    assert_eq!(hex_board.hex_grid[21].get_type(), TileType::Cave);
    assert_eq!(hex_board.hex_grid[16].get_pattern(), TilePattern::Delta);
    assert_eq!(hex_board.hex_grid[20].get_pattern(), TilePattern::Delta);
    assert_eq!(hex_board.hex_grid[21].get_pattern(), TilePattern::Delta);

    let game = engine.get_game(&game_id).unwrap();
    assert_eq!(tile_cost(game.selection[2] as usize).tile_to_buy, Tile::from_byte(24));
    assert_eq!(tile_cost(game.selection[3] as usize).tile_to_buy, Tile::from_byte(24));

    assert_eq!(engine.play(1, Move { place_index: 8, buy_index: 2 }, 0), Ok(()));

    let hex_board = engine.get_hex_board(1).unwrap();
    assert_eq!(hex_board.hex_grid[6].get_type(), TileType::Water);
    assert_eq!(hex_board.hex_grid[7].get_type(), TileType::Water);
    assert_eq!(hex_board.hex_grid[8].get_type(), TileType::Water);
    assert_eq!(hex_board.hex_grid[6].get_pattern(), TilePattern::Line);
    assert_eq!(hex_board.hex_grid[7].get_pattern(), TilePattern::Line);
    assert_eq!(hex_board.hex_grid[8].get_pattern(), TilePattern::Line);

    assert_eq!(engine.play(1, Move { place_index: 17, buy_index: 2 }, 0), Ok(()));

    let hex_board = engine.get_hex_board(1).unwrap();
    assert_eq!(hex_board.hex_grid[18].get_type(), TileType::Water);
    assert_eq!(hex_board.hex_grid[17].get_type(), TileType::Water);
    assert_eq!(hex_board.hex_grid[22].get_type(), TileType::Water);
    assert_eq!(hex_board.hex_grid[22].get_pattern(), TilePattern::Delta);
    assert_eq!(hex_board.hex_grid[18].get_pattern(), TilePattern::Delta);
    assert_eq!(hex_board.hex_grid[17].get_pattern(), TilePattern::Delta);
}

#[test]
fn flagged_tiles_keep_their_formation() {
    let mut engine = Pallet::new();
    assert_eq!(engine.create_game(1, vec![1], 25, 0), Ok(()));
    let game_id = game_id_of(&engine, 1);
    let mut grid = grid_25(&[(16, 56), (20, 56)]);
    grid[16] = Tile::new(TileType::Cave, 0, TilePattern::Line);
    let mut board = HexBoard {
        matchmaking_state: MatchmakingState::Joined(game_id),
        hex_grid: grid,
        resources: [5; 7],
    };
    hexalem::pattern::set_patterns(&mut board, (-2, 2));
    assert_eq!(board.hex_grid[16], Tile::new(TileType::Cave, 0, TilePattern::Line));
    let before = board.hex_grid.clone();
    hexalem::pattern::set_patterns(&mut board, (-1, 1));
    hexalem::pattern::set_patterns(&mut board, (-2, 2));
    for (a, b) in before.iter().zip(board.hex_grid.iter()) {
        if a.get_pattern() != TilePattern::Normal {
            assert_eq!(a, b);
        }
    }
}

#[test]
fn selection_refills_after_a_buy() {
    let mut engine = Pallet::new();
    assert_eq!(engine.create_game(1, vec![1], 25, 0), Ok(()));
    let game_id = game_id_of(&engine, 1);
    assert_eq!(engine.get_game(&game_id).unwrap().get_selection_size(), 2);
    assert_eq!(engine.play(1, Move { place_index: 11, buy_index: 0 }, 0), Ok(()));
    let game = engine.get_game(&game_id).unwrap();
    assert_eq!(game.get_selection_size(), 4);
    assert_eq!(game.selection.len(), 4);
    assert!(matches!(engine.events()[engine.events().len() - 2], Event::SelectionRefilled { .. }));
}

#[test]
fn upgrade() {
    let mut engine = Pallet::new();
    assert_eq!(engine.create_game(1, vec![1, 2], 25, 0), Ok(()));

    assert_eq!(engine.upgrade(1, 12), Err(Error::NotEnoughResources));

    let game_id = game_id_of(&engine, 1);
    engine.set_hex_board(
        1,
        HexBoard {
            matchmaking_state: MatchmakingState::Joined(game_id),
            hex_grid: mixed_grid(),
            resources: [10; 7],
        },
    );

    assert_eq!(engine.upgrade(1, 0), Err(Error::CannotLevelUpEmptyTile));
    assert_eq!(engine.upgrade(1, 11), Err(Error::CannotLevelUp));
    assert_eq!(engine.upgrade(1, 10), Err(Error::CannotLevelUp));
    assert_eq!(engine.upgrade(1, 9), Err(Error::CannotLevelUp));
    assert_eq!(engine.upgrade(1, 100), Err(Error::PlaceIndexOutOfBounds));
    assert_eq!(engine.upgrade(2, 12), Err(Error::PlayerNotOnTurn));
    assert_eq!(engine.upgrade(3, 12), Err(Error::HexBoardNotInitialized));

    let upgrade_costs: [[u8; 7]; 3] =
        [[0, 0, 0, 0, 2, 2, 0], [0, 0, 0, 0, 4, 4, 2], [0, 0, 0, 0, 6, 6, 4]];

    for (level, upgrade_costs_for_level) in upgrade_costs.iter().enumerate() {
        assert_eq!(engine.upgrade(1, 12), Ok(()));

        let hex_board = engine.get_hex_board(1).unwrap();
        let mut resources_expected = [10u8; 7];
        for (resource_type, upgrade_cost) in upgrade_costs_for_level.iter().enumerate() {
            resources_expected[resource_type] -= upgrade_cost;
        }
        assert_eq!(hex_board.resources, resources_expected);
        assert_eq!(hex_board.hex_grid[12].get_level(), (level as u8) + 1);

        let hex_grid = hex_board.hex_grid.clone();
        engine.set_hex_board(
            1,
            HexBoard {
                matchmaking_state: MatchmakingState::Joined(game_id),
                hex_grid,
                resources: [10; 7],
            },
        );
    }

    assert_eq!(engine.upgrade(1, 12), Err(Error::TileOnMaxLevel));
}

#[test]
fn simple_2p_matchmaking() {
    let mut engine = Pallet::new();
    let now = 1;

    assert_eq!(engine.queue(1, now), Ok(()));
    let hex_board = engine.get_hex_board(1).unwrap();
    assert_eq!(hex_board.resources, [1, 1, 0, 0, 0, 0, 0]);
    assert_eq!(hex_board.hex_grid, grid_25(&[]));
    assert_eq!(hex_board.matchmaking_state, MatchmakingState::Matchmaking);
    assert_eq!(engine.queue_size(0), 1);

    assert_eq!(engine.queue(2, now), Ok(()));
    let hex_board = engine.get_hex_board(2).unwrap();
    assert_eq!(hex_board.resources, [1, 1, 0, 0, 0, 0, 0]);
    assert_eq!(hex_board.hex_grid, grid_25(&[]));
    assert_ne!(hex_board.matchmaking_state, MatchmakingState::Matchmaking);
    assert_eq!(engine.queue_size(0), 0);

    let game_id = game_id_of(&engine, 2);
    let game = engine.get_game(&game_id).unwrap();
    assert_eq!(game.players, vec![1, 2]);
    assert_eq!(game.get_player_turn(), 0);
    assert!(!game.get_played());
    assert_eq!(game.get_round(), 0);
    assert_eq!(game.get_selection_size(), 2);
    assert_eq!(game.get_state(), GameState::Playing);

    assert_eq!(engine.queue(1, now), Err(Error::AlreadyPlaying));
    assert_eq!(engine.queue(2, now), Err(Error::AlreadyPlaying));
}

#[test]
fn queue_edgecases() {
    let mut engine = Pallet::new();
    assert_eq!(engine.queue(1, 1), Ok(()));
    assert_eq!(engine.queue(1, 1), Err(Error::AlreadyPlaying));
    assert_eq!(engine.play(1, Move { place_index: 11, buy_index: 0 }, 1), Err(Error::HexBoardInMatchmakingState));
}

fn winning_board(game_id: GameId) -> HexBoard {
    let mut hex_grid = grid_25(&[]);
    hex_grid[12] = Tile::new(TileType::Home, 3, TilePattern::Normal);
    HexBoard { matchmaking_state: MatchmakingState::Joined(game_id), hex_grid, resources: [99; 7] }
}

#[test]
fn elo_2p_match() {
    let mut engine = Pallet::new();
    let now = 1;
    assert_eq!(engine.create_game(1, vec![1, 2], 25, now), Ok(()));
    let game_id = game_id_of(&engine, 1);
    engine.set_hex_board(1, winning_board(game_id));

    assert_eq!(engine.finish_turn(1, now), Ok(()));

    assert!(engine.events().contains(&Event::GameFinished { game_id }));
    assert!(engine
        .rating_events()
        .contains(&RatingEvent::RatingGained { player: 1, new_rating: 1016, rating_gained: 16 }));
    assert!(engine
        .rating_events()
        .contains(&RatingEvent::RatingLost { player: 2, new_rating: 984, rating_lost: 16 }));
    assert_eq!(engine.get_rating(1), 1016);
    assert_eq!(engine.get_rating(2), 984);
    assert_eq!(
        engine.get_game(&game_id).unwrap().get_state(),
        GameState::Finished { winner: Some(0) }
    );
    assert_eq!(
        engine.get_hex_board(1).unwrap().matchmaking_state,
        MatchmakingState::Finished(Rewards::Winner)
    );
    assert_eq!(
        engine.get_hex_board(2).unwrap().matchmaking_state,
        MatchmakingState::Finished(Rewards::Loser)
    );
}

#[test]
fn elo_4p_match() {
    let mut engine = Pallet::new();
    let now = 1;
    assert_eq!(engine.create_game(1, vec![1, 2, 3, 4], 25, now), Ok(()));
    let game_id = game_id_of(&engine, 1);
    engine.set_hex_board(1, winning_board(game_id));

    assert_eq!(engine.finish_turn(1, now), Ok(()));

    assert!(engine.events().contains(&Event::GameFinished { game_id }));
    let events = engine.rating_events();
    assert!(events.contains(&RatingEvent::RatingGained { player: 1, new_rating: 1048, rating_gained: 48 }));
    assert!(events.contains(&RatingEvent::RatingLost { player: 2, new_rating: 984, rating_lost: 16 }));
    assert!(events.contains(&RatingEvent::RatingLost { player: 3, new_rating: 984, rating_lost: 16 }));
    assert!(events.contains(&RatingEvent::RatingLost { player: 4, new_rating: 984, rating_lost: 16 }));

    assert_eq!(engine.get_rating(1), 1048);
    assert_eq!(engine.get_rating(2), 984);
    assert_eq!(engine.get_rating(3), 984);
    assert_eq!(engine.get_rating(4), 984);
}

#[test]
fn clean_hex_board_storage() {
    let mut engine = Pallet::new();

    engine.set_hex_board(1, HexBoard::try_new(25, MatchmakingState::Matchmaking).unwrap());
    assert_eq!(engine.receive_reward(1), Err(Error::HexBoardNotInFinishedState));

    engine.set_hex_board(2, HexBoard::try_new(25, MatchmakingState::Joined([0; 32])).unwrap());
    assert_eq!(engine.receive_reward(2), Err(Error::HexBoardNotInFinishedState));

    engine.set_hex_board(3, HexBoard::try_new(25, MatchmakingState::Finished(Rewards::Winner)).unwrap());
    assert_eq!(engine.receive_reward(3), Ok(()));
    assert!(engine.get_hex_board(3).is_none());
    assert_eq!(engine.receive_reward(4), Err(Error::HexBoardNotInitialized));
}

#[test]
fn root_delete_game_removes_boards() {
    let mut engine = Pallet::new();
    assert_eq!(engine.create_game(1, vec![1, 2], 25, 0), Ok(()));
    let game_id = game_id_of(&engine, 1);
    assert_eq!(engine.root_delete_game(game_id), Ok(()));
    assert!(engine.get_game(&game_id).is_none());
    assert!(engine.get_hex_board(1).is_none());
    assert!(engine.get_hex_board(2).is_none());
    assert_eq!(engine.root_delete_game(game_id), Err(Error::GameNotInitialized));
}

#[test]
fn finished_game_refuses_further_turns() {
    let mut engine = Pallet::new();
    assert_eq!(engine.create_game(1, vec![1, 2], 25, 0), Ok(()));
    let game_id = game_id_of(&engine, 1);
    engine.set_hex_board(1, winning_board(game_id));
    assert_eq!(engine.finish_turn(1, 0), Ok(()));
    assert_eq!(
        engine.force_finish_turn(1, game_id, 100),
        Err(Error::GameNotPlaying)
    );
    // A board still joined to a finished game is refused with a state error.
    let mut board = HexBoard::try_new(25, MatchmakingState::Joined(game_id)).unwrap();
    board.resources = [1; 7];
    engine.set_hex_board(2, board);
    assert_eq!(engine.finish_turn(2, 0), Err(Error::GameNotPlaying));
}
