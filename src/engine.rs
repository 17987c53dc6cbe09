//! The engine: stored games and boards, ratings, quick-match queues, and the operations that
//! players call. Every operation validates fully before it changes anything.
use vstd::prelude::*;
use std::collections::HashMap;

use crate::board::{fresh_board, GameId, HexBoard, MatchmakingState, Move, Rewards};
use crate::config::{BLOCKS_TO_PLAY_LIMIT, MAX_PLAYERS, MAX_ROUNDS, MIN_PLAYERS};
use crate::error::Error;
use crate::game::{spec_new_selection, Game, GameState};
use crate::hex::{is_valid_grid_size, valid_grid_size};
use crate::ids::{game_id_of, new_game_id};
use crate::matchmaker::{queue_after, queued_in, taken_upto, total_upto, Matchmaker};
use crate::rating::{
    losses, rating_change, rating_in, sat_add_u16, sat_sub_u16, Elo, Rating, RatingEvent,
};
use crate::store::GameStore;
use crate::turn::{
    ended_turn, finish_turn_on, play_error, play_move, played_board, played_game, turn_outcome,
    upgrade_error, upgrade_tile, TurnOutcome,
};
use crate::tile::Tile;

verus! {

broadcast use vstd::std_specs::hash::group_hash_axioms;

/// Players in one quick match.
pub const AMOUNT_PLAYERS: u8 = 2;

/// Quick-match brackets.
pub const AMOUNT_BRACKETS: u8 = 2;

/// Grid size of boards opened for quick matches.
pub const QUEUE_GRID_SIZE: u8 = 25;

/// Notifications of what the engine did.
#[derive(Debug, PartialEq, Eq)]
pub enum Event {
    GameCreated { game_id: GameId, grid_size: u8, players: Vec<u64> },
    MovePlayed { game_id: GameId, player: u64, move_played: Move },
    TileUpgraded { game_id: GameId, player: u64, place_index: u8 },
    NewTileSelection { game_id: GameId, selection: Vec<u8> },
    SelectionRefilled { game_id: GameId, selection: Vec<u8> },
    TurnForceFinished { game_id: GameId, player: u64 },
    NewTurn { game_id: GameId, next_player: u64 },
    GameFinished { game_id: GameId },
}

/// The game a player on turn acts in, or why they cannot act: no board, a board waiting for a
/// match or not in a game, no such game, a finished game, or another player on turn.
pub open spec fn turn_check(
    boards: Map<u64, HexBoard>,
    games: Map<GameId, Game>,
    who: u64,
) -> Result<GameId, Error> {
    if !boards.contains_key(who) {
        Err(Error::HexBoardNotInitialized)
    } else {
        match boards[who].matchmaking_state {
            MatchmakingState::Joined(id) => {
                if !games.contains_key(id) {
                    Err(Error::GameNotInitialized)
                } else if games[id].state != GameState::Playing {
                    Err(Error::GameNotPlaying)
                } else if !(games[id].player_turn < games[id].players@.len()
                    && games[id].players@[games[id].player_turn as int] == who) {
                    Err(Error::PlayerNotOnTurn)
                } else {
                    Ok(id)
                }
            },
            MatchmakingState::Matchmaking => Err(Error::HexBoardInMatchmakingState),
            _ => Err(Error::HexBoardNotInPlayingState),
        }
    }
}

/// How a finished game rewards the player at index `i`.
pub open spec fn reward_of(winner: Option<int>, i: int) -> Rewards {
    match winner {
        Some(w) => if i == w {
            Rewards::Winner
        } else {
            Rewards::Loser
        },
        None => Rewards::Draw,
    }
}

/// The boards after the first `n` players' boards have been released with their rewards.
pub open spec fn mark_boards(
    boards: Map<u64, HexBoard>,
    players: Seq<u64>,
    winner: Option<int>,
    n: nat,
) -> Map<u64, HexBoard>
    decreases n,
{
    if n == 0 {
        boards
    } else {
        let m = mark_boards(boards, players, winner, (n - 1) as nat);
        let p = players[n - 1];
        if m.contains_key(p) {
            m.insert(
                p,
                HexBoard {
                    matchmaking_state: MatchmakingState::Finished(reward_of(winner, n - 1)),
                    ..m[p]
                },
            )
        } else {
            m
        }
    }
}

/// The boards after the boards of the first `n` players have joined the game `id`.
pub open spec fn join_boards(boards: Map<u64, HexBoard>, players: Seq<u64>, id: GameId, n: nat) -> Map<
    u64,
    HexBoard,
>
    decreases n,
{
    if n == 0 {
        boards
    } else {
        let m = join_boards(boards, players, id, (n - 1) as nat);
        let p = players[n - 1];
        if m.contains_key(p) {
            m.insert(p, HexBoard { matchmaking_state: MatchmakingState::Joined(id), ..m[p] })
        } else {
            m
        }
    }
}

/// The boards after the first `n` players' boards have been removed.
pub open spec fn remove_boards(boards: Map<u64, HexBoard>, players: Seq<u64>, n: nat) -> Map<
    u64,
    HexBoard,
>
    decreases n,
{
    if n == 0 {
        boards
    } else {
        remove_boards(boards, players, (n - 1) as nat).remove(players[n - 1])
    }
}

/// Ratings after the player at index `turn` has won: against the other player in a two-player
/// game, against every other player in a larger one, unchanged in a game alone.
pub open spec fn ratings_after_win(m: Map<u64, Rating>, players: Seq<u64>, turn: int) -> Map<
    u64,
    Rating,
> {
    let w = players[turn];
    let a = rating_in(m, w);
    if players.len() == 2 {
        let l = players[1 - turn];
        let b = rating_in(m, l);
        let c = rating_change(a, b);
        m.insert(w, sat_add_u16(a, c) as u16).insert(l, sat_sub_u16(b, c) as u16)
    } else if players.len() >= 3 {
        let (m2, gain) = losses(m, w, a, players, players.len());
        m2.insert(w, sat_add_u16(a, gain) as u16)
    } else {
        m
    }
}

/// `g` is a new game of `players` opened at tick `now` under `id`.
pub open spec fn fresh_game(g: Game, players: Seq<u64>, now: u64, id: GameId) -> bool {
    &&& g.state == GameState::Playing
    &&& g.player_turn == 0
    &&& !g.played
    &&& g.last_played_block == now
    &&& g.players@ == players
    &&& g.selection_size == 2
    &&& g.selection@ == spec_new_selection(id@, 2, now as int)
    &&& g.round == 0
    &&& g.max_rounds == MAX_ROUNDS
}

/// Why a game cannot be created, if it cannot: too few or too many players, a grid size
/// other than 9, 25 and 49, a creator who is not the first player, an id in use, or a player
/// who already has a board or is listed twice.
pub open spec fn create_error(
    boards: Map<u64, HexBoard>,
    games: Map<GameId, Game>,
    who: u64,
    players: Seq<u64>,
    grid_size: u8,
    id: GameId,
) -> Option<Error> {
    if players.len() < MIN_PLAYERS {
        Some(Error::NumberOfPlayersIsTooSmall)
    } else if players.len() > MAX_PLAYERS {
        Some(Error::NumberOfPlayersIsTooLarge)
    } else if !valid_grid_size(grid_size as int) {
        Some(Error::BadGridSize)
    } else if players[0] != who {
        Some(Error::CreatorNotInPlayersAtIndexZero)
    } else if games.contains_key(id) {
        Some(Error::GameAlreadyCreated)
    } else if !(players.no_duplicates() && forall|i: int|
        0 <= i < players.len() ==> !boards.contains_key(#[trigger] players[i])) {
        Some(Error::AlreadyPlaying)
    } else {
        None
    }
}

/// Why the turn in game `id` cannot be ended by `who` at tick `now`, if it cannot: no such
/// game, a finished game, a caller outside the game, the caller on turn, or time left for the
/// player on turn.
pub open spec fn force_error(games: Map<GameId, Game>, who: u64, id: GameId, now: u64) -> Option<
    Error,
> {
    if !games.contains_key(id) {
        Some(Error::GameNotInitialized)
    } else if games[id].state != GameState::Playing {
        Some(Error::GameNotPlaying)
    } else if !games[id].players@.contains(who) {
        Some(Error::PlayerNotInGame)
    } else if games[id].players@[games[id].player_turn as int] == who {
        Some(Error::CurrentPlayerCannotForceFinishTurn)
    } else if !(games[id].last_played_block + BLOCKS_TO_PLAY_LIMIT < now) {
        Some(Error::BlocksToPlayLimitNotPassed)
    } else {
        None
    }
}

fn contains_player(players: &Vec<u64>, who: u64) -> (r: bool)
    ensures
        r == players@.contains(who),
{
    let mut i: usize = 0;
    while i < players.len()
        invariant
            i <= players@.len(),
            forall|j: int| 0 <= j < i ==> players@[j] != who,
        decreases players@.len() - i,
    {
        if players[i] == who {
            assert(players@[i as int] == who);
            return true;
        }
        i = i + 1;
    }
    false
}

/// The engine state.
pub struct Pallet {
    games: GameStore,
    boards: HashMap<u64, HexBoard>,
    elo: Elo,
    matchmaker: Matchmaker,
    events: Vec<Event>,
}

impl Pallet {
    /// Games by id.
    pub closed spec fn spec_games(&self) -> Map<GameId, Game> {
        self.games.view()
    }

    /// Boards by player.
    pub closed spec fn spec_boards(&self) -> Map<u64, HexBoard> {
        self.boards@
    }

    /// Ratings by player.
    pub closed spec fn spec_ratings(&self) -> Map<u64, Rating> {
        self.elo.view()
    }

    /// The quick-match queues.
    pub closed spec fn spec_queues(&self) -> Seq<Seq<u64>> {
        self.matchmaker.view()
    }

    /// Every stored game and board is well-formed, and the quick-match queues have their shape.
    pub closed spec fn wf(&self) -> bool {
        &&& self.games.wf()
        &&& forall|id: GameId| #[trigger] self.games.view().contains_key(id) ==> self.games.view()[id].wf()
        &&& forall|p: u64| #[trigger] self.boards@.contains_key(p) ==> self.boards@[p].wf()
        &&& self.matchmaker.spec_amount_players() == AMOUNT_PLAYERS
        &&& self.matchmaker.view().len() == AMOUNT_BRACKETS
    }

    /// An engine with no games, boards, ratings or queued players.
    pub fn new() -> (r: Pallet)
        ensures
            r.wf(),
            r.spec_games() == Map::<GameId, Game>::empty(),
            r.spec_boards() == Map::<u64, HexBoard>::empty(),
            r.spec_ratings() == Map::<u64, Rating>::empty(),
    {
        Pallet {
            games: GameStore::new(),
            boards: HashMap::new(),
            elo: Elo::new(),
            matchmaker: Matchmaker::new(AMOUNT_PLAYERS, AMOUNT_BRACKETS),
            events: Vec::new(),
        }
    }

    /// The board of `player`.
    pub fn get_hex_board(&self, player: u64) -> (r: Option<&HexBoard>)
        ensures
            r is Some == self.spec_boards().contains_key(player),
            r matches Some(b) ==> *b == self.spec_boards()[player],
    {
        self.boards.get(&player)
    }

    /// The game stored under `game_id`.
    pub fn get_game(&self, game_id: &GameId) -> (r: Option<&Game>)
        requires
            self.wf(),
        ensures
            r is Some == self.spec_games().contains_key(*game_id),
            r matches Some(g) ==> *g == self.spec_games()[*game_id],
    {
        self.games.get(game_id)
    }

    /// Rating of `player`.
    pub fn get_rating(&self, player: u64) -> (r: Rating)
        ensures
            r as int == rating_in(self.spec_ratings(), player),
    {
        self.elo.get_rating(player)
    }

    /// The engine's notifications, oldest first.
    pub fn events(&self) -> &Vec<Event> {
        &self.events
    }

    /// The rating changes, oldest first.
    pub fn rating_events(&self) -> &Vec<RatingEvent> {
        self.elo.events()
    }

    /// Players waiting in quick-match `bracket`.
    pub fn queue_size(&self, bracket: u8) -> (r: usize)
        ensures
            r == (if bracket < self.spec_queues().len() {
                self.spec_queues()[bracket as int].len()
            } else {
                0
            }),
    {
        self.matchmaker.queue_size(bracket)
    }

    /// Stores `hex_board` as the board of `player`.
    pub fn set_hex_board(&mut self, player: u64, hex_board: HexBoard)
        requires
            old(self).wf(),
            hex_board.wf(),
        ensures
            final(self).wf(),
            final(self).spec_boards() == old(self).spec_boards().insert(player, hex_board),
            final(self).spec_games() == old(self).spec_games(),
    {
        self.boards.insert(player, hex_board);
    }

    /// Stores `game` under `game_id`.
    pub fn set_game(&mut self, game_id: GameId, game: Game)
        requires
            old(self).wf(),
            game.wf(),
        ensures
            final(self).wf(),
            final(self).spec_games() == old(self).spec_games().insert(game_id, game),
            final(self).spec_boards() == old(self).spec_boards(),
    {
        let _ = self.games.take(&game_id);
        self.games.put(game_id, game);
    }

    fn check_turn(&self, who: u64) -> (r: Result<GameId, Error>)
        requires
            self.wf(),
        ensures
            r == turn_check(self.spec_boards(), self.spec_games(), who),
    {
        let board = match self.boards.get(&who) {
            Some(b) => b,
            None => {
                return Err(Error::HexBoardNotInitialized);
            },
        };
        let game_id = match board.matchmaking_state {
            MatchmakingState::Joined(id) => id,
            MatchmakingState::Matchmaking => {
                return Err(Error::HexBoardInMatchmakingState);
            },
            _ => {
                return Err(Error::HexBoardNotInPlayingState);
            },
        };
        let game = match self.games.get(&game_id) {
            Some(g) => g,
            None => {
                return Err(Error::GameNotInitialized);
            },
        };
        if game.state != GameState::Playing {
            return Err(Error::GameNotPlaying);
        }
        if game.players[game.player_turn as usize] != who {
            return Err(Error::PlayerNotOnTurn);
        }
        Ok(game_id)
    }

    fn take_board(&mut self, who: u64) -> (r: HexBoard)
        requires
            old(self).spec_boards().contains_key(who),
        ensures
            r == old(self).spec_boards()[who],
            final(self).spec_boards() == old(self).spec_boards().remove(who),
            final(self).games == old(self).games,
            final(self).elo == old(self).elo,
            final(self).matchmaker == old(self).matchmaker,
    {
        self.boards.remove(&who).unwrap()
    }

    fn take_game(&mut self, game_id: &GameId) -> (r: Game)
        requires
            old(self).games.wf(),
            old(self).spec_games().contains_key(*game_id),
        ensures
            r == old(self).spec_games()[*game_id],
            final(self).games.wf(),
            final(self).spec_games() == old(self).spec_games().remove(*game_id),
            final(self).boards == old(self).boards,
            final(self).elo == old(self).elo,
            final(self).matchmaker == old(self).matchmaker,
    {
        self.games.take(game_id).unwrap()
    }

    /// Releases the boards of `players` with their rewards: the winner's index `winner`, or a
    /// draw.
    fn mark_finished(&mut self, players: &Vec<u64>, winner: Option<u8>)
        requires
            forall|p: u64| #[trigger] old(self).boards@.contains_key(p) ==> old(self).boards@[p].wf(),
        ensures
            final(self).spec_boards() == mark_boards(
                old(self).spec_boards(),
                players@,
                match winner {
                    Some(w) => Some(w as int),
                    None => None,
                },
                players@.len(),
            ),
            forall|p: u64| #[trigger] final(self).boards@.contains_key(p) ==> final(self).boards@[p].wf(),
            final(self).games == old(self).games,
            final(self).elo == old(self).elo,
            final(self).matchmaker == old(self).matchmaker,
    {
        let ghost w = match winner {
            Some(w) => Some(w as int),
            None => None,
        };
        let mut i: usize = 0;
        while i < players.len()
            invariant
                i <= players@.len(),
                self.boards@ == mark_boards(old(self).boards@, players@, w, i as nat),
                forall|p: u64| #[trigger] self.boards@.contains_key(p) ==> self.boards@[p].wf(),
                w == (match winner {
                    Some(w) => Some(w as int),
                    None => None::<int>,
                }),
                self.games == old(self).games,
                self.elo == old(self).elo,
                self.matchmaker == old(self).matchmaker,
            decreases players@.len() - i,
        {
            let p = players[i];
            let reward = match winner {
                Some(t) => if i == t as usize {
                    Rewards::Winner
                } else {
                    Rewards::Loser
                },
                None => Rewards::Draw,
            };
            match self.boards.remove(&p) {
                Some(mut b) => {
                    b.matchmaking_state = MatchmakingState::Finished(reward);
                    self.boards.insert(p, b);
                },
                None => {},
            }
            proof {
                let prev = mark_boards(old(self).boards@, players@, w, i as nat);
                assert(reward == reward_of(w, i as int));
                if prev.contains_key(p) {
                    assert(self.boards@ =~= prev.insert(
                        p,
                        HexBoard {
                            matchmaking_state: MatchmakingState::Finished(reward),
                            ..prev[p]
                        },
                    ));
                } else {
                    assert(self.boards@ =~= prev);
                }
            }
            i = i + 1;
        }
    }

    /// Rates the game that the player at index `turn` of `players` won.
    fn reward_winner(&mut self, players: &Vec<u64>, turn: u8)
        requires
            turn < players@.len(),
        ensures
            final(self).spec_ratings() == ratings_after_win(
                old(self).spec_ratings(),
                players@,
                turn as int,
            ),
            final(self).games == old(self).games,
            final(self).boards == old(self).boards,
            final(self).matchmaker == old(self).matchmaker,
    {
        let n = players.len();
        let winner = players[turn as usize];
        if n == 2 {
            let loser = players[1 - turn as usize];
            self.elo.update_rating(winner, loser);
        } else if n >= 3 {
            self.elo.update_ratings(winner, players);
        }
    }

    /// Opens a game of `players` on grids of `grid_size` cells, created by `who` at tick `now`
    /// under the id derived from `who` and `now`.
    pub fn create_game(&mut self, who: u64, players: Vec<u64>, grid_size: u8, now: u64) -> (r:
        Result<(), Error>)
        requires
            old(self).wf(),
        ensures
            final(self).wf(),
            exists|id: GameId|
                id@ == game_id_of(who, now) && #[trigger] Self::created(
                    *old(self),
                    *final(self),
                    who,
                    players@,
                    grid_size,
                    now,
                    id,
                    r,
                ),
    {
        let game_id = new_game_id(who, now);
        self.create_game_with_id(who, players, grid_size, now, game_id)
    }

    /// `new` is `old` after a request of `who` to open a game of `players` on grids of
    /// `grid_size` cells at tick `now` under `id`, answered with `r`.
    pub open spec fn created(
        old: Pallet,
        new: Pallet,
        who: u64,
        players: Seq<u64>,
        grid_size: u8,
        now: u64,
        id: GameId,
        r: Result<(), Error>,
    ) -> bool {
        let err = create_error(old.spec_boards(), old.spec_games(), who, players, grid_size, id);
        &&& r == (match err {
            Some(e) => Err::<(), Error>(e),
            None => Ok(()),
        })
        &&& new.spec_ratings() == old.spec_ratings()
        &&& new.spec_queues() == old.spec_queues()
        &&& r is Err ==> new.spec_games() == old.spec_games() && new.spec_boards()
            == old.spec_boards()
        &&& r is Ok ==> {
            &&& new.spec_games().contains_key(id)
            &&& new.spec_games() == old.spec_games().insert(id, new.spec_games()[id])
            &&& fresh_game(new.spec_games()[id], players, now, id)
            &&& forall|p: u64| #[trigger]
                new.spec_boards().contains_key(p) == (old.spec_boards().contains_key(p)
                    || players.contains(p))
            &&& forall|p: u64|
                #[trigger] old.spec_boards().contains_key(p) ==> new.spec_boards()[p]
                    == old.spec_boards()[p]
            &&& forall|i: int|
                0 <= i < players.len() ==> fresh_board(
                    new.spec_boards()[#[trigger] players[i]],
                    grid_size as int,
                    MatchmakingState::Joined(id),
                )
        }
    }

    /// Opens a game of `players` on grids of `grid_size` cells, created by `who` at tick `now`
    /// under `game_id`: a fresh board for every player and a game with a first selection.
    pub fn create_game_with_id(
        &mut self,
        who: u64,
        players: Vec<u64>,
        grid_size: u8,
        now: u64,
        game_id: GameId,
    ) -> (r: Result<(), Error>)
        requires
            old(self).wf(),
        ensures
            final(self).wf(),
            Self::created(*old(self), *final(self), who, players@, grid_size, now, game_id, r),
    {
        let number_of_players = players.len();
        if number_of_players < MIN_PLAYERS as usize {
            return Err(Error::NumberOfPlayersIsTooSmall);
        }
        if number_of_players > MAX_PLAYERS as usize {
            return Err(Error::NumberOfPlayersIsTooLarge);
        }
        if !is_valid_grid_size(grid_size) {
            return Err(Error::BadGridSize);
        }
        if players[0] != who {
            return Err(Error::CreatorNotInPlayersAtIndexZero);
        }
        if self.games.contains(&game_id) {
            return Err(Error::GameAlreadyCreated);
        }
        let mut i: usize = 0;
        while i < players.len()
            invariant
                i <= players@.len(),
                *self == *old(self),
                self.wf(),
                create_error(self.spec_boards(), self.spec_games(), who, players@, grid_size, game_id)
                    is None || create_error(
                    self.spec_boards(),
                    self.spec_games(),
                    who,
                    players@,
                    grid_size,
                    game_id,
                ) == Some(Error::AlreadyPlaying),
                forall|j: int| 0 <= j < i ==> !self.boards@.contains_key(#[trigger] players@[j]),
                forall|j: int, k: int| 0 <= j < k < i ==> players@[j] != players@[k],
            decreases players@.len() - i,
        {
            let p = players[i];
            if self.boards.contains_key(&p) {
                return Err(Error::AlreadyPlaying);
            }
            let mut k: usize = 0;
            while k < i
                invariant
                    k <= i < players@.len(),
                    *self == *old(self),
                    self.wf(),
                    create_error(self.spec_boards(), self.spec_games(), who, players@, grid_size, game_id)
                        is None || create_error(
                        self.spec_boards(),
                        self.spec_games(),
                        who,
                        players@,
                        grid_size,
                        game_id,
                    ) == Some(Error::AlreadyPlaying),
                    p == players@[i as int],
                    forall|j: int| 0 <= j < k ==> players@[j] != p,
                decreases i - k,
            {
                if players[k] == p {
                    proof {
                        assert(!players@.no_duplicates());
                    }
                    return Err(Error::AlreadyPlaying);
                }
                k = k + 1;
            }
            i = i + 1;
        }
        let ghost old_boards = self.boards@;
        let mut i: usize = 0;
        while i < players.len()
            invariant
                i <= players@.len(),
                valid_grid_size(grid_size as int),
                forall|j: int| 0 <= j < players@.len() ==> !old_boards.contains_key(#[trigger] players@[j]),
                players@.no_duplicates(),
                forall|p: u64| #[trigger]
                    self.boards@.contains_key(p) == (old_boards.contains_key(p) || players@.take(
                        i as int,
                    ).contains(p)),
                forall|p: u64| #[trigger]
                    old_boards.contains_key(p) ==> self.boards@[p] == old_boards[p],
                forall|j: int|
                    0 <= j < i ==> fresh_board(
                        self.boards@[#[trigger] players@[j]],
                        grid_size as int,
                        MatchmakingState::Joined(game_id),
                    ),
                forall|p: u64| #[trigger] self.boards@.contains_key(p) ==> self.boards@[p].wf(),
                forall|p: u64| #[trigger] old_boards.contains_key(p) ==> old_boards[p].wf(),
                self.games == old(self).games,
                self.elo == old(self).elo,
                self.matchmaker == old(self).matchmaker,
            decreases players@.len() - i,
        {
            let board = HexBoard::try_new(grid_size as usize, MatchmakingState::Joined(game_id)).unwrap();
            let p = players[i];
            self.boards.insert(p, board);
            proof {
                assert(players@.take(i as int + 1) =~= players@.take(i as int).push(p));
                assert forall|j: int| 0 <= j < i implies players@[j] != p by {
                    assert(players@[j] != players@[i as int]);
                }
                assert forall|q: u64| #[trigger] players@.take(i as int + 1).contains(q) == (
                    players@.take(i as int).contains(q) || q == p) by {
                    if players@.take(i as int + 1).contains(q) {
                        let j = choose|j: int| 0 <= j < i + 1 && #[trigger] players@.take(i as int + 1)[j] == q;
                        if j < i {
                            assert(players@.take(i as int)[j] == q);
                        }
                    }
                    if players@.take(i as int).contains(q) {
                        let j = choose|j: int| 0 <= j < i && #[trigger] players@.take(i as int)[j] == q;
                        assert(players@.take(i as int + 1)[j] == q);
                    }
                    if q == p {
                        assert(players@.take(i as int + 1)[i as int] == q);
                    }
                }
            }
            i = i + 1;
        }
        assert(players@.take(players@.len() as int) =~= players@);
        let ghost players_view = players@;
        let created_players = players.clone();
        let game = Game::new(players, MAX_ROUNDS, now, &game_id);
        let selection = game.selection.clone();
        self.games.put(game_id, game);
        self.events.push(Event::NewTileSelection { game_id, selection });
        self.events.push(Event::GameCreated { game_id, grid_size, players: created_players });
        Ok(())
    }

    /// Places a tile for `who`, the player on turn, at tick `now`; see `play_move`.
    pub fn play(&mut self, who: u64, move_played: Move, now: u64) -> (r: Result<(), Error>)
        requires
            old(self).wf(),
        ensures
            final(self).wf(),
            final(self).spec_ratings() == old(self).spec_ratings(),
            final(self).spec_queues() == old(self).spec_queues(),
            turn_check(old(self).spec_boards(), old(self).spec_games(), who) matches Err(e) ==> r
                == Err::<(), Error>(e),
            turn_check(old(self).spec_boards(), old(self).spec_games(), who) matches Ok(id) ==> {
                let b = old(self).spec_boards()[who];
                let g = old(self).spec_games()[id];
                &&& r is Ok == (play_error(b, g, move_played) is None)
                &&& play_error(b, g, move_played) matches Some(e) ==> r == Err::<(), Error>(e)
                &&& r is Ok ==> {
                    &&& final(self).spec_boards() == old(self).spec_boards().insert(
                        who,
                        final(self).spec_boards()[who],
                    )
                    &&& final(self).spec_games() == old(self).spec_games().insert(
                        id,
                        final(self).spec_games()[id],
                    )
                    &&& played_board(b, g, move_played, final(self).spec_boards()[who])
                    &&& played_game(g, move_played, id, now, final(self).spec_games()[id])
                }
            },
            r is Err ==> final(self).spec_boards() == old(self).spec_boards()
                && final(self).spec_games() == old(self).spec_games(),
    {
        let game_id = match self.check_turn(who) {
            Ok(id) => id,
            Err(e) => {
                return Err(e);
            },
        };
        let mut board = self.take_board(who);
        let mut game = self.take_game(&game_id);
        let result = play_move(&mut board, &mut game, &game_id, move_played, now);
        let refilled = match result {
            Ok(f) => f,
            Err(_) => false,
        };
        if refilled {
            let selection = game.selection.clone();
            self.events.push(Event::SelectionRefilled { game_id, selection });
        }
        self.boards.insert(who, board);
        self.games.put(game_id, game);
        proof {
            assert(self.spec_boards() =~= old(self).spec_boards().insert(who, self.spec_boards()[who]));
            assert(self.spec_games() =~= old(self).spec_games().insert(game_id, self.spec_games()[game_id]));
            if result is Err {
                assert(self.spec_boards() =~= old(self).spec_boards());
                assert(self.spec_games() =~= old(self).spec_games());
            }
        }
        match result {
            Ok(_) => {
                self.events.push(Event::MovePlayed { game_id, player: who, move_played });
                Ok(())
            },
            Err(e) => Err(e),
        }
    }

    /// Upgrades the home at `place_index` of the board of `who`, the player on turn; see
    /// `upgrade_tile`.
    pub fn upgrade(&mut self, who: u64, place_index: u8) -> (r: Result<(), Error>)
        requires
            old(self).wf(),
        ensures
            final(self).wf(),
            final(self).spec_ratings() == old(self).spec_ratings(),
            final(self).spec_queues() == old(self).spec_queues(),
            final(self).spec_games() == old(self).spec_games(),
            turn_check(old(self).spec_boards(), old(self).spec_games(), who) matches Err(e) ==> r
                == Err::<(), Error>(e),
            turn_check(old(self).spec_boards(), old(self).spec_games(), who) is Ok ==> {
                let b = old(self).spec_boards()[who];
                let t = b.hex_grid@[place_index as int];
                &&& r == (match upgrade_error(b, place_index) {
                    Some(e) => Err::<(), Error>(e),
                    None => Ok(()),
                })
                &&& r is Ok ==> {
                    let nb = final(self).spec_boards()[who];
                    &&& final(self).spec_boards() == old(self).spec_boards().insert(who, nb)
                    &&& nb.resources@ == crate::market::upgrade_paid(b.resources@, t.level as int)
                    &&& nb.hex_grid@ == b.hex_grid@.update(
                        place_index as int,
                        Tile { level: (t.level + 1) as u8, ..t },
                    )
                    &&& nb.matchmaking_state == b.matchmaking_state
                }
            },
            r is Err ==> final(self).spec_boards() == old(self).spec_boards(),
    {
        let game_id = match self.check_turn(who) {
            Ok(id) => id,
            Err(e) => {
                return Err(e);
            },
        };
        let mut board = self.take_board(who);
        let result = upgrade_tile(&mut board, place_index);
        self.boards.insert(who, board);
        proof {
            assert(self.spec_boards() =~= old(self).spec_boards().insert(who, self.spec_boards()[who]));
            if result is Err {
                assert(self.spec_boards() =~= old(self).spec_boards());
            }
        }
        if result.is_ok() {
            self.events.push(Event::TileUpgraded { game_id, player: who, place_index });
        }
        result
    }

    /// Ends the turn of `who`, the player on turn, at tick `now`: a fresh selection if they
    /// placed nothing, the economy on their board, and then either their win (rated, boards
    /// released) or the next turn (a draw once the rounds are used up, boards released).
    pub fn finish_turn(&mut self, who: u64, now: u64) -> (r: Result<(), Error>)
        requires
            old(self).wf(),
        ensures
            final(self).wf(),
            final(self).spec_queues() == old(self).spec_queues(),
            turn_check(old(self).spec_boards(), old(self).spec_games(), who) matches Err(e) ==> {
                &&& r == Err::<(), Error>(e)
                &&& final(self).spec_boards() == old(self).spec_boards()
                &&& final(self).spec_games() == old(self).spec_games()
                &&& final(self).spec_ratings() == old(self).spec_ratings()
            },
            turn_check(old(self).spec_boards(), old(self).spec_games(), who) matches Ok(id) ==> {
                let b = old(self).spec_boards()[who];
                let g = old(self).spec_games()[id];
                let ng = final(self).spec_games()[id];
                let outcome = turn_outcome(b, ng);
                &&& r is Ok
                &&& final(self).spec_games() == old(self).spec_games().insert(id, ng)
                &&& ended_turn(g, b, id, now, ng)
                &&& ng.player_turn < ng.players@.len()
                &&& ng.round == (if outcome == TurnOutcome::Won {
                    g.round as int
                } else {
                    g.round + (if ng.player_turn == 0 {
                        1int
                    } else {
                        0int
                    })
                })
                &&& exists|nb: HexBoard|
                    #![auto]
                    {
                        &&& nb.resources@ == crate::economy::evaluate(
                            b.resources@,
                            b.hex_grid@,
                        )
                        &&& nb.hex_grid@ == b.hex_grid@
                        &&& nb.matchmaking_state == b.matchmaking_state
                        &&& final(self).spec_boards() == (match outcome {
                            TurnOutcome::Won => mark_boards(
                                old(self).spec_boards().insert(who, nb),
                                g.players@,
                                Some(g.player_turn as int),
                                g.players@.len(),
                            ),
                            TurnOutcome::Draw => mark_boards(
                                old(self).spec_boards().insert(who, nb),
                                g.players@,
                                None,
                                g.players@.len(),
                            ),
                            TurnOutcome::Next => old(self).spec_boards().insert(who, nb),
                        })
                    }
                &&& final(self).spec_ratings() == (if outcome == TurnOutcome::Won {
                    ratings_after_win(old(self).spec_ratings(), g.players@, g.player_turn as int)
                } else {
                    old(self).spec_ratings()
                })
            },
    {
        let game_id = match self.check_turn(who) {
            Ok(id) => id,
            Err(e) => {
                return Err(e);
            },
        };
        let mut board = self.take_board(who);
        let mut game = self.take_game(&game_id);
        let had_played = game.played;
        let outcome = finish_turn_on(&mut board, &mut game, &game_id, now);
        let ghost nb = board;
        if !had_played {
            let selection = game.selection.clone();
            self.events.push(Event::NewTileSelection { game_id, selection });
        }
        self.boards.insert(who, board);
        assert(self.boards@ =~= old(self).spec_boards().insert(who, nb));
        match outcome {
            TurnOutcome::Won => {
                self.reward_winner(&game.players, game.player_turn);
                self.mark_finished(&game.players, Some(game.player_turn));
                self.events.push(Event::GameFinished { game_id });
            },
            TurnOutcome::Draw => {
                self.mark_finished(&game.players, None);
                self.events.push(Event::GameFinished { game_id });
            },
            TurnOutcome::Next => {
                let next_player = game.players[game.player_turn as usize];
                self.events.push(Event::NewTurn { game_id, next_player });
            },
        }
        self.games.put(game_id, game);
        assert(self.spec_games() =~= old(self).spec_games().insert(game_id, game));
        Ok(())
    }

    /// Ends the turn of the player on turn in game `game_id` on behalf of `who`, another player
    /// of the game, once the player on turn has let more than the limit of ticks pass; the
    /// turn passes on as at the end of a turn, without a selection or an economy step.
    pub fn force_finish_turn(&mut self, who: u64, game_id: GameId, now: u64) -> (r: Result<
        (),
        Error,
    >)
        requires
            old(self).wf(),
        ensures
            final(self).wf(),
            final(self).spec_queues() == old(self).spec_queues(),
            final(self).spec_ratings() == old(self).spec_ratings(),
            r is Ok == (force_error(old(self).spec_games(), who, game_id, now) is None),
            force_error(old(self).spec_games(), who, game_id, now) matches Some(e) ==> {
                &&& r == Err::<(), Error>(e)
                &&& final(self).spec_boards() == old(self).spec_boards()
                &&& final(self).spec_games() == old(self).spec_games()
            },
            r is Ok ==> {
                let g = old(self).spec_games()[game_id];
                let ng = (Game { last_played_block: now, ..g }).spec_advanced();
                &&& final(self).spec_games() == old(self).spec_games().insert(game_id, ng)
                &&& ng.player_turn < ng.players@.len()
                &&& ng.round == g.round + (if ng.player_turn == 0 {
                    1int
                } else {
                    0int
                })
                &&& final(self).spec_boards() == (if ng.state == GameState::Playing {
                    old(self).spec_boards()
                } else {
                    mark_boards(old(self).spec_boards(), g.players@, None, g.players@.len())
                })
            },
    {
        let (current_player, last_played_block) = match self.games.get(&game_id) {
            Some(game) => {
                if game.state != GameState::Playing {
                    return Err(Error::GameNotPlaying);
                }
                if !contains_player(&game.players, who) {
                    return Err(Error::PlayerNotInGame);
                }
                (game.players[game.player_turn as usize], game.last_played_block)
            },
            None => {
                return Err(Error::GameNotInitialized);
            },
        };
        if current_player == who {
            return Err(Error::CurrentPlayerCannotForceFinishTurn);
        }
        if !((last_played_block as u128) + (BLOCKS_TO_PLAY_LIMIT as u128) < now as u128) {
            return Err(Error::BlocksToPlayLimitNotPassed);
        }
        let mut game = self.take_game(&game_id);
        game.last_played_block = now;
        let ended = game.advance_turn();
        if ended {
            self.mark_finished(&game.players, None);
            self.events.push(Event::GameFinished { game_id });
        } else {
            let next_player = game.players[game.player_turn as usize];
            self.events.push(Event::NewTurn { game_id, next_player });
            self.events.push(Event::TurnForceFinished { game_id, player: current_player });
        }
        self.games.put(game_id, game);
        assert(self.spec_games() =~= old(self).spec_games().insert(game_id, game));
        Ok(())
    }

    /// Removes the game `game_id` and the boards of all its players, whatever state it is in.
    pub fn root_delete_game(&mut self, game_id: GameId) -> (r: Result<(), Error>)
        requires
            old(self).wf(),
        ensures
            final(self).wf(),
            final(self).spec_queues() == old(self).spec_queues(),
            final(self).spec_ratings() == old(self).spec_ratings(),
            r is Ok == old(self).spec_games().contains_key(game_id),
            r is Err ==> r == Err::<(), Error>(Error::GameNotInitialized)
                && final(self).spec_boards() == old(self).spec_boards() && final(self).spec_games()
                == old(self).spec_games(),
            r is Ok ==> {
                let players = old(self).spec_games()[game_id].players@;
                &&& final(self).spec_games() == old(self).spec_games().remove(game_id)
                &&& final(self).spec_boards() == remove_boards(
                    old(self).spec_boards(),
                    players,
                    players.len(),
                )
            },
    {
        if !self.games.contains(&game_id) {
            return Err(Error::GameNotInitialized);
        }
        let game = self.take_game(&game_id);
        let mut i: usize = 0;
        while i < game.players.len()
            invariant
                i <= game.players@.len(),
                self.boards@ == remove_boards(old(self).boards@, game.players@, i as nat),
                forall|p: u64| #[trigger] self.boards@.contains_key(p) ==> self.boards@[p].wf(),
                forall|p: u64| #[trigger] old(self).boards@.contains_key(p) ==> old(self).boards@[p].wf(),
                self.games.wf(),
                self.spec_games() == old(self).spec_games().remove(game_id),
                forall|id: GameId| #[trigger] self.games.view().contains_key(id) ==> self.games.view()[id].wf(),
                self.elo == old(self).elo,
                self.matchmaker == old(self).matchmaker,
            decreases game.players@.len() - i,
        {
            let _ = self.boards.remove(&game.players[i]);
            proof {
                assert(self.boards@ =~= remove_boards(old(self).boards@, game.players@, i as nat + 1));
            }
            i = i + 1;
        }
        Ok(())
    }

    /// Removes the board of `who` once their game has released it.
    pub fn receive_reward(&mut self, who: u64) -> (r: Result<(), Error>)
        requires
            old(self).wf(),
        ensures
            final(self).wf(),
            final(self).spec_games() == old(self).spec_games(),
            final(self).spec_queues() == old(self).spec_queues(),
            final(self).spec_ratings() == old(self).spec_ratings(),
            !old(self).spec_boards().contains_key(who) ==> r == Err::<(), Error>(
                Error::HexBoardNotInitialized,
            ),
            old(self).spec_boards().contains_key(who) ==> r == (if old(
                self,
            ).spec_boards()[who].matchmaking_state is Finished {
                Ok::<(), Error>(())
            } else {
                Err(Error::HexBoardNotInFinishedState)
            }),
            final(self).spec_boards() == (if r is Ok {
                old(self).spec_boards().remove(who)
            } else {
                old(self).spec_boards()
            }),
    {
        match self.boards.get(&who) {
            Some(b) => {
                if !matches!(b.matchmaking_state, MatchmakingState::Finished(_)) {
                    return Err(Error::HexBoardNotInFinishedState);
                }
            },
            None => {
                return Err(Error::HexBoardNotInitialized);
            },
        }
        let _ = self.boards.remove(&who);
        Ok(())
    }

    /// Opens a board of `QUEUE_GRID_SIZE` cells for `who` and queues them in the first bracket
    /// at tick `now`; when a match forms, its players' boards join a new game under the id
    /// derived from the first matched player and `now`.
    pub fn queue(&mut self, who: u64, now: u64) -> (r: Result<(), Error>)
        requires
            old(self).wf(),
        ensures
            final(self).wf(),
            final(self).spec_ratings() == old(self).spec_ratings(),
            old(self).spec_boards().contains_key(who) ==> r == Err::<(), Error>(
                Error::AlreadyPlaying,
            ),
            !old(self).spec_boards().contains_key(who) && queued_in(old(self).spec_queues(), who)
                ==> r == Err::<(), Error>(Error::AlreadyQueued),
            r is Ok == (!old(self).spec_boards().contains_key(who) && !queued_in(
                old(self).spec_queues(),
                who,
            )),
            r is Err ==> final(self).spec_boards() == old(self).spec_boards()
                && final(self).spec_games() == old(self).spec_games() && final(self).spec_queues()
                == old(self).spec_queues(),
            r is Ok ==> {
                let qs = old(self).spec_queues().update(0, old(self).spec_queues()[0].push(who));
                let k = AMOUNT_PLAYERS as int;
                &&& final(self).spec_boards().contains_key(who)
                &&& if total_upto(qs, qs.len() as int) >= k {
                    let matched = taken_upto(qs, k, qs.len() as int);
                    &&& final(self).spec_queues() == Seq::new(qs.len(), |i: int| queue_after(qs, k, i))
                    &&& exists|id: GameId|
                        #![trigger id@]
                        {
                            &&& id@ == game_id_of(matched[0], now)
                            &&& final(self).spec_games().contains_key(id)
                            &&& final(self).spec_games() == old(self).spec_games().insert(
                                id,
                                final(self).spec_games()[id],
                            )
                            &&& fresh_game(final(self).spec_games()[id], matched, now, id)
                            &&& exists|fb: HexBoard|
                                #![trigger fresh_board(fb, QUEUE_GRID_SIZE as int, MatchmakingState::Matchmaking)]
                                fresh_board(fb, QUEUE_GRID_SIZE as int, MatchmakingState::Matchmaking)
                                    && final(self).spec_boards() == join_boards(
                                    old(self).spec_boards().insert(who, fb),
                                    matched,
                                    id,
                                    matched.len(),
                                )
                        }
                } else {
                    &&& final(self).spec_queues() == qs
                    &&& final(self).spec_games() == old(self).spec_games()
                    &&& final(self).spec_boards() == old(self).spec_boards().insert(
                        who,
                        final(self).spec_boards()[who],
                    )
                    &&& fresh_board(
                        final(self).spec_boards()[who],
                        QUEUE_GRID_SIZE as int,
                        MatchmakingState::Matchmaking,
                    )
                }
            },
    {
        if self.boards.contains_key(&who) {
            return Err(Error::AlreadyPlaying);
        }
        if self.matchmaker.is_queued(who) {
            return Err(Error::AlreadyQueued);
        }
        let board = HexBoard::try_new(QUEUE_GRID_SIZE as usize, MatchmakingState::Matchmaking).unwrap();
        let ghost fresh = board;
        self.boards.insert(who, board);
        let added = self.matchmaker.add_queue(who, 0);
        assert(added is Ok);
        let potential_players = self.matchmaker.try_match();
        if potential_players.len() >= 1 && potential_players.len() <= MAX_PLAYERS as usize {
            let game_id = new_game_id(potential_players[0], now);
            let ghost mm = self.matchmaker;
            let mut i: usize = 0;
            while i < potential_players.len()
                invariant
                    i <= potential_players@.len(),
                    self.boards@ == join_boards(
                        old(self).spec_boards().insert(who, fresh),
                        potential_players@,
                        game_id,
                        i as nat,
                    ),
                    self.boards@.contains_key(who),
                    forall|p: u64| #[trigger] self.boards@.contains_key(p) ==> self.boards@[p].wf(),
                    self.games == old(self).games,
                    self.elo == old(self).elo,
                    self.matchmaker == mm,
                decreases potential_players@.len() - i,
            {
                let p = potential_players[i];
                let ghost prev = self.boards@;
                match self.boards.remove(&p) {
                    Some(mut b) => {
                        b.matchmaking_state = MatchmakingState::Joined(game_id);
                        self.boards.insert(p, b);
                    },
                    None => {},
                }
                proof {
                    if prev.contains_key(p) {
                        assert(self.boards@ =~= prev.insert(
                            p,
                            HexBoard { matchmaking_state: MatchmakingState::Joined(game_id), ..prev[p] },
                        ));
                    } else {
                        assert(self.boards@ =~= prev);
                    }
                }
                i = i + 1;
            }
            proof {
                let qs = old(self).spec_queues().update(0, old(self).spec_queues()[0].push(who));
                assert(potential_players@ == taken_upto(qs, 2, qs.len() as int));
                assert(game_id@ == game_id_of(taken_upto(qs, 2, qs.len() as int)[0], now));
            }
            let _ = self.games.take(&game_id);
            let created_players = potential_players.clone();
            let game = Game::new(potential_players, MAX_ROUNDS, now, &game_id);
            self.games.put(game_id, game);
            assert(self.spec_games() =~= old(self).spec_games().insert(game_id, game));
            self.events.push(Event::GameCreated { game_id, grid_size: QUEUE_GRID_SIZE, players: created_players });
            proof {
                let qs = old(self).spec_queues().update(0, old(self).spec_queues()[0].push(who));
                let matched = taken_upto(qs, 2, qs.len() as int);
                assert(total_upto(qs, qs.len() as int) >= 2);
                assert(self.spec_queues() == Seq::new(qs.len(), |i: int| queue_after(qs, 2, i)));
                assert(fresh_game(self.spec_games()[game_id], matched, now, game_id));
                assert(self.spec_games().contains_key(game_id));
                assert(game_id@ == game_id_of(matched[0], now));
                assert(fresh_board(fresh, QUEUE_GRID_SIZE as int, MatchmakingState::Matchmaking));
                assert(exists|id: GameId|
                    #![trigger id@]
                    {
                        &&& id@ == game_id_of(matched[0], now)
                        &&& self.spec_games().contains_key(id)
                        &&& self.spec_games() == old(self).spec_games().insert(
                            id,
                            self.spec_games()[id],
                        )
                        &&& fresh_game(self.spec_games()[id], matched, now, id)
                        &&& exists|fb: HexBoard|
                            #![trigger fresh_board(fb, QUEUE_GRID_SIZE as int, MatchmakingState::Matchmaking)]
                            fresh_board(fb, QUEUE_GRID_SIZE as int, MatchmakingState::Matchmaking)
                                && self.spec_boards() == join_boards(
                                old(self).spec_boards().insert(who, fb),
                                matched,
                                id,
                                matched.len(),
                            )
                    });
            }
        } else {
            proof {
                let qs = old(self).spec_queues().update(0, old(self).spec_queues()[0].push(who));
                assert(total_upto(qs, qs.len() as int) < 2);
                assert(self.spec_queues() == qs);
                assert(self.spec_boards() == old(self).spec_boards().insert(who, fresh));
            }
        }
        Ok(())
    }
}

} // verus!
