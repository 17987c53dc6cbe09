//! A game: its players, turn order, rounds and the marketplace selection.
use vstd::prelude::*;

use crate::board::GameId;
use crate::config::{MAX_PLAYERS, MAX_TILE_SELECTION, NUMBER_OF_TILE_COSTS};

verus! {

/// Where a game stands: running, or finished with the index of the winner (none: a draw).
#[derive(Clone, Copy, Debug, PartialEq, Eq, Structural)]
pub enum GameState {
    Playing,
    Finished { winner: Option<u8> },
}

/// A game.
#[derive(Debug)]
pub struct Game {
    pub state: GameState,
    /// Index of the player on turn.
    pub player_turn: u8,
    /// Whether the player on turn has placed a tile this turn.
    pub played: bool,
    /// Tick of the last finished turn.
    pub last_played_block: u64,
    /// The players in turn order; the creator comes first.
    pub players: Vec<u64>,
    /// Positions in the offer table of the offers on sale.
    pub selection: Vec<u8>,
    /// Number of offers a full selection holds.
    pub selection_size: u8,
    pub round: u8,
    pub max_rounds: u8,
}

/// Offer drawn into slot `i` of a selection: the byte of `base` at `(i + now % 32) % 32`,
/// reduced modulo the number of offers.
pub open spec fn spec_draw(base: Seq<u8>, i: int, now: int) -> u8 {
    (base[(i + now % 32) % 32] % NUMBER_OF_TILE_COSTS as u8) as u8
}

/// A fresh selection of `size` offers.
pub open spec fn spec_new_selection(base: Seq<u8>, size: int, now: int) -> Seq<u8> {
    Seq::new(size as nat, |i: int| spec_draw(base, i, now))
}

/// Selection size after a refill: two more, capped at the largest size.
pub open spec fn grown_size(size: int) -> int {
    if size + 2 <= MAX_TILE_SELECTION {
        size + 2
    } else {
        MAX_TILE_SELECTION as int
    }
}

/// Whether a selection of `len` offers with target size `size` is due for a refill.
pub open spec fn needs_refill(len: int, size: int) -> bool {
    len <= size / 2
}

/// The selection after a refill check: when due, the size grows and the new slots are drawn.
pub open spec fn spec_refilled(sel: Seq<u8>, size: int, base: Seq<u8>, now: int) -> Seq<u8> {
    if needs_refill(sel.len() as int, size) {
        sel + Seq::new(
            (grown_size(size) - sel.len()) as nat,
            |k: int| spec_draw(base, sel.len() + k, now),
        )
    } else {
        sel
    }
}

/// The target size after a refill check.
pub open spec fn spec_refilled_size(len: int, size: int) -> int {
    if needs_refill(len, size) {
        grown_size(size)
    } else {
        size
    }
}

/// The turn after `turn` among `n` players.
pub open spec fn next_turn(turn: int, n: int) -> int {
    (turn + 1) % n
}

impl Game {
    /// Turn index within the players, bounded lists, and a running game within its rounds.
    pub open spec fn wf(&self) -> bool {
        &&& 1 <= self.players@.len() <= MAX_PLAYERS
        &&& self.player_turn < self.players@.len()
        &&& self.selection@.len() <= self.selection_size <= MAX_TILE_SELECTION
        &&& self.round <= self.max_rounds
        &&& (self.state == GameState::Playing ==> self.round < self.max_rounds)
    }

    /// The game after the turn passes on: the next player, a new round when the turn wraps to
    /// the first player, and a draw once `max_rounds` full rounds have been played.
    pub open spec fn spec_advanced(self) -> Game {
        let turn = next_turn(self.player_turn as int, self.players@.len() as int);
        let round = if turn == 0 {
            self.round + 1
        } else {
            self.round as int
        };
        Game {
            player_turn: turn as u8,
            round: round as u8,
            state: if turn == 0 && round >= self.max_rounds {
                GameState::Finished { winner: None }
            } else {
                self.state
            },
            ..self
        }
    }

    /// Passing the turn keeps the turn index within the players, and the round grows by one
    /// exactly when the turn wraps to the first player.
    pub proof fn lemma_turn_bound(self)
        requires
            self.wf(),
            self.state == GameState::Playing,
        ensures
            self.spec_advanced().wf(),
            self.spec_advanced().player_turn < self.players@.len(),
            self.spec_advanced().round == self.round + (if self.spec_advanced().player_turn == 0 {
                1int
            } else {
                0int
            }),
    {
    }

    /// A new game of `players` at tick `now`, with a selection of two offers drawn from
    /// `game_id`.
    pub fn new(players: Vec<u64>, max_rounds: u8, now: u64, game_id: &GameId) -> (r: Game)
        requires
            1 <= players@.len() <= MAX_PLAYERS,
            max_rounds >= 1,
        ensures
            r.wf(),
            r.state == GameState::Playing,
            r.player_turn == 0,
            !r.played,
            r.last_played_block == now,
            r.players@ == players@,
            r.selection_size == 2,
            r.selection@ == spec_new_selection(game_id@, 2, now as int),
            r.round == 0,
            r.max_rounds == max_rounds,
    {
        let mut game = Game {
            state: GameState::Playing,
            player_turn: 0,
            played: false,
            last_played_block: now,
            players,
            selection: Vec::new(),
            selection_size: 2,
            round: 0,
            max_rounds,
        };
        game.new_selection(game_id, now);
        game
    }

    /// Whether the player on turn has placed a tile this turn.
    pub fn get_played(&self) -> (r: bool)
        ensures
            r == self.played,
    {
        self.played
    }

    /// Sets whether the player on turn has placed a tile this turn.
    pub fn set_played(&mut self, played: bool)
        ensures
            *final(self) == (Game { played, ..*old(self) }),
    {
        self.played = played;
    }

    /// The current round.
    pub fn get_round(&self) -> (r: u8)
        ensures
            r == self.round,
    {
        self.round
    }

    /// Sets the current round.
    pub fn set_round(&mut self, round: u8)
        ensures
            *final(self) == (Game { round, ..*old(self) }),
    {
        self.round = round;
    }

    /// Index of the player on turn.
    pub fn get_player_turn(&self) -> (r: u8)
        ensures
            r == self.player_turn,
    {
        self.player_turn
    }

    /// Sets the index of the player on turn.
    pub fn set_player_turn(&mut self, turn: u8)
        ensures
            *final(self) == (Game { player_turn: turn, ..*old(self) }),
    {
        self.player_turn = turn;
    }

    /// The players in turn order.
    pub fn borrow_players(&self) -> (r: &Vec<u64>)
        ensures
            r@ == self.players@,
    {
        &self.players
    }

    /// Number of offers a full selection holds.
    pub fn get_selection_size(&self) -> (r: u8)
        ensures
            r == self.selection_size,
    {
        self.selection_size
    }

    /// Sets the number of offers a full selection holds.
    pub fn set_selection_size(&mut self, selection_size: u8)
        ensures
            *final(self) == (Game { selection_size, ..*old(self) }),
    {
        self.selection_size = selection_size;
    }

    /// Whether the game runs or how it ended.
    pub fn get_state(&self) -> (r: GameState)
        ensures
            r == self.state,
    {
        self.state
    }

    /// Sets the state of the game.
    pub fn set_state(&mut self, state: GameState)
        ensures
            *final(self) == (Game { state, ..*old(self) }),
    {
        self.state = state;
    }

    /// Replaces the selection by `selection_size` offers drawn from `selection_base` at `now`.
    pub fn new_selection(&mut self, selection_base: &GameId, now: u64)
        requires
            old(self).selection_size <= MAX_TILE_SELECTION,
        ensures
            final(self).selection@ == spec_new_selection(
                selection_base@,
                old(self).selection_size as int,
                now as int,
            ),
            *final(self) == (Game { selection: final(self).selection, ..*old(self) }),
    {
        let offset: usize = (now % 32) as usize;
        let size = self.selection_size as usize;
        let mut new_selection: Vec<u8> = Vec::new();
        let mut i: usize = 0;
        while i < size
            invariant
                i <= size,
                size == old(self).selection_size,
                size <= MAX_TILE_SELECTION,
                offset == now % 32,
                new_selection@ =~= spec_new_selection(selection_base@, i as int, now as int),
            decreases size - i,
        {
            new_selection.push(selection_base[(i + offset) % 32] % (NUMBER_OF_TILE_COSTS as u8));
            i = i + 1;
        }
        self.selection = new_selection;
    }

    /// When no more than half of the selection is left, grows the target size by two (up to
    /// the largest size) and draws the new slots; returns whether it did.
    pub fn refill_selection(&mut self, selection_base: &GameId, now: u64) -> (r: bool)
        requires
            old(self).selection@.len() <= old(self).selection_size <= MAX_TILE_SELECTION,
        ensures
            r == needs_refill(old(self).selection@.len() as int, old(self).selection_size as int),
            final(self).selection@ == spec_refilled(
                old(self).selection@,
                old(self).selection_size as int,
                selection_base@,
                now as int,
            ),
            final(self).selection_size as int == spec_refilled_size(
                old(self).selection@.len() as int,
                old(self).selection_size as int,
            ),
            final(self).selection@.len() <= final(self).selection_size <= MAX_TILE_SELECTION,
            *final(self) == (Game {
                selection: final(self).selection,
                selection_size: final(self).selection_size,
                ..*old(self)
            }),
    {
        let selection_len = self.selection.len();
        if selection_len > (self.selection_size / 2) as usize {
            return false;
        }
        let new_size: u8 = if self.selection_size as u32 + 2 <= MAX_TILE_SELECTION {
            self.selection_size + 2
        } else {
            MAX_TILE_SELECTION as u8
        };
        self.selection_size = new_size;
        let offset: usize = (now % 32) as usize;
        let ghost start = self.selection@;
        let mut i: usize = selection_len;
        while i < new_size as usize
            invariant
                selection_len <= i <= new_size,
                selection_len == start.len(),
                new_size <= MAX_TILE_SELECTION,
                offset == now % 32,
                self.selection@ =~= start + Seq::new(
                    (i - selection_len) as nat,
                    |k: int| spec_draw(selection_base@, selection_len + k, now as int),
                ),
                *self == (Game { selection: self.selection, selection_size: new_size, ..*old(self) }),
            decreases new_size - i,
        {
            self.selection.push(selection_base[(i + offset) % 32] % (NUMBER_OF_TILE_COSTS as u8));
            i = i + 1;
        }
        true
    }

    /// Passes the turn on: the next player, a new round when the turn wraps to the first
    /// player, and a draw once `max_rounds` full rounds have been played. Returns whether the
    /// game ended.
    pub fn advance_turn(&mut self) -> (ended: bool)
        requires
            old(self).wf(),
            old(self).state == GameState::Playing,
        ensures
            *final(self) == old(self).spec_advanced(),
            final(self).wf(),
            final(self).player_turn < final(self).players@.len(),
            final(self).round == old(self).round + (if final(self).player_turn == 0 {
                1int
            } else {
                0int
            }),
            ended == (final(self).state != GameState::Playing),
    {
        let n = self.players.len();
        let next = ((self.player_turn as usize + 1) % n) as u8;
        self.player_turn = next;
        if next == 0 {
            self.round = self.round + 1;
            if self.round >= self.max_rounds {
                self.state = GameState::Finished { winner: None };
                return true;
            }
        }
        false
    }
}

} // verus!
