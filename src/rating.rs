//! Player ratings: a bucketed, asymmetric rating update after each finished game.
use vstd::prelude::*;
use std::collections::HashMap;

verus! {

broadcast use vstd::std_specs::hash::group_hash_axioms;

pub type Rating = u16;

/// Rating of a player who has not played yet.
pub const DEFAULT_RATING: Rating = 1000;

/// Rating of a player who has not played yet.
#[allow(non_snake_case)]
pub fn DefaultRating() -> (r: Rating)
    ensures
        r == DEFAULT_RATING,
{
    1000u16
}

/// A notification of a rating change.
#[derive(Clone, Copy, Debug, PartialEq, Eq, Structural)]
pub enum RatingEvent {
    RatingGained { player: u64, new_rating: Rating, rating_gained: Rating },
    RatingLost { player: u64, new_rating: Rating, rating_lost: Rating },
}

/// Points that the winner of a game between ratings `a` (winner) and `b` (loser) gains and
/// the loser concedes. An underdog's win is worth more as the gap grows (16 up to 32); a
/// favourite's win is worth less (16 down to 1).
pub open spec fn rating_change(a: int, b: int) -> int {
    if b > a {
        let d = b - a;
        if d < 200 {
            16 + d / 50
        } else if d < 500 {
            20 + (d - 200) / 25
        } else {
            32
        }
    } else {
        let d = a - b;
        if d < 200 {
            16 - d / 50
        } else if d < 475 {
            12 - (d - 200) / 25
        } else {
            1
        }
    }
}

pub open spec fn sat_add_u16(a: int, b: int) -> int {
    if a + b > u16::MAX {
        u16::MAX as int
    } else {
        a + b
    }
}

pub open spec fn sat_sub_u16(a: int, b: int) -> int {
    if a - b < 0 {
        0
    } else {
        a - b
    }
}

/// Rating of `p` in `m`, the default for players not in it.
pub open spec fn rating_in(m: Map<u64, Rating>, p: u64) -> int {
    if m.contains_key(p) {
        m[p] as int
    } else {
        DEFAULT_RATING as int
    }
}

/// Ratings after the first `n` of `losers` (other than `winner`) have each lost against a
/// winner rated `a`, with the winner's total gain.
pub open spec fn losses(m: Map<u64, Rating>, winner: u64, a: int, losers: Seq<u64>, n: nat) -> (
    Map<u64, Rating>,
    int,
)
    decreases n,
{
    if n == 0 {
        (m, 0)
    } else {
        let (prev, gain) = losses(m, winner, a, losers, (n - 1) as nat);
        let p = losers[n - 1];
        if p == winner {
            (prev, gain)
        } else {
            let b = rating_in(prev, p);
            let c = rating_change(a, b);
            (prev.insert(p, sat_sub_u16(b, c) as u16), sat_add_u16(gain, c))
        }
    }
}

/// The ratings of all players, with the notifications of their changes.
pub struct Elo {
    ratings: HashMap<u64, Rating>,
    events: Vec<RatingEvent>,
}

impl Elo {
    pub closed spec fn view(&self) -> Map<u64, Rating> {
        self.ratings@
    }

    pub closed spec fn spec_events(&self) -> Seq<RatingEvent> {
        self.events@
    }

    /// The rating changes so far, oldest first.
    pub fn events(&self) -> (r: &Vec<RatingEvent>)
        ensures
            r@ == self.spec_events(),
    {
        &self.events
    }

    /// No player rated yet.
    pub fn new() -> (r: Elo)
        ensures
            r.view() == Map::<u64, Rating>::empty(),
            r.spec_events() == Seq::<RatingEvent>::empty(),
    {
        Elo { ratings: HashMap::new(), events: Vec::new() }
    }

    /// Rating of `player`; 1000 for a player not rated yet.
    pub fn get_rating(&self, player: u64) -> (r: Rating)
        ensures
            r as int == rating_in(self.view(), player),
    {
        match self.ratings.get(&player) {
            Some(r) => *r,
            None => DefaultRating(),
        }
    }

    /// Sets the rating of `player`.
    pub fn set_rating(&mut self, player: u64, rating: Rating)
        ensures
            final(self).view() == old(self).view().insert(player, rating),
            final(self).spec_events() == old(self).spec_events(),
    {
        self.ratings.insert(player, rating);
    }

    /// Points won or lost in a game between `a` (the winner) and `b` (the loser).
    pub fn get_rating_change(a: Rating, b: Rating) -> (r: Rating)
        ensures
            r as int == rating_change(a as int, b as int),
            1 <= r <= 32,
    {
        if b > a {
            match b - a {
                0..=49 => 16,
                50..=99 => 17,
                100..=149 => 18,
                150..=199 => 19,
                200..=224 => 20,
                225..=249 => 21,
                250..=274 => 22,
                275..=299 => 23,
                300..=324 => 24,
                325..=349 => 25,
                350..=374 => 26,
                375..=399 => 27,
                400..=424 => 28,
                425..=449 => 29,
                450..=474 => 30,
                475..=499 => 31,
                _ => 32,
            }
        } else {
            match a - b {
                0..=49 => 16,
                50..=99 => 15,
                100..=149 => 14,
                150..=199 => 13,
                200..=224 => 12,
                225..=249 => 11,
                250..=274 => 10,
                275..=299 => 9,
                300..=324 => 8,
                325..=349 => 7,
                350..=374 => 6,
                375..=399 => 5,
                400..=424 => 4,
                425..=449 => 3,
                450..=474 => 2,
                _ => 1,
            }
        }
    }

    /// The winner gains and the loser concedes the points for their rating gap, saturating.
    pub fn update_rating(&mut self, winner: u64, loser: u64)
        ensures
            ({
                let a = rating_in(old(self).view(), winner);
                let b = rating_in(old(self).view(), loser);
                let c = rating_change(a, b);
                &&& final(self).view() == old(self).view().insert(winner, sat_add_u16(a, c) as u16).insert(
                    loser,
                    sat_sub_u16(b, c) as u16,
                )
                &&& final(self).spec_events() == old(self).spec_events().push(
                    RatingEvent::RatingGained {
                        player: winner,
                        new_rating: sat_add_u16(a, c) as u16,
                        rating_gained: c as u16,
                    },
                ).push(
                    RatingEvent::RatingLost {
                        player: loser,
                        new_rating: sat_sub_u16(b, c) as u16,
                        rating_lost: c as u16,
                    },
                )
            }),
    {
        let a = self.get_rating(winner);
        let b = self.get_rating(loser);
        let rating_change = Self::get_rating_change(a, b);
        let winner_new_rating = a.saturating_add(rating_change);
        let loser_new_rating = b.saturating_sub(rating_change);
        self.set_rating(winner, winner_new_rating);
        self.set_rating(loser, loser_new_rating);
        self.events.push(
            RatingEvent::RatingGained {
                player: winner,
                new_rating: winner_new_rating,
                rating_gained: rating_change,
            },
        );
        self.events.push(
            RatingEvent::RatingLost {
                player: loser,
                new_rating: loser_new_rating,
                rating_lost: rating_change,
            },
        );
    }

    /// `player` loses `amount` points, saturating at zero.
    pub fn lose_rating(&mut self, player: u64, amount: Rating)
        ensures
            final(self).view() == old(self).view().insert(
                player,
                sat_sub_u16(rating_in(old(self).view(), player), amount as int) as u16,
            ),
    {
        let rating = self.get_rating(player);
        let new_rating = rating.saturating_sub(amount);
        self.set_rating(player, new_rating);
        self.events.push(
            RatingEvent::RatingLost { player, new_rating, rating_lost: amount },
        );
    }

    /// The winner, rated as before the game, wins against every other listed player in turn:
    /// each loser concedes the points for their gap, and the winner gains their sum.
    pub fn update_ratings(&mut self, winner: u64, losers: &Vec<u64>)
        ensures
            ({
                let a = rating_in(old(self).view(), winner);
                let (m, gain) = losses(old(self).view(), winner, a, losers@, losers@.len());
                final(self).view() == m.insert(winner, sat_add_u16(a, gain) as u16)
            }),
    {
        let a = self.get_rating(winner);
        let mut winner_rating_change: Rating = 0;
        let mut i: usize = 0;
        while i < losers.len()
            invariant
                i <= losers.len(),
                a as int == rating_in(old(self).view(), winner),
                ({
                    let (m, gain) = losses(old(self).view(), winner, a as int, losers@, i as nat);
                    self.view() == m && winner_rating_change as int == gain
                }),
            decreases losers.len() - i,
        {
            let loser = losers[i];
            if loser != winner {
                let b = self.get_rating(loser);
                let rating_change = Self::get_rating_change(a, b);
                winner_rating_change = winner_rating_change.saturating_add(rating_change);
                let loser_new_rating = b.saturating_sub(rating_change);
                self.set_rating(loser, loser_new_rating);
                self.events.push(
                    RatingEvent::RatingLost {
                        player: loser,
                        new_rating: loser_new_rating,
                        rating_lost: rating_change,
                    },
                );
            }
            i = i + 1;
        }
        let winner_new_rating = a.saturating_add(winner_rating_change);
        self.set_rating(winner, winner_new_rating);
        self.events.push(
            RatingEvent::RatingGained {
                player: winner,
                new_rating: winner_new_rating,
                rating_gained: winner_rating_change,
            },
        );
    }
}

} // verus!
