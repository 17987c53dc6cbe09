//! In-memory keyed storage of games.
use vstd::prelude::*;

use crate::board::GameId;
use crate::game::Game;

verus! {

/// Whether two game ids are equal.
pub fn same_id(a: &GameId, b: &GameId) -> (r: bool)
    ensures
        r == (*a == *b),
{
    let mut i: usize = 0;
    while i < 32
        invariant
            i <= 32,
            forall|j: int| 0 <= j < i ==> a@[j] == b@[j],
        decreases 32 - i,
    {
        if a[i] != b[i] {
            return false;
        }
        i = i + 1;
    }
    assert(a@ =~= b@);
    assert(*a =~= *b);
    true
}

/// Games by id.
pub struct GameStore {
    entries: Vec<(GameId, Game)>,
}

/// Position of some entry with key `id`.
pub open spec fn has_key(s: Seq<(GameId, Game)>, id: GameId) -> bool {
    exists|i: int| 0 <= i < s.len() && (#[trigger] s[i]).0 == id
}

/// Keys are unique.
pub open spec fn keys_unique(s: Seq<(GameId, Game)>) -> bool {
    forall|i: int, j: int| 0 <= i < s.len() && 0 <= j < s.len() && i != j ==> (#[trigger] s[i]).0 != (#[trigger] s[j]).0
}

/// The map that a sequence of entries with unique keys stands for.
pub open spec fn as_map(s: Seq<(GameId, Game)>) -> Map<GameId, Game> {
    Map::new(
        |id: GameId| has_key(s, id),
        |id: GameId| s[choose|i: int| 0 <= i < s.len() && (#[trigger] s[i]).0 == id].1,
    )
}

proof fn lemma_found(s: Seq<(GameId, Game)>, i: int)
    requires
        keys_unique(s),
        0 <= i < s.len(),
    ensures
        as_map(s).contains_key(s[i].0),
        as_map(s)[s[i].0] == s[i].1,
{
    let id = s[i].0;
    assert(has_key(s, id));
    let j = choose|j: int| 0 <= j < s.len() && (#[trigger] s[j]).0 == id;
    assert(j == i);
}

impl GameStore {
    pub closed spec fn view(&self) -> Map<GameId, Game> {
        as_map(self.entries@)
    }

    pub closed spec fn wf(&self) -> bool {
        keys_unique(self.entries@)
    }

    /// No games.
    pub fn new() -> (r: GameStore)
        ensures
            r.wf(),
            r.view() == Map::<GameId, Game>::empty(),
    {
        let r = GameStore { entries: Vec::new() };
        assert(r.view() =~= Map::<GameId, Game>::empty());
        r
    }

    fn find(&self, id: &GameId) -> (r: Option<usize>)
        requires
            self.wf(),
        ensures
            r matches Some(i) ==> i < self.entries@.len() && self.entries@[i as int].0 == *id,
            r is None ==> !has_key(self.entries@, *id),
    {
        let mut i: usize = 0;
        while i < self.entries.len()
            invariant
                i <= self.entries@.len(),
                forall|j: int| 0 <= j < i ==> (#[trigger] self.entries@[j]).0 != *id,
            decreases self.entries@.len() - i,
        {
            if same_id(&self.entries[i].0, id) {
                return Some(i);
            }
            i = i + 1;
        }
        None
    }

    /// Whether a game is stored under `id`.
    pub fn contains(&self, id: &GameId) -> (r: bool)
        requires
            self.wf(),
        ensures
            r == self.view().contains_key(*id),
    {
        match self.find(id) {
            Some(i) => {
                proof {
                    lemma_found(self.entries@, i as int);
                }
                true
            },
            None => false,
        }
    }

    /// The game stored under `id`.
    pub fn get(&self, id: &GameId) -> (r: Option<&Game>)
        requires
            self.wf(),
        ensures
            r is Some == self.view().contains_key(*id),
            r matches Some(g) ==> *g == self.view()[*id],
    {
        match self.find(id) {
            Some(i) => {
                proof {
                    lemma_found(self.entries@, i as int);
                }
                Some(&self.entries[i].1)
            },
            None => None,
        }
    }

    /// Removes and returns the game stored under `id`.
    pub fn take(&mut self, id: &GameId) -> (r: Option<Game>)
        requires
            old(self).wf(),
        ensures
            final(self).wf(),
            r is Some == old(self).view().contains_key(*id),
            r matches Some(g) ==> g == old(self).view()[*id],
            final(self).view() == old(self).view().remove(*id),
    {
        match self.find(id) {
            Some(i) => {
                let ghost s = self.entries@;
                proof {
                    lemma_found(s, i as int);
                }
                let (_k, g) = self.entries.remove(i);
                let ghost t = self.entries@;
                assert(t =~= s.remove(i as int));
                assert forall|a: int, b: int|
                    0 <= a < t.len() && 0 <= b < t.len() && a != b implies (#[trigger] t[a]).0 != (
                    #[trigger] t[b]).0 by {
                    let a2 = if a < i { a } else { a + 1 };
                    let b2 = if b < i { b } else { b + 1 };
                    assert(t[a] == s[a2] && t[b] == s[b2]);
                }
                assert forall|k: GameId| #[trigger] as_map(t).contains_key(k) == as_map(
                    s,
                ).remove(*id).contains_key(k) by {
                    if has_key(t, k) {
                        let a = choose|a: int| 0 <= a < t.len() && (#[trigger] t[a]).0 == k;
                        let a2 = if a < i { a } else { a + 1 };
                        assert(s[a2].0 == k);
                        assert(k != *id);
                    }
                    if has_key(s, k) && k != *id {
                        let a = choose|a: int| 0 <= a < s.len() && (#[trigger] s[a]).0 == k;
                        assert(a != i);
                        let a2 = if a < i { a } else { a - 1 };
                        assert(t[a2].0 == k);
                    }
                }
                assert forall|k: GameId| #[trigger] as_map(t).contains_key(k) implies as_map(t)[k]
                    == as_map(s)[k] by {
                    let a = choose|a: int| 0 <= a < t.len() && (#[trigger] t[a]).0 == k;
                    lemma_found(t, a);
                    let a2 = if a < i { a } else { a + 1 };
                    assert(t[a] == s[a2]);
                    lemma_found(s, a2);
                }
                assert(as_map(t) =~= as_map(s).remove(*id));
                Some(g)
            },
            None => {
                assert(self.view() =~= old(self).view().remove(*id));
                None
            },
        }
    }

    /// Stores `game` under `id`, which holds no game.
    pub fn put(&mut self, id: GameId, game: Game)
        requires
            old(self).wf(),
            !old(self).view().contains_key(id),
        ensures
            final(self).wf(),
            final(self).view() == old(self).view().insert(id, game),
    {
        let ghost s = self.entries@;
        self.entries.push((id, game));
        let ghost t = self.entries@;
        assert forall|a: int| 0 <= a < s.len() implies (#[trigger] s[a]).0 != id by {
            assert(!has_key(s, id));
        }
        assert forall|k: GameId| #[trigger] as_map(t).contains_key(k) == as_map(s).insert(
            id,
            game,
        ).contains_key(k) by {
            if has_key(t, k) && k != id {
                let a = choose|a: int| 0 <= a < t.len() && (#[trigger] t[a]).0 == k;
                assert(a < s.len());
                assert(s[a].0 == k);
            }
            if has_key(s, k) {
                let a = choose|a: int| 0 <= a < s.len() && (#[trigger] s[a]).0 == k;
                assert(t[a].0 == k);
            }
            if k == id {
                assert(t[s.len() as int].0 == id);
            }
        }
        assert forall|k: GameId| #[trigger] as_map(t).contains_key(k) implies as_map(t)[k]
            == as_map(s).insert(id, game)[k] by {
            let a = choose|a: int| 0 <= a < t.len() && (#[trigger] t[a]).0 == k;
            lemma_found(t, a);
            if a < s.len() {
                assert(t[a] == s[a]);
                lemma_found(s, a);
            }
        }
        assert(as_map(t) =~= as_map(s).insert(id, game));
    }
}

} // verus!
