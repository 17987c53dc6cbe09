//! Quick-match queues: players wait in brackets and are matched in queue order.
use vstd::prelude::*;

use crate::error::Error;

verus! {

/// Players in the first `i` queues.
pub open spec fn total_upto(qs: Seq<Seq<u64>>, i: int) -> int
    decreases i,
{
    if i <= 0 {
        0
    } else {
        total_upto(qs, i - 1) + qs[i - 1].len()
    }
}

/// Players taken from queue `i` when `k` are wanted and the queues before it gave `before`.
pub open spec fn take_count(qs: Seq<Seq<u64>>, k: int, i: int, before: int) -> int {
    if k - before < qs[i].len() {
        k - before
    } else {
        qs[i].len() as int
    }
}

/// The players taken from the first `i` queues when `k` are wanted: each queue gives from its
/// front until `k` are found.
pub open spec fn taken_upto(qs: Seq<Seq<u64>>, k: int, i: int) -> Seq<u64>
    decreases i,
{
    if i <= 0 {
        Seq::empty()
    } else {
        let prev = taken_upto(qs, k, i - 1);
        prev + qs[i - 1].take(take_count(qs, k, i - 1, prev.len() as int))
    }
}

/// Queue `i` after `k` players have been taken from the front of the queues in order.
pub open spec fn queue_after(qs: Seq<Seq<u64>>, k: int, i: int) -> Seq<u64> {
    qs[i].skip(take_count(qs, k, i, taken_upto(qs, k, i).len() as int))
}

/// As many players are taken as are wanted, or all of them when fewer wait.
pub proof fn lemma_taken_len(qs: Seq<Seq<u64>>, k: int, i: int)
    requires
        k >= 0,
        0 <= i <= qs.len(),
    ensures
        taken_upto(qs, k, i).len() == (if total_upto(qs, i) < k {
            total_upto(qs, i)
        } else {
            k
        }),
    decreases i,
{
    if i > 0 {
        lemma_taken_len(qs, k, i - 1);
    }
}

/// `p` waits in some queue.
pub open spec fn queued_in(qs: Seq<Seq<u64>>, p: u64) -> bool {
    exists|b: int| 0 <= b < qs.len() && qs[b].contains(p)
}

fn copy_queue(q: &Vec<u64>) -> (r: Vec<u64>)
    ensures
        r@ == q@,
{
    let mut r: Vec<u64> = Vec::new();
    let mut i: usize = 0;
    while i < q.len()
        invariant
            i <= q@.len(),
            r@ == q@.take(i as int),
        decreases q@.len() - i,
    {
        r.push(q[i]);
        assert(q@.take(i as int + 1) =~= q@.take(i as int).push(q@[i as int]));
        i = i + 1;
    }
    assert(q@.take(q@.len() as int) =~= q@);
    r
}

/// The quick-match queues, one per bracket.
pub struct Matchmaker {
    queues: Vec<Vec<u64>>,
    amount_players: u8,
}

impl Matchmaker {
    /// The queues, one per bracket, each in arrival order.
    pub closed spec fn view(&self) -> Seq<Seq<u64>> {
        Seq::new(self.queues@.len(), |b: int| self.queues@[b]@)
    }

    /// Players in one match.
    pub closed spec fn spec_amount_players(&self) -> int {
        self.amount_players as int
    }

    /// Empty queues for `amount_brackets` brackets, matching `amount_players` at a time.
    pub fn new(amount_players: u8, amount_brackets: u8) -> (r: Matchmaker)
        requires
            amount_players >= 1,
        ensures
            r.view() == Seq::new(amount_brackets as nat, |b: int| Seq::<u64>::empty()),
            r.spec_amount_players() == amount_players,
    {
        let mut queues: Vec<Vec<u64>> = Vec::new();
        let mut b: u8 = 0;
        while b < amount_brackets
            invariant
                b <= amount_brackets,
                queues@.len() == b,
                forall|i: int| 0 <= i < b ==> (#[trigger] queues@[i])@ == Seq::<u64>::empty(),
            decreases amount_brackets - b,
        {
            queues.push(Vec::new());
            b = b + 1;
        }
        let r = Matchmaker { queues, amount_players };
        assert(r.view() =~= Seq::new(amount_brackets as nat, |b: int| Seq::<u64>::empty()));
        r
    }

    /// Number of brackets.
    pub fn brackets_count(&self) -> (r: usize)
        ensures
            r == self.view().len(),
    {
        self.queues.len()
    }

    /// Players waiting in `bracket`; 0 for a bracket that does not exist.
    pub fn queue_size(&self, bracket: u8) -> (r: usize)
        ensures
            r == (if bracket < self.view().len() {
                self.view()[bracket as int].len()
            } else {
                0
            }),
    {
        if (bracket as usize) < self.queues.len() {
            self.queues[bracket as usize].len()
        } else {
            0
        }
    }

    /// Players waiting in all brackets, saturating.
    pub fn all_queue_size(&self) -> (r: usize)
        ensures
            r as int == (if total_upto(self.view(), self.view().len() as int) > usize::MAX {
                usize::MAX as int
            } else {
                total_upto(self.view(), self.view().len() as int)
            }),
    {
        let mut total: usize = 0;
        let mut i: usize = 0;
        while i < self.queues.len()
            invariant
                i <= self.queues@.len(),
                total as int == (if total_upto(self.view(), i as int) > usize::MAX {
                    usize::MAX as int
                } else {
                    total_upto(self.view(), i as int)
                }),
            decreases self.queues@.len() - i,
        {
            total = total.saturating_add(self.queues[i].len());
            i = i + 1;
        }
        total
    }

    /// Whether `player` waits in some bracket.
    pub fn is_queued(&self, player: u64) -> (r: bool)
        ensures
            r == queued_in(self.view(), player),
    {
        let mut b: usize = 0;
        while b < self.queues.len()
            invariant
                b <= self.queues@.len(),
                forall|j: int| 0 <= j < b ==> !(#[trigger] self.view()[j]).contains(player),
            decreases self.queues@.len() - b,
        {
            let q = &self.queues[b];
            let mut i: usize = 0;
            while i < q.len()
                invariant
                    b < self.queues@.len(),
                    i <= q@.len(),
                    q@ == self.view()[b as int],
                    forall|j: int| 0 <= j < i ==> q@[j] != player,
                decreases q@.len() - i,
            {
                if q[i] == player {
                    assert(self.view()[b as int][i as int] == player);
                    return true;
                }
                i = i + 1;
            }
            b = b + 1;
        }
        false
    }

    /// Puts `player` at the end of `bracket`. Fails with `AlreadyQueued` for a player waiting
    /// in any bracket, and with `InternalError` for a bracket that does not exist.
    pub fn add_queue(&mut self, player: u64, bracket: u8) -> (r: Result<(), Error>)
        ensures
            queued_in(old(self).view(), player) ==> r == Err::<(), Error>(
                Error::AlreadyQueued,
            ),
            !queued_in(old(self).view(), player) && bracket >= old(self).view().len() ==> r == Err::<
                (),
                Error,
            >(Error::InternalError),
            r is Ok == (!queued_in(old(self).view(), player) && bracket < old(self).view().len()),
            r is Ok ==> final(self).view() == old(self).view().update(
                bracket as int,
                old(self).view()[bracket as int].push(player),
            ),
            r is Err ==> final(self).view() == old(self).view(),
            final(self).spec_amount_players() == old(self).spec_amount_players(),
    {
        if self.is_queued(player) {
            return Err(Error::AlreadyQueued);
        }
        if bracket as usize >= self.queues.len() {
            return Err(Error::InternalError);
        }
        let mut q = copy_queue(&self.queues[bracket as usize]);
        q.push(player);
        self.queues.set(bracket as usize, q);
        assert(self.view() =~= old(self).view().update(
            bracket as int,
            old(self).view()[bracket as int].push(player),
        ));
        Ok(())
    }

    /// Empties `bracket`.
    pub fn empty_queue(&mut self, bracket: u8)
        ensures
            final(self).view() == (if bracket < old(self).view().len() {
                old(self).view().update(bracket as int, Seq::empty())
            } else {
                old(self).view()
            }),
            final(self).spec_amount_players() == old(self).spec_amount_players(),
    {
        if (bracket as usize) < self.queues.len() {
            self.queues.set(bracket as usize, Vec::new());
            assert(self.view() =~= old(self).view().update(bracket as int, Seq::empty()));
        }
    }

    /// Whether at least `k` players wait in all brackets together.
    fn enough_players(&self, k: usize) -> (r: bool)
        ensures
            r == (total_upto(self.view(), self.view().len() as int) >= k),
    {
        let mut found: usize = 0;
        let mut i: usize = 0;
        while i < self.queues.len()
            invariant
                i <= self.queues@.len(),
                found as int == (if total_upto(self.view(), i as int) > k {
                    k as int
                } else {
                    total_upto(self.view(), i as int)
                }),
            decreases self.queues@.len() - i,
        {
            let len = self.queues[i].len();
            found = if len >= k - found {
                k
            } else {
                found + len
            };
            i = i + 1;
        }
        found >= k
    }

    /// When enough players wait, takes one match's worth from the front of the brackets in
    /// bracket order and returns them; otherwise returns no one and changes nothing.
    pub fn try_match(&mut self) -> (r: Vec<u64>)
        ensures
            ({
                let qs = old(self).view();
                let k = old(self).spec_amount_players();
                if total_upto(qs, qs.len() as int) >= k {
                    &&& r@ == taken_upto(qs, k, qs.len() as int)
                    &&& r@.len() == k
                    &&& final(self).view() == Seq::new(qs.len(), |i: int| queue_after(qs, k, i))
                } else {
                    &&& r@ == Seq::<u64>::empty()
                    &&& final(self).view() == qs
                }
            }),
            final(self).spec_amount_players() == old(self).spec_amount_players(),
    {
        let k = self.amount_players as usize;
        if !self.enough_players(k) {
            return Vec::new();
        }
        let ghost qs = self.view();
        let mut result: Vec<u64> = Vec::new();
        let mut b: usize = 0;
        while b < self.queues.len()
            invariant
                b <= self.queues@.len(),
                self.queues@.len() == qs.len(),
                k == old(self).amount_players,
                self.amount_players == old(self).amount_players,
                qs == old(self).view(),
                result@ == taken_upto(qs, k as int, b as int),
                result@.len() <= k,
                forall|j: int| 0 <= j < b ==> (#[trigger] self.view()[j]) == queue_after(qs, k as int, j),
                forall|j: int| b <= j < qs.len() ==> (#[trigger] self.view()[j]) == qs[j],
            decreases self.queues@.len() - b,
        {
            let q = copy_queue(&self.queues[b]);
            assert(self.view()[b as int] == qs[b as int]);
            let need = k - result.len();
            let t = if need < q.len() {
                need
            } else {
                q.len()
            };
            let mut rest: Vec<u64> = Vec::new();
            let mut i: usize = 0;
            let ghost before = result@;
            while i < q.len()
                invariant
                    i <= q@.len(),
                    t <= q@.len(),
                    b < qs.len(),
                    q@ == qs[b as int],
                    before == taken_upto(qs, k as int, b as int),
                    t as int == take_count(qs, k as int, b as int, before.len() as int),
                    result@ == before + q@.take(if i < t {
                        i as int
                    } else {
                        t as int
                    }),
                    rest@ == (if i <= t {
                        Seq::<u64>::empty()
                    } else {
                        q@.subrange(t as int, i as int)
                    }),
                decreases q@.len() - i,
            {
                if i < t {
                    result.push(q[i]);
                    assert(q@.take(i as int + 1) =~= q@.take(i as int).push(q@[i as int]));
                } else {
                    rest.push(q[i]);
                    assert(q@.subrange(t as int, i as int + 1) =~= (if i <= t {
                        Seq::<u64>::empty()
                    } else {
                        q@.subrange(t as int, i as int)
                    }).push(q@[i as int]));
                }
                i = i + 1;
            }
            assert(rest@ =~= q@.skip(t as int));
            let ghost old_view = self.view();
            self.queues.set(b, rest);
            proof {
                assert(self.view() =~= old_view.update(b as int, rest@));
                assert forall|j: int| 0 <= j <= b implies (#[trigger] self.view()[j]) == queue_after(
                    qs,
                    k as int,
                    j,
                ) by {
                    if j == b {
                        assert(self.view()[j] == rest@);
                    }
                }
            }
            b = b + 1;
        }
        proof {
            assert(self.view() =~= Seq::new(qs.len(), |i: int| queue_after(qs, k as int, i)));
            lemma_taken_len(qs, k as int, qs.len() as int);
        }
        result
    }
}

} // verus!
