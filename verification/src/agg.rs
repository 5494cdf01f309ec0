//! The per-category accumulator: for each player identity, the running
//! IEEE-754 sum of that player's record scores and the count of
//! contributing records, across all processed games. Entries keep first
//! insertion order; the count stays put at its ceiling rather than wrap.

use vstd::prelude::*;
use vstd::string::*;
use crate::fbits::ZERO_BITS;
use crate::fbits::add_bits;
use crate::fbits::add_scores;
use crate::text::find_key;
use crate::text::lemma_find_key;
use crate::text::str_eq;

verus! {

#[derive(Debug)]
pub struct PlayerTotal {
    pub player: String,
    pub total: u64,
    pub count: u64,
}

/// Per-player running totals of one category, player identities unique.
#[derive(Debug)]
pub struct ScoreAccumulator {
    pub entries: Vec<PlayerTotal>,
}

impl View for ScoreAccumulator {
    type V = Seq<(Seq<char>, (u64, u64))>;

    open spec fn view(&self) -> Seq<(Seq<char>, (u64, u64))> {
        Seq::new(
            self.entries@.len(),
            |i: int| (self.entries@[i].player@, (self.entries@[i].total, self.entries@[i].count)),
        )
    }
}

/// Player identities pairwise distinct.
pub open spec fn acc_wf(m: Seq<(Seq<char>, (u64, u64))>) -> bool {
    forall|i: int, j: int| 0 <= i < j < m.len() ==> m[i].0 != m[j].0
}

pub open spec fn bump_count(c: u64) -> u64 {
    if c == u64::MAX {
        c
    } else {
        (c + 1) as u64
    }
}

/// Add one contribution of `s` for player `p`: a new player starts from
/// `(+0.0, 0)`, then the score is added to the sum and the count steps up.
pub open spec fn acc_insert(m: Seq<(Seq<char>, (u64, u64))>, p: Seq<char>, s: u64) -> Seq<
    (Seq<char>, (u64, u64)),
> {
    let i = find_key(m, p);
    if i == -1 {
        m.push((p, (add_bits(ZERO_BITS, s), 1)))
    } else {
        m.update(i, (p, (add_bits(m[i].1.0, s), bump_count(m[i].1.1))))
    }
}

impl ScoreAccumulator {
    pub open spec fn wf(&self) -> bool {
        acc_wf(self@)
    }

    pub fn new() -> (a: Self)
        ensures
            a@ == Seq::<(Seq<char>, (u64, u64))>::empty(),
            a.wf(),
    {
        let a = ScoreAccumulator { entries: Vec::new() };
        proof {
            assert(a@ =~= Seq::<(Seq<char>, (u64, u64))>::empty());
        }
        a
    }

    /// Record one contribution of `score` for `player`.
    pub fn accumulate(&mut self, player: &String, score: u64)
        requires
            old(self).wf(),
        ensures
            final(self)@ == acc_insert(old(self)@, player@, score),
            final(self).wf(),
    {
        let ghost m0 = self@;
        let mut i: usize = 0;
        while i < self.entries.len()
            invariant
                self == old(self),
                m0 == self@,
                acc_wf(m0),
                i <= self.entries@.len(),
                m0.len() == self.entries@.len(),
                forall|j: int| 0 <= j < i ==> m0[j].0 != player@,
            decreases self.entries@.len() - i,
        {
            if str_eq(self.entries[i].player.as_str(), player.as_str()) {
                proof {
                    assert(m0[i as int].0 == player@);
                    lemma_find_key(m0, player@);
                    assert(find_key(m0, player@) == i);
                }
                let total = add_scores(self.entries[i].total, score);
                let c = self.entries[i].count;
                let count = if c == u64::MAX {
                    c
                } else {
                    c + 1
                };
                let name = self.entries[i].player.clone();
                self.entries[i] = PlayerTotal { player: name, total, count };
                proof {
                    assert(forall|k: int| 0 <= k < m0.len() ==> self@[k].0 == m0[k].0);
                    assert(self@ =~= acc_insert(m0, player@, score));
                }
                return ;
            }
            i += 1;
        }
        proof {
            lemma_find_key(m0, player@);
            assert(find_key(m0, player@) == -1);
        }
        let start = add_scores(ZERO_BITS, score);
        self.entries.push(PlayerTotal { player: player.clone(), total: start, count: 1 });
        proof {
            assert(self@ =~= m0.push((player@, (add_bits(ZERO_BITS, score), 1))));
        }
    }

    /// The totals stored for `player`, if any: (score sum, count).
    pub fn totals_for(&self, player: &str) -> (r: Option<(u64, u64)>)
        ensures
            ({
                let i = find_key(self@, player@);
                if i == -1 {
                    r is None
                } else {
                    r == Some(self@[i].1)
                }
            }),
    {
        let ghost m0 = self@;
        proof {
            lemma_find_key(m0, player@);
        }
        let mut i: usize = 0;
        while i < self.entries.len()
            invariant
                m0 == self@,
                i <= self.entries@.len(),
                m0.len() == self.entries@.len(),
                forall|j: int| 0 <= j < i ==> m0[j].0 != player@,
            decreases self.entries@.len() - i,
        {
            if str_eq(self.entries[i].player.as_str(), player) {
                proof {
                    assert(m0[i as int].0 == player@);
                    lemma_find_key(m0, player@);
                    assert(find_key(m0, player@) == i);
                }
                return Some((self.entries[i].total, self.entries[i].count));
            }
            i += 1;
        }
        None
    }

    /// How many players hold an entry.
    pub fn player_count(&self) -> (n: usize)
        ensures
            n == self@.len(),
    {
        self.entries.len()
    }
}

} // verus!
