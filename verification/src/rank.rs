//! The ranker: sort the accumulated (player, total score) pairs descending
//! by score and keep the top N. Scores are ordered by `rank_key`, which
//! places every NaN total below every number; players with equal scores
//! keep the accumulator's first-contribution order (a stable sort).

use vstd::prelude::*;
use vstd::string::*;
use crate::agg::ScoreAccumulator;
use crate::fbits::compute_rank_key;
use crate::fbits::rank_key;
use crate::text::seq_views;

verus! {

/// One ranked line item: a player and that player's total score bits.
#[derive(Debug)]
pub struct RankedEntry {
    pub player: String,
    pub score: u64,
}

impl View for RankedEntry {
    type V = (Seq<char>, u64);

    open spec fn view(&self) -> (Seq<char>, u64) {
        (self.player@, self.score)
    }
}

pub open spec fn entry_views(v: Seq<RankedEntry>) -> Seq<(Seq<char>, u64)> {
    Seq::new(v.len(), |i: int| v[i]@)
}

/// `a` ranks at least as high as `b`.
pub open spec fn entry_ge(a: (Seq<char>, u64), b: (Seq<char>, u64)) -> bool {
    rank_key(a.1) >= rank_key(b.1)
}

/// Scores non-increasing from first to last.
pub open spec fn sorted_desc(s: Seq<(Seq<char>, u64)>) -> bool {
    forall|i: int, j: int| 0 <= i < j < s.len() ==> entry_ge(s[i], s[j])
}

/// Insert `e` behind every entry ranking at least as high: a stable
/// descending insertion.
pub open spec fn insert_desc(s: Seq<(Seq<char>, u64)>, e: (Seq<char>, u64)) -> Seq<
    (Seq<char>, u64),
>
    decreases s.len(),
{
    if s.len() == 0 {
        seq![e]
    } else if entry_ge(s[0], e) {
        seq![s[0]] + insert_desc(s.drop_first(), e)
    } else {
        seq![e] + s
    }
}

/// The stable descending insertion sort of `s`.
pub open spec fn sort_desc(s: Seq<(Seq<char>, u64)>) -> Seq<(Seq<char>, u64)>
    decreases s.len(),
{
    if s.len() == 0 {
        Seq::empty()
    } else {
        insert_desc(sort_desc(s.drop_last()), s.last())
    }
}

/// Where `insert_desc` puts `e`: after the longest prefix ranking at least
/// as high.
pub open spec fn insert_point(s: Seq<(Seq<char>, u64)>, e: (Seq<char>, u64)) -> int
    decreases s.len(),
{
    if s.len() == 0 {
        0
    } else if entry_ge(s[0], e) {
        1 + insert_point(s.drop_first(), e)
    } else {
        0
    }
}

pub proof fn lemma_insert_desc_form(s: Seq<(Seq<char>, u64)>, e: (Seq<char>, u64))
    ensures
        ({
            let p = insert_point(s, e);
            &&& 0 <= p <= s.len()
            &&& insert_desc(s, e) =~= s.take(p) + seq![e] + s.skip(p)
            &&& forall|k: int| 0 <= k < p ==> entry_ge(s[k], e)
            &&& p < s.len() ==> !entry_ge(s[p], e)
        }),
    decreases s.len(),
{
    if s.len() == 0 {
        assert(insert_desc(s, e) =~= s.take(0) + seq![e] + s.skip(0));
    } else if entry_ge(s[0], e) {
        lemma_insert_desc_form(s.drop_first(), e);
        let p = insert_point(s, e);
        assert(s.take(p) =~= seq![s[0]] + s.drop_first().take(p - 1));
        assert(s.skip(p) =~= s.drop_first().skip(p - 1));
        assert(forall|k: int| 1 <= k < p ==> s[k] == s.drop_first()[k - 1]);
        assert(insert_desc(s, e) =~= s.take(p) + seq![e] + s.skip(p));
    } else {
        assert(s.skip(0) =~= s);
        assert(insert_desc(s, e) =~= s.take(0) + seq![e] + s.skip(0));
    }
}

/// Inserting into a sorted sequence keeps it sorted.
pub proof fn lemma_insert_desc_sorted(s: Seq<(Seq<char>, u64)>, e: (Seq<char>, u64))
    requires
        sorted_desc(s),
    ensures
        sorted_desc(insert_desc(s, e)),
{
    lemma_insert_desc_form(s, e);
    let p = insert_point(s, e);
    let t = insert_desc(s, e);
    assert(forall|i: int| 0 <= i < p ==> t[i] == s[i]);
    assert(t[p] == e);
    assert(forall|i: int| p < i < t.len() ==> t[i] == s[i - 1]);
    assert forall|i: int, j: int| 0 <= i < j < t.len() implies entry_ge(t[i], t[j]) by {
        if i == p && j > p {
            assert(!entry_ge(s[p], e));
            assert(t[j] == s[j - 1]);
            if p < j - 1 {
                assert(entry_ge(s[p], s[j - 1]));
            }
        }
    }
}

/// How often player `p` occurs among the entries.
pub open spec fn count_player(s: Seq<(Seq<char>, u64)>, p: Seq<char>) -> int
    decreases s.len(),
{
    if s.len() == 0 {
        0int
    } else {
        count_player(s.drop_last(), p) + if s.last().0 == p {
            1int
        } else {
            0int
        }
    }
}

pub proof fn lemma_count_player_concat(a: Seq<(Seq<char>, u64)>, b: Seq<(Seq<char>, u64)>, p: Seq<char>)
    ensures
        count_player(a + b, p) == count_player(a, p) + count_player(b, p),
    decreases b.len(),
{
    if b.len() == 0 {
        assert(a + b =~= a);
    } else {
        lemma_count_player_concat(a, b.drop_last(), p);
        assert((a + b).drop_last() =~= a + b.drop_last());
    }
}

proof fn lemma_count_player_insert(s: Seq<(Seq<char>, u64)>, e: (Seq<char>, u64), p: Seq<char>)
    ensures
        count_player(insert_desc(s, e), p) == count_player(s, p) + if e.0 == p {
            1int
        } else {
            0int
        },
{
    lemma_insert_desc_form(s, e);
    let q = insert_point(s, e);
    lemma_count_player_concat(s.take(q) + seq![e], s.skip(q), p);
    lemma_count_player_concat(s.take(q), seq![e], p);
    lemma_count_player_concat(s.take(q), s.skip(q), p);
    assert(s.take(q) + s.skip(q) =~= s);
    assert(seq![e].drop_last() =~= Seq::<(Seq<char>, u64)>::empty());
    assert(count_player(Seq::<(Seq<char>, u64)>::empty(), p) == 0);
    assert(seq![e].last() == e);
    assert(count_player(seq![e], p) == if e.0 == p {
        1int
    } else {
        0int
    });
}

/// Sorting neither drops, adds nor merges players: every identity occurs in
/// the sorted sequence exactly as often as it did before. In particular,
/// ranking a whole accumulator lists each of its players exactly once.
pub proof fn lemma_sort_desc_counts(s: Seq<(Seq<char>, u64)>, p: Seq<char>)
    ensures
        count_player(sort_desc(s), p) == count_player(s, p),
    decreases s.len(),
{
    if s.len() > 0 {
        lemma_sort_desc_counts(s.drop_last(), p);
        lemma_count_player_insert(sort_desc(s.drop_last()), s.last(), p);
    }
}

/// The sorted sequence has the input's length and is non-increasing: a
/// ranking never invents entries and always descends.
pub proof fn lemma_sort_desc_sorted(s: Seq<(Seq<char>, u64)>)
    ensures
        sort_desc(s).len() == s.len(),
        sorted_desc(sort_desc(s)),
    decreases s.len(),
{
    if s.len() > 0 {
        lemma_sort_desc_sorted(s.drop_last());
        lemma_insert_desc_sorted(sort_desc(s.drop_last()), s.last());
        lemma_insert_desc_form(sort_desc(s.drop_last()), s.last());
    }
}

/// The (player, total score) pairs of an accumulator, in entry order.
pub open spec fn ranked_input(m: Seq<(Seq<char>, (u64, u64))>) -> Seq<(Seq<char>, u64)> {
    Seq::new(m.len(), |i: int| (m[i].0, m[i].1.0))
}

/// The top `n` of the accumulator: all pairs sorted descending by score,
/// stable, then cut to at most `n` entries.
pub fn rank(acc: &ScoreAccumulator, n: usize) -> (r: Vec<RankedEntry>)
    ensures
        ({
            let full = sort_desc(ranked_input(acc@));
            entry_views(r@) == if n < full.len() {
                full.take(n as int)
            } else {
                full
            }
        }),
{
    let ghost input = ranked_input(acc@);
    let mut sorted: Vec<RankedEntry> = Vec::new();
    let mut idx: usize = 0;
    proof {
        assert(entry_views(sorted@) =~= sort_desc(input.take(0)));
    }
    while idx < acc.entries.len()
        invariant
            input == ranked_input(acc@),
            input.len() == acc.entries@.len(),
            idx <= acc.entries@.len(),
            sorted@.len() == idx,
            entry_views(sorted@) == sort_desc(input.take(idx as int)),
        decreases acc.entries@.len() - idx,
    {
        let ghost s0 = entry_views(sorted@);
        let e_player = acc.entries[idx].player.clone();
        let e_score = acc.entries[idx].total;
        let ghost ev = (e_player@, e_score);
        proof {
            assert(input[idx as int] == (acc.entries@[idx as int].player@, acc.entries@[idx as int].total));
            lemma_insert_desc_form(s0, ev);
        }
        let ekey = compute_rank_key(e_score);
        let mut j: usize = 0;
        while j < sorted.len()
            invariant
                s0 == entry_views(sorted@),
                sorted@.len() == s0.len(),
                j <= s0.len(),
                ekey == rank_key(ev.1),
                forall|k: int| 0 <= k < j ==> entry_ge(s0[k], ev),
            ensures
                j <= s0.len(),
                forall|k: int| 0 <= k < j ==> entry_ge(s0[k], ev),
                j < s0.len() ==> !entry_ge(s0[j as int], ev),
            decreases s0.len() - j,
        {
            proof {
                assert(s0[j as int] == sorted@[j as int]@);
            }
            if !(compute_rank_key(sorted[j].score) >= ekey) {
                break ;
            }
            j += 1;
        }
        proof {
            let p = insert_point(s0, ev);
            assert(j == p);
        }
        sorted.insert(j, RankedEntry { player: e_player, score: e_score });
        proof {
            assert(entry_views(sorted@) =~= s0.take(j as int) + seq![ev] + s0.skip(j as int));
            assert(entry_views(sorted@) =~= insert_desc(s0, ev));
            assert(input.take(idx + 1).drop_last() =~= input.take(idx as int));
            assert(input.take(idx + 1).last() == ev);
        }
        idx += 1;
    }
    proof {
        assert(input.take(input.len() as int) =~= input);
    }
    if sorted.len() > n {
        sorted.truncate(n);
        proof {
            let full = sort_desc(input);
            assert(entry_views(sorted@) =~= full.take(n as int));
        }
    } else {
        proof {
            let full = sort_desc(input);
            assert(entry_views(sorted@) =~= full);
        }
    }
    sorted
}

/// The emitted line for one category: the tag, then each ranked player's
/// identity followed by a comma and a space.
pub open spec fn line_text(tag: Seq<char>, players: Seq<Seq<char>>) -> Seq<char>
    decreases players.len(),
{
    if players.len() == 0 {
        tag
    } else {
        line_text(tag, players.drop_last()) + players.last() + seq![',', ' ']
    }
}

/// The players of the ranked entries, in rank order.
pub open spec fn players_of(v: Seq<RankedEntry>) -> Seq<Seq<char>> {
    Seq::new(v.len(), |i: int| v[i].player@)
}

/// Render one category's output line from its ranking.
pub fn render_ranking_line(tag: &str, ranking: &Vec<RankedEntry>) -> (out: String)
    ensures
        out@ == line_text(tag@, players_of(ranking@)),
{
    let mut out = String::from_str(tag);
    let mut i: usize = 0;
    proof {
        assert(players_of(ranking@).take(0) =~= Seq::<Seq<char>>::empty());
    }
    while i < ranking.len()
        invariant
            i <= ranking@.len(),
            out@ == line_text(tag@, players_of(ranking@).take(i as int)),
        decreases ranking@.len() - i,
    {
        out.append(ranking[i].player.as_str());
        out.append(", ");
        proof {
            reveal_strlit(", ");
            let ps = players_of(ranking@);
            assert(", "@ =~= seq![',', ' ']);
            assert(ps.take(i + 1).drop_last() =~= ps.take(i as int));
            assert(ps.take(i + 1).last() == ranking@[i as int].player@);
        }
        i += 1;
    }
    proof {
        assert(players_of(ranking@).take(ranking@.len() as int) =~= players_of(ranking@));
    }
    out
}

} // verus!
