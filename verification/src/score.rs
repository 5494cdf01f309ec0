//! The scorer: the weighted linear score of one record under one weight
//! table. For every weight entry whose feature name the record exposes, the
//! product of field value and weight is added to a sum that starts at
//! `+0.0`; entries with unknown names contribute nothing, silently.

use vstd::prelude::*;
use vstd::string::*;
use crate::fbits::ZERO_BITS;
use crate::fbits::add_bits;
use crate::fbits::add_scores;
use crate::fbits::mul_bits;
use crate::fbits::mul_scores;
use crate::records::AttackRecord;
use crate::records::DefenseRecord;
use crate::records::PassingRecord;
use crate::records::StatRecord;
use crate::weights::WeightTable;

verus! {

/// The score of `r` under the first `k` weight entries, summed left to
/// right in IEEE-754 double arithmetic, starting at `+0.0`.
pub open spec fn weighted_score_upto<R: StatRecord>(
    r: R,
    entries: Seq<(Seq<char>, u64)>,
    k: int,
) -> u64
    decreases k,
{
    if k <= 0 {
        ZERO_BITS
    } else {
        let prev = weighted_score_upto(r, entries, k - 1);
        match r.field_bits(entries[k - 1].0) {
            Some(f) => add_bits(prev, mul_bits(f, entries[k - 1].1)),
            None => prev,
        }
    }
}

/// The score of `r` under the whole weight table.
pub open spec fn weighted_score<R: StatRecord>(r: R, entries: Seq<(Seq<char>, u64)>) -> u64 {
    weighted_score_upto(r, entries, entries.len() as int)
}

/// A weight table whose every feature name is absent from the record's
/// schema scores `+0.0`; in particular the empty table does.
pub proof fn lemma_score_unmatched_is_zero<R: StatRecord>(r: R, entries: Seq<(Seq<char>, u64)>)
    requires
        forall|i: int| 0 <= i < entries.len() ==> r.field_bits(#[trigger] entries[i].0) is None,
    ensures
        weighted_score(r, entries) == ZERO_BITS,
{
    lemma_score_unmatched_upto(r, entries, entries.len() as int);
}

proof fn lemma_score_unmatched_upto<R: StatRecord>(r: R, entries: Seq<(Seq<char>, u64)>, k: int)
    requires
        k <= entries.len(),
        forall|i: int| 0 <= i < entries.len() ==> r.field_bits(#[trigger] entries[i].0) is None,
    ensures
        weighted_score_upto(r, entries, k) == ZERO_BITS,
    decreases k,
{
    if k > 0 {
        lemma_score_unmatched_upto(r, entries, k - 1);
    }
}

/// Compute the weighted score of `rec`, walking the table in order.
pub fn score_record<R: StatRecord>(rec: &R, table: &WeightTable) -> (s: u64)
    ensures
        s == weighted_score(*rec, table@),
{
    let ghost tv = table@;
    let mut acc: u64 = ZERO_BITS;
    let mut i: usize = 0;
    while i < table.entries.len()
        invariant
            tv == table@,
            tv.len() == table.entries@.len(),
            i <= table.entries@.len(),
            acc == weighted_score_upto(*rec, tv, i as int),
        decreases table.entries@.len() - i,
    {
        proof {
            assert(tv[i as int] == (table.entries@[i as int].name@, table.entries@[i as int].weight));
        }
        match rec.lookup(table.entries[i].name.as_str()) {
            Some(f) => {
                acc = add_scores(acc, mul_scores(f, table.entries[i].weight));
            },
            None => {},
        }
        i += 1;
    }
    acc
}

/// The score of a well-formed row under the table, computed straight from
/// the row's columns.
pub open spec fn row_score_upto<R: StatRecord>(
    cols: Seq<Seq<char>>,
    entries: Seq<(Seq<char>, u64)>,
    k: int,
) -> u64
    decreases k,
{
    if k <= 0 {
        ZERO_BITS
    } else {
        let prev = row_score_upto::<R>(cols, entries, k - 1);
        match R::row_field_bits(cols, entries[k - 1].0) {
            Some(f) => add_bits(prev, mul_bits(f, entries[k - 1].1)),
            None => prev,
        }
    }
}

pub open spec fn row_score<R: StatRecord>(cols: Seq<Seq<char>>, entries: Seq<(Seq<char>, u64)>) -> u64 {
    row_score_upto::<R>(cols, entries, entries.len() as int)
}

/// A record parsed from a well-formed row scores exactly what the row
/// scores.
pub proof fn lemma_score_from_row<R: StatRecord>(
    rec: R,
    cols: Seq<Seq<char>>,
    entries: Seq<(Seq<char>, u64)>,
)
    requires
        cols.len() >= R::row_width(),
        forall|c: int| 2 <= c < R::row_width() ==> !R::col_fails(cols, c),
        rec.matches_row(cols),
    ensures
        weighted_score(rec, entries) == row_score::<R>(cols, entries),
{
    rec.lemma_fields_from_row(cols);
    lemma_score_from_row_upto(rec, cols, entries, entries.len() as int);
}

proof fn lemma_score_from_row_upto<R: StatRecord>(
    rec: R,
    cols: Seq<Seq<char>>,
    entries: Seq<(Seq<char>, u64)>,
    k: int,
)
    requires
        forall|key: Seq<char>| rec.field_bits(key) == R::row_field_bits(cols, key),
    ensures
        weighted_score_upto(rec, entries, k) == row_score_upto::<R>(cols, entries, k),
    decreases k,
{
    if k > 0 {
        lemma_score_from_row_upto(rec, cols, entries, k - 1);
    }
}

impl DefenseRecord {
    /// The weighted composite score of this record under `weights`.
    pub fn calculate_score(&self, weights: &WeightTable) -> (s: u64)
        ensures
            s == weighted_score(*self, weights@),
    {
        score_record(self, weights)
    }
}

impl AttackRecord {
    /// The weighted composite score of this record under `weights`.
    pub fn calculate_score(&self, weights: &WeightTable) -> (s: u64)
        ensures
            s == weighted_score(*self, weights@),
    {
        score_record(self, weights)
    }
}

impl PassingRecord {
    /// The weighted composite score of this record under `weights`.
    pub fn calculate_score(&self, weights: &WeightTable) -> (s: u64)
        ensures
            s == weighted_score(*self, weights@),
    {
        score_record(self, weights)
    }
}

} // verus!
