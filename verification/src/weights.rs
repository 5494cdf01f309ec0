//! The weight table of one category: feature names mapped to linear
//! coefficients (double bit patterns). Built from the rows of a two-column
//! table; on a duplicate feature name the last occurrence wins.

use vstd::prelude::*;
use vstd::string::*;
use crate::fbits::parse_double;
use crate::fbits::parse_score;
use crate::text::find_key;
use crate::text::lemma_find_key;
use crate::text::seq_views;
use crate::text::split_commas;
use crate::text::split_fields;
use crate::text::str_eq;

verus! {

#[derive(Debug)]
pub struct WeightEntry {
    pub name: String,
    pub weight: u64,
}

/// A feature-to-weight mapping with unique feature names, kept in first
/// insertion order.
#[derive(Debug)]
pub struct WeightTable {
    pub entries: Vec<WeightEntry>,
}

impl View for WeightTable {
    type V = Seq<(Seq<char>, u64)>;

    open spec fn view(&self) -> Seq<(Seq<char>, u64)> {
        Seq::new(self.entries@.len(), |i: int| (self.entries@[i].name@, self.entries@[i].weight))
    }
}

/// Feature names pairwise distinct.
pub open spec fn table_wf(t: Seq<(Seq<char>, u64)>) -> bool {
    forall|i: int, j: int| 0 <= i < j < t.len() ==> t[i].0 != t[j].0
}

/// Overwrite the weight of an existing feature name, or append a new entry.
pub open spec fn insert_weight_spec(t: Seq<(Seq<char>, u64)>, name: Seq<char>, w: u64) -> Seq<
    (Seq<char>, u64),
> {
    let i = find_key(t, name);
    if i == -1 {
        t.push((name, w))
    } else {
        t.update(i, (name, w))
    }
}

impl WeightTable {
    pub open spec fn wf(&self) -> bool {
        table_wf(self@)
    }

    pub fn new() -> (t: Self)
        ensures
            t@ == Seq::<(Seq<char>, u64)>::empty(),
            t.wf(),
    {
        let t = WeightTable { entries: Vec::new() };
        proof {
            assert(t@ =~= Seq::<(Seq<char>, u64)>::empty());
        }
        t
    }

    /// Set `name` to `w`; a later setting of the same name replaces the
    /// earlier weight in place.
    pub fn insert_weight(&mut self, name: String, w: u64)
        requires
            old(self).wf(),
        ensures
            final(self)@ == insert_weight_spec(old(self)@, name@, w),
            final(self).wf(),
    {
        let ghost t0 = self@;
        proof {
            lemma_find_key(t0, name@);
        }
        let mut i: usize = 0;
        while i < self.entries.len()
            invariant
                self == old(self),
                t0 == self@,
                table_wf(t0),
                i <= self.entries@.len(),
                t0.len() == self.entries@.len(),
                forall|j: int| 0 <= j < i ==> t0[j].0 != name@,
            decreases self.entries@.len() - i,
        {
            if str_eq(self.entries[i].name.as_str(), name.as_str()) {
                proof {
                    lemma_find_key(t0, name@);
                    assert(find_key(t0, name@) == i);
                }
                self.entries[i] = WeightEntry { name, weight: w };
                proof {
                    assert(forall|k: int| 0 <= k < t0.len() ==> self@[k].0 == t0[k].0);
                    assert(self@ =~= t0.update(i as int, (t0[i as int].0, w)));
                    assert(t0.update(i as int, (t0[i as int].0, w)) =~= insert_weight_spec(
                        t0,
                        t0[i as int].0,
                        w,
                    ));
                }
                return ;
            }
            i += 1;
        }
        proof {
            lemma_find_key(t0, name@);
            assert(find_key(t0, name@) == -1);
        }
        self.entries.push(WeightEntry { name, weight: w });
        proof {
            assert(self@ =~= t0.push((name@, w)));
        }
    }

    /// The weight stored under `name`, if any.
    pub fn lookup_weight(&self, name: &str) -> (r: Option<u64>)
        ensures
            ({
                let i = find_key(self@, name@);
                if i == -1 {
                    r is None
                } else {
                    r == Some(self@[i].1)
                }
            }),
    {
        let ghost t0 = self@;
        proof {
            lemma_find_key(t0, name@);
        }
        let mut i: usize = 0;
        while i < self.entries.len()
            invariant
                t0 == self@,
                i <= self.entries@.len(),
                t0.len() == self.entries@.len(),
                forall|j: int| 0 <= j < i ==> t0[j].0 != name@,
            decreases self.entries@.len() - i,
        {
            if str_eq(self.entries[i].name.as_str(), name) {
                proof {
                    assert(t0[i as int].0 == name@);
                    lemma_find_key(t0, name@);
                    assert(find_key(t0, name@) == i);
                }
                return Some(self.entries[i].weight);
            }
            i += 1;
        }
        None
    }
}

/// A weight row is a header-skipped line with a feature name, a comma, and a
/// floating-point weight.
pub open spec fn weight_row_ok(line: Seq<char>) -> bool {
    let cols = split_commas(line);
    cols.len() >= 2 && parse_double(cols[1]) is Some
}

/// The table built from rows `1..k` of the weight file, in order, later
/// rows overwriting earlier ones of the same feature name.
pub open spec fn table_upto(lines: Seq<Seq<char>>, k: int) -> Seq<(Seq<char>, u64)>
    decreases k,
{
    if k <= 1 {
        Seq::empty()
    } else {
        let cols = split_commas(lines[k - 1]);
        insert_weight_spec(table_upto(lines, k - 1), cols[0], parse_double(cols[1]).unwrap())
    }
}

/// A weight row whose weight column is missing or does not parse; `row`
/// identifies it.
#[derive(Debug, PartialEq, Clone)]
pub enum WeightError {
    MalformedWeight { row: usize },
}

/// Build a category's weight table from the lines of its two-column file.
/// The first line is a header and is skipped unread; each later row must
/// hold a feature name and a parsable weight, else the whole load fails
/// naming the first bad row.
pub fn build_weight_table(lines: &Vec<String>) -> (r: Result<WeightTable, WeightError>)
    ensures
        ({
            let lv = seq_views(lines@);
            match r {
                Ok(t) => {
                    &&& forall|i: int| 1 <= i < lv.len() ==> weight_row_ok(lv[i])
                    &&& t@ == table_upto(lv, lv.len() as int)
                    &&& t.wf()
                },
                Err(WeightError::MalformedWeight { row }) => {
                    &&& 1 <= row < lv.len()
                    &&& !weight_row_ok(lv[row as int])
                    &&& forall|i: int| 1 <= i < row ==> weight_row_ok(lv[i])
                },
            }
        }),
{
    let ghost lv = seq_views(lines@);
    let mut t = WeightTable::new();
    let mut row: usize = 1;
    while row < lines.len()
        invariant
            lv == seq_views(lines@),
            lv.len() == lines@.len(),
            1 <= row <= lines@.len() || (row == 1 && lines@.len() == 0),
            t@ == table_upto(lv, row as int),
            t.wf(),
            forall|i: int| 1 <= i < row ==> weight_row_ok(lv[i]),
        decreases lines@.len() - row,
    {
        let cols = split_fields(lines[row].as_str());
        proof {
            assert(lv[row as int] == lines@[row as int]@);
            assert(seq_views(cols@) == split_commas(lv[row as int]));
        }
        if cols.len() < 2 {
            return Err(WeightError::MalformedWeight { row });
        }
        proof {
            assert(cols@[1]@ == split_commas(lv[row as int])[1]);
            assert(cols@[0]@ == split_commas(lv[row as int])[0]);
        }
        match parse_score(cols[1].as_str()) {
            Some(w) => {
                let name = cols[0].clone();
                t.insert_weight(name, w);
            },
            None => {
                return Err(WeightError::MalformedWeight { row });
            },
        }
        row += 1;
    }
    Ok(t)
}

} // verus!
