//! Verified text helpers: character-wise string equality and splitting a
//! line into its comma-separated fields.

use vstd::prelude::*;
use vstd::string::*;

verus! {

/// The views of a sequence of owned strings.
pub open spec fn seq_views(v: Seq<String>) -> Seq<Seq<char>> {
    Seq::new(v.len(), |i: int| v[i]@)
}

/// The first position whose key is `key` in a key-value sequence, or `-1`
/// when the key is absent.
pub open spec fn find_key<V>(m: Seq<(Seq<char>, V)>, key: Seq<char>) -> int
    decreases m.len(),
{
    if m.len() == 0 {
        -1
    } else if m[0].0 == key {
        0
    } else {
        let r = find_key(m.drop_first(), key);
        if r == -1 {
            -1
        } else {
            r + 1
        }
    }
}

pub proof fn lemma_find_key<V>(m: Seq<(Seq<char>, V)>, key: Seq<char>)
    ensures
        ({
            let r = find_key(m, key);
            &&& -1 <= r < m.len()
            &&& r >= 0 ==> m[r].0 == key && (forall|j: int| 0 <= j < r ==> m[j].0 != key)
            &&& r == -1 ==> forall|j: int| 0 <= j < m.len() ==> m[j].0 != key
        }),
    decreases m.len(),
{
    if m.len() > 0 && m[0].0 != key {
        lemma_find_key(m.drop_first(), key);
        assert(forall|j: int| 1 <= j < m.len() ==> m[j] == m.drop_first()[j - 1]);
    }
}

/// Character-wise equality of two string slices.
pub fn str_eq(a: &str, b: &str) -> (r: bool)
    ensures
        r == (a@ == b@),
{
    let na = a.unicode_len();
    let nb = b.unicode_len();
    if na != nb {
        return false;
    }
    let mut i: usize = 0;
    while i < na
        invariant
            na == a@.len(),
            na == b@.len(),
            i <= na,
            forall|j: int| 0 <= j < i ==> a@[j] == b@[j],
        decreases na - i,
    {
        if a.get_char(i) != b.get_char(i) {
            return false;
        }
        i += 1;
    }
    proof {
        assert(a@ =~= b@);
    }
    true
}

/// The fields of `s` split on `','`: one more field than there are commas,
/// in order, none containing a comma. The empty text has one empty field.
pub open spec fn split_commas(s: Seq<char>) -> Seq<Seq<char>>
    decreases s.len(),
{
    if s.len() == 0 {
        seq![Seq::<char>::empty()]
    } else if s[0] == ',' {
        seq![Seq::<char>::empty()] + split_commas(s.drop_first())
    } else {
        let rest = split_commas(s.drop_first());
        seq![seq![s[0]] + rest[0]] + rest.drop_first()
    }
}

pub proof fn lemma_split_commas_nonempty(s: Seq<char>)
    ensures
        split_commas(s).len() >= 1,
    decreases s.len(),
{
    if s.len() == 0 {
    } else {
        lemma_split_commas_nonempty(s.drop_first());
    }
}

/// A comma-free text is a single field.
pub proof fn lemma_split_commas_whole(s: Seq<char>)
    requires
        forall|i: int| 0 <= i < s.len() ==> s[i] != ',',
    ensures
        split_commas(s) =~~= seq![s],
    decreases s.len(),
{
    if s.len() == 0 {
        assert(split_commas(s) =~~= seq![s]);
    } else {
        assert(s[0] != ',');
        assert(forall|i: int| 0 <= i < s.drop_first().len() ==> s.drop_first()[i] != ',');
        lemma_split_commas_whole(s.drop_first());
        assert(seq![s[0]] + s.drop_first() =~= s);
        assert(split_commas(s) =~~= seq![s]);
    }
}

/// Splitting `a + "," + b` where `a` is comma-free yields `a` followed by
/// the fields of `b`.
pub proof fn lemma_split_commas_step(a: Seq<char>, b: Seq<char>)
    requires
        forall|i: int| 0 <= i < a.len() ==> a[i] != ',',
    ensures
        split_commas(a + seq![','] + b) =~~= seq![a] + split_commas(b),
    decreases a.len(),
{
    let s = a + seq![','] + b;
    lemma_split_commas_nonempty(b);
    if a.len() == 0 {
        assert(s[0] == ',');
        assert(s.drop_first() =~= b);
        assert(split_commas(s) =~~= seq![a] + split_commas(b));
    } else {
        assert(s[0] == a[0]);
        assert(s[0] != ',');
        let a1 = a.drop_first();
        assert(forall|i: int| 0 <= i < a1.len() ==> a1[i] != ',');
        lemma_split_commas_step(a1, b);
        assert(s.drop_first() =~= a1 + seq![','] + b);
        let rest = split_commas(s.drop_first());
        assert(rest =~~= seq![a1] + split_commas(b));
        lemma_split_commas_nonempty(s.drop_first());
        assert(rest[0] == a1);
        assert(seq![s[0]] + rest[0] =~= a);
        assert(rest.drop_first() =~~= split_commas(b));
        assert(split_commas(s) =~~= seq![a] + split_commas(b));
    }
}

/// Split a line into its comma-separated fields, as `split_commas` states.
pub fn split_fields(s: &str) -> (r: Vec<String>)
    ensures
        seq_views(r@) == split_commas(s@),
        r@.len() >= 1,
{
    let n = s.unicode_len();
    let mut r: Vec<String> = Vec::new();
    let mut start: usize = 0;
    let mut i: usize = 0;
    proof {
        assert(seq_views(r@) =~= Seq::<Seq<char>>::empty());
        assert(s@.subrange(0, n as int) =~= s@);
    }
    while i < n
        invariant
            n == s@.len(),
            start <= i <= n,
            forall|j: int| start <= j < i ==> s@[j] != ',',
            split_commas(s@) =~~= seq_views(r@) + split_commas(s@.subrange(start as int, n as int)),
        decreases n - i,
    {
        if s.get_char(i) == ',' {
            let field = String::from_str(s.substring_char(start, i));
            proof {
                let head = s@.subrange(start as int, i as int);
                let tail = s@.subrange(i + 1, n as int);
                assert(s@.subrange(start as int, n as int) =~= head + seq![','] + tail);
                lemma_split_commas_step(head, tail);
                assert(seq_views(r@.push(field)) =~= seq_views(r@) + seq![head]);
            }
            r.push(field);
            start = i + 1;
        }
        i += 1;
    }
    let last = String::from_str(s.substring_char(start, n));
    proof {
        let tail = s@.subrange(start as int, n as int);
        lemma_split_commas_whole(tail);
        assert(seq_views(r@.push(last)) =~= seq_views(r@) + seq![tail]);
        assert(seq_views(r@) + seq![tail] =~~= seq_views(r@) + split_commas(tail));
    }
    r.push(last);
    proof {
        assert(seq_views(r@) =~~= split_commas(s@));
    }
    r
}

} // verus!
