//! Verified decimal integer parsing for the numeric statistic columns: an
//! optional sign, then one or more ASCII digits, the whole text and nothing
//! else, rejected on overflow.

use vstd::prelude::*;
use vstd::string::*;

verus! {

pub open spec fn is_ascii_digit(c: char) -> bool {
    '0' <= c && c <= '9'
}

pub open spec fn digit_value(c: char) -> int {
    (c as u32) as int - 48
}

pub open spec fn all_digits(s: Seq<char>) -> bool {
    forall|i: int| 0 <= i < s.len() ==> is_ascii_digit(s[i])
}

/// The value of a digit string, most significant digit first.
pub open spec fn digits_value(s: Seq<char>) -> int
    decreases s.len(),
{
    if s.len() == 0 {
        0
    } else {
        digits_value(s.drop_last()) * 10 + digit_value(s.last())
    }
}

pub proof fn lemma_digits_value_nonneg(s: Seq<char>)
    requires
        all_digits(s),
    ensures
        digits_value(s) >= 0,
    decreases s.len(),
{
    if s.len() > 0 {
        assert(all_digits(s.drop_last()));
        lemma_digits_value_nonneg(s.drop_last());
    }
}

/// A digit string is worth at least any of its prefixes.
pub proof fn lemma_digits_value_prefix(s: Seq<char>, i: int)
    requires
        all_digits(s),
        0 <= i <= s.len(),
    ensures
        digits_value(s.take(i)) <= digits_value(s),
    decreases s.len() - i,
{
    if i < s.len() {
        let t = s.take(i + 1);
        assert(all_digits(t));
        assert(t.drop_last() =~= s.take(i));
        lemma_digits_value_nonneg(s.take(i));
        assert(digits_value(t) == digits_value(s.take(i)) * 10 + digit_value(t.last()));
        assert(digit_value(t.last()) >= 0);
        assert(digits_value(s.take(i)) <= digits_value(t));
        lemma_digits_value_prefix(s, i + 1);
        assert(s.take(s.len() as int) =~= s);
    } else {
        assert(s.take(i) =~= s);
    }
}

/// The digit part of an integer literal: past a leading `+` or `-` if any.
pub open spec fn int_body(s: Seq<char>) -> Seq<char> {
    if s.len() > 0 && (s[0] == '+' || s[0] == '-') {
        s.drop_first()
    } else {
        s
    }
}

pub open spec fn is_negative_literal(s: Seq<char>) -> bool {
    s.len() > 0 && s[0] == '-'
}

/// What `s` denotes as an unsigned 32-bit decimal: a `+` at most, then only
/// digits, at least one, and a value within range.
pub open spec fn parse_u32_spec(s: Seq<char>) -> Option<u32> {
    let b = if s.len() > 0 && s[0] == '+' {
        s.drop_first()
    } else {
        s
    };
    if s.len() > 0 && s[0] == '-' {
        None
    } else if b.len() == 0 || !all_digits(b) {
        None
    } else if digits_value(b) > u32::MAX {
        None
    } else {
        Some(digits_value(b) as u32)
    }
}

/// What `s` denotes as a signed 64-bit decimal: a sign at most, then only
/// digits, at least one, and a value within range.
pub open spec fn parse_i64_spec(s: Seq<char>) -> Option<i64> {
    let b = int_body(s);
    if b.len() == 0 || !all_digits(b) {
        None
    } else {
        let v = if is_negative_literal(s) {
            -digits_value(b)
        } else {
            digits_value(b)
        };
        if v < i64::MIN || v > i64::MAX {
            None
        } else {
            Some(v as i64)
        }
    }
}

/// Parse the digit run `s@[start..]` into a magnitude no greater than
/// `limit`; `None` when a non-digit occurs or the value passes `limit`.
fn parse_magnitude(s: &str, start: usize, limit: u64) -> (r: Option<u64>)
    requires
        start <= s@.len(),
        limit >= 9,
    ensures
        ({
            let b = s@.subrange(start as int, s@.len() as int);
            match r {
                Some(v) => b.len() > 0 && all_digits(b) && digits_value(b) == v && v <= limit,
                None => b.len() == 0 || !all_digits(b) || digits_value(b) > limit,
            }
        }),
{
    let n = s.unicode_len();
    let ghost b = s@.subrange(start as int, n as int);
    if start == n {
        return None;
    }
    let mut v: u64 = 0;
    let mut i: usize = start;
    proof {
        assert(b.take(0) =~= Seq::<char>::empty());
    }
    while i < n
        invariant
            start <= i <= n,
            n == s@.len(),
            start < n,
            b == s@.subrange(start as int, n as int),
            forall|j: int| 0 <= j < i - start ==> is_ascii_digit(b[j]),
            v == digits_value(b.take(i - start)),
            v <= limit,
            limit >= 9,
        decreases n - i,
    {
        let c = s.get_char(i);
        proof {
            assert(b[i - start] == s@[i as int]);
        }
        if c < '0' || c > '9' {
            return None;
        }
        let d: u64 = (c as u32 as u64) - 48;
        proof {
            assert(48 <= c as u32 <= 57);
            assert(d <= 9);
            let t = b.take(i + 1 - start);
            assert(t.drop_last() =~= b.take(i - start));
            assert(t.last() == b[i - start]);
        }
        if v > (limit - d) / 10 {
            proof {
                let t = b.take(i + 1 - start);
                assert(digits_value(t) == v * 10 + d);
                assert(digits_value(t) > limit) by {
                    assert(v * 10 > ((limit - d) / 10) * 10) by (nonlinear_arith)
                        requires v > (limit - d) / 10;
                    assert(((limit - d) / 10) * 10 + 10 > limit - d);
                }
                if all_digits(b) {
                    lemma_digits_value_prefix(b, i + 1 - start);
                }
            }
            return None;
        }
        v = v * 10 + d;
        i += 1;
    }
    proof {
        assert(b.take(n - start) =~= b);
    }
    Some(v)
}

/// Parse `s` as `parse_u32_spec` states.
pub fn parse_u32(s: &str) -> (r: Option<u32>)
    ensures
        r == parse_u32_spec(s@),
{
    let n = s.unicode_len();
    if n == 0 {
        return None;
    }
    let c0 = s.get_char(0);
    if c0 == '-' {
        return None;
    }
    let start: usize = if c0 == '+' {
        1
    } else {
        0
    };
    proof {
        if start == 1 {
            assert(s@.subrange(1, n as int) =~= s@.drop_first());
        } else {
            assert(s@.subrange(0, n as int) =~= s@);
        }
    }
    match parse_magnitude(s, start, 0xffff_ffff) {
        Some(v) => Some(v as u32),
        None => None,
    }
}

/// Parse `s` as `parse_i64_spec` states.
pub fn parse_i64(s: &str) -> (r: Option<i64>)
    ensures
        r == parse_i64_spec(s@),
{
    let n = s.unicode_len();
    if n == 0 {
        return None;
    }
    let c0 = s.get_char(0);
    let negative = c0 == '-';
    let start: usize = if c0 == '+' || c0 == '-' {
        1
    } else {
        0
    };
    proof {
        if start == 1 {
            assert(s@.subrange(1, n as int) =~= s@.drop_first());
        } else {
            assert(s@.subrange(0, n as int) =~= s@);
        }
    }
    let limit: u64 = if negative {
        0x8000_0000_0000_0000
    } else {
        0x7fff_ffff_ffff_ffff
    };
    match parse_magnitude(s, start, limit) {
        Some(v) => {
            if negative {
                if v == 0x8000_0000_0000_0000 {
                    Some(i64::MIN)
                } else {
                    Some(-(v as i64))
                }
            } else {
                Some(v as i64)
            }
        },
        None => None,
    }
}

} // verus!
