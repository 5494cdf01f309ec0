//! Scores and weights are IEEE-754 double-precision values, carried
//! everywhere as their 64-bit bit patterns. The arithmetic itself is done by
//! a software implementation of IEEE-754 (`rustc_apfloat`), so every
//! operation is a pure function of the operands' bit patterns; the spec names
//! those functions without stating them.

use vstd::prelude::*;
use rustc_apfloat::Float;
use rustc_apfloat::Round;
use rustc_apfloat::ieee::Double;

verus! {

/// Bit pattern of the double `+0.0`, the starting value of every score sum.
pub const ZERO_BITS: u64 = 0;

/// The bit pattern of the IEEE-754 double sum of the doubles encoded by `a`
/// and `b`, rounded to nearest, ties to even.
pub uninterp spec fn add_bits(a: u64, b: u64) -> u64;

/// The bit pattern of the IEEE-754 double product of the doubles encoded by
/// `a` and `b`, rounded to nearest, ties to even.
pub uninterp spec fn mul_bits(a: u64, b: u64) -> u64;

/// The bit pattern of the double nearest to the integer `x`.
pub uninterp spec fn double_of_u32(x: u32) -> u64;

/// The bit pattern of the double nearest to the integer `x`.
pub uninterp spec fn double_of_i64(x: i64) -> u64;

/// The bit pattern of the double that the decimal text `s` denotes, or
/// `None` when `s` is not a floating-point literal.
pub uninterp spec fn parse_double(s: Seq<char>) -> Option<u64>;

/// Relies on `rustc_apfloat::ieee::Double::add_r` with round-to-nearest-even:
/// IEEE-754 double addition, a pure function of the operands' bit patterns.
#[verifier::external_body]
pub fn add_scores(a: u64, b: u64) -> (r: u64)
    ensures
        r == add_bits(a, b),
{
    let x = Double::from_bits(a as u128);
    let y = Double::from_bits(b as u128);
    x.add_r(y, Round::NearestTiesToEven).value.to_bits() as u64
}

/// Relies on `rustc_apfloat::ieee::Double::mul_r` with round-to-nearest-even:
/// IEEE-754 double multiplication, a pure function of the operands' bit
/// patterns.
#[verifier::external_body]
pub fn mul_scores(a: u64, b: u64) -> (r: u64)
    ensures
        r == mul_bits(a, b),
{
    let x = Double::from_bits(a as u128);
    let y = Double::from_bits(b as u128);
    x.mul_r(y, Round::NearestTiesToEven).value.to_bits() as u64
}

/// Relies on `rustc_apfloat::Float::from_u128`: conversion of an unsigned
/// integer to the nearest double, a pure function of the integer.
#[verifier::external_body]
pub fn score_of_u32(x: u32) -> (r: u64)
    ensures
        r == double_of_u32(x),
{
    Double::from_u128(x as u128).value.to_bits() as u64
}

/// Relies on `rustc_apfloat::Float::from_i128`: conversion of a signed
/// integer to the nearest double, a pure function of the integer.
#[verifier::external_body]
pub fn score_of_i64(x: i64) -> (r: u64)
    ensures
        r == double_of_i64(x),
{
    Double::from_i128(x as i128).value.to_bits() as u64
}

/// Relies on `rustc_apfloat::Float::from_str_r` with round-to-nearest-even:
/// parsing of a floating-point literal, a pure function of the text.
#[verifier::external_body]
pub fn parse_score(s: &str) -> (r: Option<u64>)
    ensures
        r == parse_double(s@),
{
    match Double::from_str_r(s, Round::NearestTiesToEven) {
        Ok(sa) => Some(sa.value.to_bits() as u64),
        Err(_) => None,
    }
}

/// True when `b` is the bit pattern of a NaN double: exponent all ones and a
/// nonzero mantissa.
pub open spec fn is_nan_bits(b: u64) -> bool {
    (b >> 52) & 0x7ff == 0x7ff && (b & 0xf_ffff_ffff_ffff) != 0
}

/// Total-order key for score bit patterns: unsigned comparison of the keys
/// orders the encoded doubles with every NaN at the very bottom, then the
/// negatives from most to least negative, then the non-negatives upward.
/// This is the ranking policy for scores that are not IEEE-comparable.
pub open spec fn rank_key(b: u64) -> u64 {
    if is_nan_bits(b) {
        0
    } else if b >= 0x8000_0000_0000_0000 {
        !b
    } else {
        b | 0x8000_0000_0000_0000
    }
}

/// Executable form of `rank_key`.
pub fn compute_rank_key(b: u64) -> (k: u64)
    ensures
        k == rank_key(b),
{
    if (b >> 52) & 0x7ff == 0x7ff && (b & 0xf_ffff_ffff_ffff) != 0 {
        0
    } else if b >= 0x8000_0000_0000_0000 {
        !b
    } else {
        b | 0x8000_0000_0000_0000
    }
}

} // verus!
