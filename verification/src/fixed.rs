//! Fixed-point fractions.
//!
//! Fractional quantities are either integer counts of millionths
//! (`SCALE` stands for `1.0`, `SCALE / 2` for `0.5`) or, where they are
//! a share of two counts, the exact [`Fraction`] of the counts.

use vstd::prelude::*;

verus! {

/// The fixed-point unit: the integer that stands for `1.0`.
pub const SCALE: u64 = 1_000_000;

/// The exact fraction `num / den` of two counts; a zero denominator
/// stands for zero.
#[derive(Debug, Clone, Copy, PartialEq, Eq, Structural)]
pub struct Fraction {
    pub num: u64,
    pub den: u64,
}

/// The numerator of a fraction's value (zero when the denominator is).
pub open spec fn frac_num(f: Fraction) -> int {
    if f.den == 0 { 0 } else { f.num as int }
}

/// The denominator of a fraction's value (one when the denominator is zero).
pub open spec fn frac_den(f: Fraction) -> int {
    if f.den == 0 { 1 } else { f.den as int }
}

/// `a < b` as numbers.
pub open spec fn frac_lt(a: Fraction, b: Fraction) -> bool {
    frac_num(a) * frac_den(b) < frac_num(b) * frac_den(a)
}

/// `a <= b` as numbers.
pub open spec fn frac_le(a: Fraction, b: Fraction) -> bool {
    frac_num(a) * frac_den(b) <= frac_num(b) * frac_den(a)
}

/// `f >= p / q` as numbers (for `q > 0`).
pub open spec fn frac_at_least(f: Fraction, p: int, q: int) -> bool {
    q * frac_num(f) >= p * frac_den(f)
}

} // verus!
