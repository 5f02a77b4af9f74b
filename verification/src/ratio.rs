//! Exact non-negative fractions.

use vstd::prelude::*;

verus! {

/// A non-negative rational number, held as a numerator over a denominator.
///
/// Two fractions of equal value and different terms are different values of this type;
/// the order relations below compare values, not terms.
#[derive(Clone, Copy, Debug, PartialEq, Eq, Structural)]
pub struct Ratio {
    pub num: u64,
    pub den: u64,
}

impl Ratio {
    /// The denominator is not zero.
    pub open spec fn wf(&self) -> bool {
        self.den > 0
    }

    /// The fraction is well formed and greater than zero.
    pub open spec fn is_positive(&self) -> bool {
        self.num > 0 && self.den > 0
    }

    /// `self <= other` as rational numbers, for well-formed fractions.
    pub open spec fn le(&self, other: Ratio) -> bool {
        self.num * other.den <= other.num * self.den
    }

    /// Decides `self <= other` by cross multiplication in 128 bits.
    pub fn at_most(&self, other: &Ratio) -> (r: bool)
        ensures
            r == self.le(*other),
    {
        let lhs: u128 = wide_product(self.num, other.den);
        let rhs: u128 = wide_product(other.num, self.den);
        lhs <= rhs
    }
}

/// The product of two 64-bit numbers, which always fits in 128 bits.
pub fn wide_product(a: u64, b: u64) -> (r: u128)
    ensures
        r == a * b,
{
    assert(a * b <= 0xffff_ffff_ffff_ffff * 0xffff_ffff_ffff_ffff) by (nonlinear_arith)
        requires
            a <= 0xffff_ffff_ffff_ffff,
            b <= 0xffff_ffff_ffff_ffff,
    ;
    (a as u128) * (b as u128)
}

} // verus!
