//! Prices and amounts as IEEE 754 binary64 bit patterns.
//!
//! The library carries a price by its bits and compares prices exactly as the floating-point
//! comparisons do. Reading, printing and computing with such numbers is left to the caller, who
//! converts with `to_bits` and `from_bits`.

use vstd::prelude::*;

verus! {

/// The bit patterns from here on have the sign bit set.
pub const SIGN: u64 = 0x8000_0000_0000_0000;

/// The bits of positive infinity. A larger magnitude is not a number.
pub const INFINITY: u64 = 0x7ff0_0000_0000_0000;

/// The bits of the number one.
pub const ONE_BITS: u64 = 0x3ff0_0000_0000_0000;

/// A binary64 number, held by its bits.
#[derive(Debug, Clone, Copy, PartialEq, Eq, Structural)]
pub struct Binary64 {
    pub bits: u64,
}

impl Binary64 {
    /// The bits without the sign. Among numbers of one sign, a larger magnitude is farther from
    /// zero.
    pub open spec fn magnitude(self) -> int {
        if self.bits >= SIGN {
            self.bits - SIGN
        } else {
            self.bits as int
        }
    }

    pub open spec fn nan(self) -> bool {
        self.magnitude() > INFINITY
    }

    /// Where the number stands in the order of the numbers. Both zeros stand at 0.
    pub open spec fn rank(self) -> int {
        if self.bits >= SIGN {
            -self.magnitude()
        } else {
            self.magnitude()
        }
    }

    /// `self < other`, false where either is not a number.
    pub open spec fn below(self, other: Binary64) -> bool {
        !self.nan() && !other.nan() && self.rank() < other.rank()
    }

    /// `self <= other`, false where either is not a number.
    pub open spec fn at_most(self, other: Binary64) -> bool {
        !self.nan() && !other.nan() && self.rank() <= other.rank()
    }

    /// `self > 0`.
    pub open spec fn positive(self) -> bool {
        !self.nan() && self.rank() > 0
    }

    /// The number with the other sign.
    pub open spec fn opposite(self) -> Binary64 {
        Binary64 {
            bits: if self.bits >= SIGN {
                (self.bits - SIGN) as u64
            } else {
                (self.bits + SIGN) as u64
            },
        }
    }

    pub fn from_bits(bits: u64) -> (r: Binary64)
        ensures
            r.bits == bits,
    {
        Binary64 { bits }
    }

    /// The number one.
    pub fn one() -> (r: Binary64)
        ensures
            r.bits == ONE_BITS,
            r.bits == 0x3ff0_0000_0000_0000,
    {
        Binary64 { bits: ONE_BITS }
    }

    pub fn is_nan(self) -> (r: bool)
        ensures
            r == self.nan(),
    {
        let magnitude: u64 = if self.bits >= SIGN { self.bits - SIGN } else { self.bits };
        magnitude > INFINITY
    }

    /// `self < other`.
    pub fn lt(self, other: Binary64) -> (r: bool)
        ensures
            r == self.below(other),
    {
        if self.is_nan() || other.is_nan() {
            return false;
        }
        if self.bits >= SIGN {
            if other.bits >= SIGN {
                self.bits > other.bits
            } else {
                self.bits > SIGN || other.bits > 0
            }
        } else {
            other.bits < SIGN && self.bits < other.bits
        }
    }

    /// `self <= other`.
    pub fn le(self, other: Binary64) -> (r: bool)
        ensures
            r == self.at_most(other),
    {
        !self.is_nan() && !other.is_nan() && !other.lt(self)
    }

    /// `self > 0`.
    pub fn is_positive(self) -> (r: bool)
        ensures
            r == self.positive(),
    {
        0 < self.bits && self.bits <= INFINITY
    }

    /// `-self`: the sign bit is flipped.
    pub fn neg(self) -> (r: Binary64)
        ensures
            r == self.opposite(),
    {
        if self.bits >= SIGN {
            Binary64 { bits: self.bits - SIGN }
        } else {
            Binary64 { bits: self.bits + SIGN }
        }
    }
}

/// `<=` is a total preorder on the numbers, and `<` is its strict part.
pub proof fn law_order(a: Binary64, b: Binary64, c: Binary64)
    requires
        !a.nan(),
        !b.nan(),
        !c.nan(),
    ensures
        a.at_most(a),
        a.at_most(b) || b.at_most(a),
        a.at_most(b) && b.at_most(c) ==> a.at_most(c),
        a.below(b) <==> !b.at_most(a),
{
}

/// What is not a number compares with nothing.
pub proof fn law_nan_compares_with_nothing(a: Binary64, b: Binary64)
    requires
        a.nan(),
    ensures
        !a.below(b),
        !b.below(a),
        !a.at_most(b),
        !b.at_most(a),
        !a.positive(),
{
}

/// Changing the sign twice changes nothing, and changing the sign of two numbers reverses their
/// order.
pub proof fn law_opposite(a: Binary64, b: Binary64)
    ensures
        a.opposite().opposite() == a,
        a.below(b) <==> b.opposite().below(a.opposite()),
        a.at_most(b) <==> b.opposite().at_most(a.opposite()),
{
}

/// The comparisons are those of the bits: a number without a sign bit is the greater the larger
/// its bits are, one with a sign bit the smaller; both zeros are equal and every other number with
/// a sign bit is below every number without one. Beyond the bits of the two infinities nothing is
/// a number, and nothing compares with that.
pub proof fn law_order_is_that_of_the_bits(a: Binary64, b: Binary64)
    ensures
        a.nan() <==> (0x7ff0_0000_0000_0000 < a.bits < 0x8000_0000_0000_0000 || a.bits
            > 0xfff0_0000_0000_0000),
        a.nan() || b.nan() ==> !a.below(b) && !a.at_most(b),
        !a.nan() && !b.nan() && a.bits < 0x8000_0000_0000_0000 && b.bits < 0x8000_0000_0000_0000
            ==> (a.below(b) <==> a.bits < b.bits) && (a.at_most(b) <==> a.bits <= b.bits),
        !a.nan() && !b.nan() && a.bits >= 0x8000_0000_0000_0000 && b.bits >= 0x8000_0000_0000_0000
            ==> (a.below(b) <==> a.bits > b.bits) && (a.at_most(b) <==> a.bits >= b.bits),
        !a.nan() && !b.nan() && a.bits >= 0x8000_0000_0000_0000 && b.bits < 0x8000_0000_0000_0000
            ==> a.at_most(b) && (a.below(b) <==> !(a.bits == 0x8000_0000_0000_0000 && b.bits
            == 0)),
        !a.nan() && !b.nan() && a.bits < 0x8000_0000_0000_0000 && b.bits >= 0x8000_0000_0000_0000
            ==> !a.below(b) && (a.at_most(b) <==> a.bits == 0 && b.bits == 0x8000_0000_0000_0000),
{
}

/// What is above zero has no sign bit, is not zero and is a number; that is what zero is below.
pub proof fn law_positive_is_above_zero(a: Binary64)
    ensures
        a.positive() <==> 0 < a.bits <= 0x7ff0_0000_0000_0000,
        a.positive() <==> (Binary64 { bits: 0 }).below(a),
        a.positive() <==> !a.nan() && !a.at_most(Binary64 { bits: 0 }),
{
}

/// Changing the sign flips the sign bit and keeps the others.
pub proof fn law_opposite_flips_the_sign_bit(a: Binary64)
    ensures
        a.bits < 0x8000_0000_0000_0000 ==> a.opposite().bits == a.bits + 0x8000_0000_0000_0000,
        a.bits >= 0x8000_0000_0000_0000 ==> a.opposite().bits == a.bits - 0x8000_0000_0000_0000,
{
}

} // verus!
