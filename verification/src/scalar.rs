//! Real-valued measurements carried by bit pattern.
//!
//! Rewards, variances and reaction times are IEEE-754 binary64 values. The
//! library never does arithmetic on them: it stores them, hands them back, and
//! compares them. A [`Scalar`] holds the 64 bits of such a value, and
//! [`Scalar::exceeds`] is the IEEE "greater than" on those bits.
use vstd::prelude::*;

verus! {

/// Bit pattern of positive infinity; any larger magnitude is a NaN.
pub const INFINITY_BITS: u64 = 0x7ff0_0000_0000_0000;

/// The weight of the sign bit: one more than the largest magnitude.
pub const SIGN_WEIGHT: u64 = 0x8000_0000_0000_0000;

/// A binary64 value, held by its bit pattern.
#[derive(Debug, Clone, Copy, PartialEq, Eq, Structural)]
pub struct Scalar {
    pub bits: u64,
}

impl Scalar {
    /// The bits without the sign: exponent and significand, read as a number.
    pub open spec fn magnitude(self) -> int {
        if self.bits >= SIGN_WEIGHT {
            self.bits - SIGN_WEIGHT
        } else {
            self.bits as int
        }
    }

    pub open spec fn is_nan(self) -> bool {
        self.magnitude() > INFINITY_BITS
    }

    /// Where the value stands among all numbers. Both zeros stand at 0, and the
    /// ranks of two numbers compare as the numbers do.
    pub open spec fn rank(self) -> int {
        if self.bits >= SIGN_WEIGHT {
            -self.magnitude()
        } else {
            self.magnitude()
        }
    }

    /// IEEE "greater than": false as soon as either side is a NaN.
    pub open spec fn above(self, other: Scalar) -> bool {
        &&& !self.is_nan()
        &&& !other.is_nan()
        &&& self.rank() > other.rank()
    }

    /// Whether this value is greater than `other`, as the machine's own
    /// comparison of the two numbers would say.
    pub fn exceeds(self, other: Scalar) -> (greater: bool)
        ensures
            greater == self.above(other),
    {
        let left_negative: bool = self.bits >= SIGN_WEIGHT;
        let right_negative: bool = other.bits >= SIGN_WEIGHT;
        let left: u64 = if left_negative { self.bits - SIGN_WEIGHT } else { self.bits };
        let right: u64 = if right_negative { other.bits - SIGN_WEIGHT } else { other.bits };
        if left > INFINITY_BITS || right > INFINITY_BITS {
            false
        } else if left_negative {
            right_negative && left < right
        } else if right_negative {
            left > 0 || right > 0
        } else {
            left > right
        }
    }
}

/// Nothing exceeds itself.
pub proof fn law_above_is_irreflexive(a: Scalar)
    ensures
        !a.above(a),
{
}

/// Among three values, "greater than" carries over.
pub proof fn law_above_is_transitive(a: Scalar, b: Scalar, c: Scalar)
    requires
        a.above(b),
        b.above(c),
    ensures
        a.above(c),
{
}

/// Numbers of the same sign compare by their bits, negative ones the other way
/// round; a positive number is above every negative one, and the two zeros are
/// equal.
pub proof fn law_order_of_bits(a: Scalar, b: Scalar)
    ensures
        a.bits <= 0x7ff0_0000_0000_0000 && b.bits <= 0x7ff0_0000_0000_0000 ==> (a.above(b)
            <==> a.bits > b.bits),
        0x8000_0000_0000_0000 <= a.bits <= 0xfff0_0000_0000_0000 && 0x8000_0000_0000_0000
            <= b.bits <= 0xfff0_0000_0000_0000 ==> (a.above(b) <==> a.bits < b.bits),
        a.bits <= 0x7ff0_0000_0000_0000 && 0x8000_0000_0000_0000 <= b.bits
            <= 0xfff0_0000_0000_0000 ==> (a.above(b) <==> a.bits > 0 || b.bits
            > 0x8000_0000_0000_0000),
        0x8000_0000_0000_0000 <= a.bits <= 0xfff0_0000_0000_0000 && b.bits
            <= 0x7ff0_0000_0000_0000 ==> !a.above(b),
{
}

/// What is not a number is above nothing and below nothing.
pub proof fn law_undefined_is_incomparable(a: Scalar, b: Scalar)
    requires
        0x7ff0_0000_0000_0000 < a.bits < 0x8000_0000_0000_0000 || a.bits
            > 0xfff0_0000_0000_0000,
    ensures
        !a.above(b),
        !b.above(a),
{
}

} // verus!
