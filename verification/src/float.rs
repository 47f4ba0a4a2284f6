//! Floating-point numbers as the 64 bits of their IEEE 754 binary64 encoding.
//!
//! Order, equality, sign and absolute value are decided here on the bits alone.
//! Rounding arithmetic is not: whoever calls the library supplies it as a
//! function from an [`Operation`] to its result.

use vstd::prelude::*;

verus! {

/// The bit of the sign.
pub const SIGN_BIT: u64 = 0x8000_0000_0000_0000;

/// The encoding of positive infinity; every larger magnitude is a NaN.
pub const INFINITY_BITS: u64 = 0x7FF0_0000_0000_0000;

/// The encoding of 1.
pub const ONE_BITS: u64 = 0x3FF0_0000_0000_0000;

/// The encoding of one half.
pub const HALF_BITS: u64 = 0x3FE0_0000_0000_0000;

/// The encoding of 4.
pub const FOUR_BITS: u64 = 0x4010_0000_0000_0000;

/// A binary64 number, held as its encoding.
#[derive(Clone, Copy, Debug, PartialEq, Eq, Structural)]
pub struct Float {
    pub bits: u64,
}

impl Float {
    /// The encoding without its sign bit.
    pub open spec fn magnitude(self) -> int {
        if self.bits >= SIGN_BIT {
            self.bits - SIGN_BIT
        } else {
            self.bits as int
        }
    }

    /// Whether the sign bit is set.
    pub open spec fn is_negative(self) -> bool {
        self.bits >= SIGN_BIT
    }

    /// Whether the encoding is one of a NaN.
    pub open spec fn is_nan_spec(self) -> bool {
        self.magnitude() > INFINITY_BITS
    }

    /// An integer that orders the numbers that are no NaN as their values do:
    /// the magnitude, negated under a sign bit. Both zeros have key 0.
    pub open spec fn key(self) -> int {
        if self.is_negative() {
            -self.magnitude()
        } else {
            self.magnitude()
        }
    }

    /// `self < other` as IEEE 754 has it: false where either is a NaN.
    pub open spec fn lt_spec(self, other: Float) -> bool {
        !self.is_nan_spec() && !other.is_nan_spec() && self.key() < other.key()
    }

    /// `self <= other` as IEEE 754 has it: false where either is a NaN.
    pub open spec fn le_spec(self, other: Float) -> bool {
        !self.is_nan_spec() && !other.is_nan_spec() && self.key() <= other.key()
    }

    /// `self == other` as IEEE 754 has it: a NaN equals nothing, and the two
    /// zeros are equal.
    pub open spec fn same_value(self, other: Float) -> bool {
        !self.is_nan_spec() && !other.is_nan_spec() && self.key() == other.key()
    }

    /// The larger of the two; where one is a NaN, the other.
    pub open spec fn max_spec(self, other: Float) -> Float {
        if self.is_nan_spec() {
            other
        } else if other.is_nan_spec() {
            self
        } else if self.key() < other.key() {
            other
        } else {
            self
        }
    }

    /// The smaller of the two; where one is a NaN, the other.
    pub open spec fn min_spec(self, other: Float) -> Float {
        if self.is_nan_spec() {
            other
        } else if other.is_nan_spec() {
            self
        } else if other.key() < self.key() {
            other
        } else {
            self
        }
    }

    /// The number with the sign bit cleared.
    pub open spec fn abs_spec(self) -> Float {
        Float { bits: self.magnitude() as u64 }
    }

    /// The number with the sign bit flipped.
    pub open spec fn neg_spec(self) -> Float {
        if self.is_negative() {
            Float { bits: (self.bits - SIGN_BIT) as u64 }
        } else {
            Float { bits: (self.bits + SIGN_BIT) as u64 }
        }
    }

    pub fn from_bits(bits: u64) -> (r: Float)
        ensures
            r.bits == bits,
    {
        Float { bits }
    }

    pub fn to_bits(self) -> (r: u64)
        ensures
            r == self.bits,
    {
        self.bits
    }

    pub fn zero() -> (r: Float)
        ensures
            r.bits == 0,
    {
        Float { bits: 0 }
    }

    pub fn one() -> (r: Float)
        ensures
            r.bits == ONE_BITS,
    {
        Float { bits: ONE_BITS }
    }

    pub fn four() -> (r: Float)
        ensures
            r.bits == FOUR_BITS,
    {
        Float { bits: FOUR_BITS }
    }

    fn sign_and_magnitude(self) -> (r: (bool, u64))
        ensures
            r.0 == self.is_negative(),
            r.1 == self.magnitude(),
    {
        if self.bits >= SIGN_BIT {
            (true, self.bits - SIGN_BIT)
        } else {
            (false, self.bits)
        }
    }

    pub fn is_nan(self) -> (r: bool)
        ensures
            r == self.is_nan_spec(),
    {
        let (_, magnitude) = self.sign_and_magnitude();
        magnitude > INFINITY_BITS
    }

    pub fn lt(self, other: Float) -> (r: bool)
        ensures
            r == self.lt_spec(other),
    {
        let (negative, magnitude) = self.sign_and_magnitude();
        let (other_negative, other_magnitude) = other.sign_and_magnitude();
        if magnitude > INFINITY_BITS || other_magnitude > INFINITY_BITS {
            false
        } else if negative {
            if other_negative {
                other_magnitude < magnitude
            } else {
                magnitude > 0 || other_magnitude > 0
            }
        } else {
            !other_negative && magnitude < other_magnitude
        }
    }

    pub fn le(self, other: Float) -> (r: bool)
        ensures
            r == self.le_spec(other),
    {
        if self.is_nan() || other.is_nan() {
            false
        } else {
            !other.lt(self)
        }
    }

    pub fn equals(self, other: Float) -> (r: bool)
        ensures
            r == self.same_value(other),
    {
        if self.is_nan() || other.is_nan() {
            false
        } else {
            !self.lt(other) && !other.lt(self)
        }
    }

    pub fn max(self, other: Float) -> (r: Float)
        ensures
            r == self.max_spec(other),
    {
        if self.is_nan() {
            other
        } else if other.is_nan() {
            self
        } else if self.lt(other) {
            other
        } else {
            self
        }
    }

    pub fn min(self, other: Float) -> (r: Float)
        ensures
            r == self.min_spec(other),
    {
        if self.is_nan() {
            other
        } else if other.is_nan() {
            self
        } else if other.lt(self) {
            other
        } else {
            self
        }
    }

    pub fn abs(self) -> (r: Float)
        ensures
            r == self.abs_spec(),
    {
        let (_, magnitude) = self.sign_and_magnitude();
        Float { bits: magnitude }
    }

    pub fn neg(self) -> (r: Float)
        ensures
            r == self.neg_spec(),
    {
        if self.bits >= SIGN_BIT {
            Float { bits: self.bits - SIGN_BIT }
        } else {
            Float { bits: self.bits + SIGN_BIT }
        }
    }
}

/// One step of rounding arithmetic, with its operands.
#[derive(Clone, Copy, Debug, PartialEq, Eq, Structural)]
pub enum Operation {
    /// The sum of the two.
    Add(Float, Float),
    /// The first less the second.
    Subtract(Float, Float),
    /// The product of the two.
    Multiply(Float, Float),
    /// The first divided by the second.
    Divide(Float, Float),
    /// The number nearest to the integer.
    FromInteger(i64),
}

/// `result` is what `arithmetic` may answer to `operation`.
pub open spec fn computes<A: Fn(Operation) -> Float>(
    arithmetic: A,
    operation: Operation,
    result: Float,
) -> bool {
    call_ensures(arithmetic, (operation,), result)
}

/// `arithmetic` answers every operation.
pub open spec fn total<A: Fn(Operation) -> Float>(arithmetic: A) -> bool {
    forall|operation: Operation| call_requires(arithmetic, (operation,))
}

/// Where no NaN is involved, `lt_spec` is a strict order and `le_spec` its
/// reflexive closure.
pub proof fn law_order(a: Float, b: Float, c: Float)
    requires
        !a.is_nan_spec(),
        !b.is_nan_spec(),
        !c.is_nan_spec(),
    ensures
        !a.lt_spec(a),
        a.le_spec(a),
        a.lt_spec(b) && b.lt_spec(c) ==> a.lt_spec(c),
        a.le_spec(b) && b.le_spec(c) ==> a.le_spec(c),
        a.lt_spec(b) ==> a.le_spec(b),
        a.lt_spec(b) || b.le_spec(a),
{
}

/// The maximum of two numbers is one of them and no smaller than either; the
/// minimum is one of them and no larger than either.
pub proof fn law_max_min(a: Float, b: Float)
    requires
        !a.is_nan_spec(),
        !b.is_nan_spec(),
    ensures
        a.max_spec(b) == a || a.max_spec(b) == b,
        a.le_spec(a.max_spec(b)),
        b.le_spec(a.max_spec(b)),
        a.min_spec(b) == a || a.min_spec(b) == b,
        a.min_spec(b).le_spec(a),
        a.min_spec(b).le_spec(b),
{
}

} // verus!
