//! Real numbers as IEEE 754 binary64 bit patterns.
//!
//! The library never does arithmetic on a number. It carries numbers through,
//! and the few questions its rules ask of one (is it zero, is it positive, are
//! two of them equal, does one lie below another) are answered on the bits.

use vstd::prelude::*;

verus! {

/// The sign bit of a binary64 pattern.
pub const SIGN_BIT: u64 = 0x8000_0000_0000_0000;

/// The pattern of positive infinity: every pattern whose magnitude lies above
/// it is a NaN.
pub const INFINITY_BITS: u64 = 0x7ff0_0000_0000_0000;

/// The pattern of `0.0`.
pub const ZERO_BITS: u64 = 0x0000_0000_0000_0000;

/// The pattern of `1.0`.
pub const ONE_BITS: u64 = 0x3ff0_0000_0000_0000;

/// The pattern of the canonical quiet NaN.
pub const NAN_BITS: u64 = 0x7ff8_0000_0000_0000;

/// A binary64 number, held as the 64 bits that encode it.
///
/// The derived `==` compares bit patterns; the comparison of the numbers
/// themselves is [`Float64::eq_value`].
#[derive(Clone, Copy, Debug, PartialEq, Eq, Hash)]
pub struct Float64 {
    pub bits: u64,
}

impl View for Float64 {
    type V = Float64;

    open spec fn view(&self) -> Float64 {
        *self
    }
}

impl Float64 {
    /// The pattern without its sign bit.
    pub open spec fn magnitude(self) -> int {
        if self.bits >= SIGN_BIT {
            self.bits - SIGN_BIT
        } else {
            self.bits as int
        }
    }

    /// Whether the sign bit is set.
    pub open spec fn sign_negative(self) -> bool {
        self.bits >= SIGN_BIT
    }

    /// Whether the pattern encodes no number.
    pub open spec fn spec_is_nan(self) -> bool {
        self.magnitude() > INFINITY_BITS
    }

    /// Whether the pattern encodes positive or negative zero.
    pub open spec fn spec_is_zero(self) -> bool {
        self.magnitude() == 0
    }

    /// The place of a number in the order of all numbers: for patterns that are
    /// no NaN, a smaller rank is a smaller number, and the two zeros share
    /// rank 0.
    pub open spec fn rank(self) -> int {
        if self.sign_negative() {
            -self.magnitude()
        } else {
            self.magnitude()
        }
    }

    /// Numeric equality: a NaN equals nothing, the two zeros equal each other,
    /// and every other number equals the one with the same pattern.
    pub open spec fn spec_eq_value(self, other: Float64) -> bool {
        !self.spec_is_nan() && !other.spec_is_nan() && self.rank() == other.rank()
    }

    /// Numeric `<=`: false whenever a NaN is involved.
    pub open spec fn spec_le_value(self, other: Float64) -> bool {
        !self.spec_is_nan() && !other.spec_is_nan() && self.rank() <= other.rank()
    }

    /// Numeric `> 0`: false for both zeros and for a NaN.
    pub open spec fn spec_is_positive(self) -> bool {
        !self.spec_is_nan() && self.rank() > 0
    }

    /// The number with the given pattern.
    pub fn from_bits(bits: u64) -> (r: Float64)
        ensures
            r.bits == bits,
    {
        Float64 { bits }
    }

    /// The pattern of the number.
    pub fn to_bits(self) -> (r: u64)
        ensures
            r == self.bits,
    {
        self.bits
    }

    /// Positive zero.
    pub fn zero() -> (r: Float64)
        ensures
            r.bits == ZERO_BITS,
    {
        Float64 { bits: ZERO_BITS }
    }

    /// The number one.
    pub fn one() -> (r: Float64)
        ensures
            r.bits == ONE_BITS,
    {
        Float64 { bits: ONE_BITS }
    }

    /// The canonical quiet NaN.
    pub fn nan() -> (r: Float64)
        ensures
            r.bits == NAN_BITS,
    {
        Float64 { bits: NAN_BITS }
    }

    fn magnitude_bits(self) -> (r: u64)
        ensures
            r == self.magnitude(),
    {
        if self.bits >= SIGN_BIT {
            self.bits - SIGN_BIT
        } else {
            self.bits
        }
    }

    /// Whether the pattern encodes no number.
    pub fn is_nan(self) -> (r: bool)
        ensures
            r == self.spec_is_nan(),
    {
        self.magnitude_bits() > INFINITY_BITS
    }

    /// Whether the number is positive or negative zero.
    pub fn is_zero(self) -> (r: bool)
        ensures
            r == self.spec_is_zero(),
    {
        self.magnitude_bits() == 0
    }

    /// Whether the number is greater than zero.
    pub fn is_positive(self) -> (r: bool)
        ensures
            r == self.spec_is_positive(),
    {
        self.bits < SIGN_BIT && self.bits != 0 && self.bits <= INFINITY_BITS
    }

    /// Whether two numbers are equal as numbers.
    pub fn eq_value(self, other: Float64) -> (r: bool)
        ensures
            r == self.spec_eq_value(other),
    {
        if self.is_nan() || other.is_nan() {
            false
        } else {
            self.bits == other.bits || (self.is_zero() && other.is_zero())
        }
    }

    /// Whether `self` is less than or equal to `other` as a number.
    pub fn le_value(self, other: Float64) -> (r: bool)
        ensures
            r == self.spec_le_value(other),
    {
        if self.is_nan() || other.is_nan() {
            false
        } else {
            let a: u64 = self.magnitude_bits();
            let b: u64 = other.magnitude_bits();
            if self.bits >= SIGN_BIT {
                if other.bits >= SIGN_BIT {
                    b <= a
                } else {
                    true
                }
            } else {
                if other.bits >= SIGN_BIT {
                    a == 0 && b == 0
                } else {
                    a <= b
                }
            }
        }
    }
}

/// Numeric equality is symmetric, and transitive; it is reflexive on every
/// pattern but a NaN.
pub proof fn lemma_eq_value_is_partial_equivalence(a: Float64, b: Float64, c: Float64)
    ensures
        a.spec_eq_value(b) ==> b.spec_eq_value(a),
        a.spec_eq_value(b) && b.spec_eq_value(c) ==> a.spec_eq_value(c),
        a.spec_eq_value(a) <==> !a.spec_is_nan(),
{
}

/// Numeric `<=` orders the numbers: any two patterns that are no NaN are
/// comparable, the order is transitive, and two numbers lie below each other
/// exactly when they are equal. A number is positive exactly when zero lies
/// below it and does not equal it.
pub proof fn lemma_le_value_orders_numbers(a: Float64, b: Float64, c: Float64)
    ensures
        !a.spec_is_nan() && !b.spec_is_nan() ==> a.spec_le_value(b) || b.spec_le_value(a),
        a.spec_le_value(b) && b.spec_le_value(c) ==> a.spec_le_value(c),
        a.spec_le_value(b) && b.spec_le_value(a) <==> a.spec_eq_value(b),
        a.spec_is_positive() <==> (Float64 { bits: ZERO_BITS }).spec_le_value(a) && !a.spec_eq_value(
            Float64 { bits: ZERO_BITS },
        ),
        a.spec_is_zero() <==> a.spec_eq_value(Float64 { bits: ZERO_BITS }),
{
}

} // verus!
