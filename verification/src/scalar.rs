//! IEEE-754 double-precision numbers held as bit patterns.
//!
//! The verifier reasons about integers, so a [`Scalar`] is its 64-bit pattern
//! and every property below is a statement about that pattern: the sign bit,
//! the eleven exponent bits, the fifty-two fraction bits.
use vstd::prelude::*;

verus! {

/// The sign bit of a double.
pub const SIGN_BIT: u64 = 0x8000_0000_0000_0000;

/// The pattern of positive infinity: all exponent bits set, fraction zero.
pub const INFINITY_BITS: u64 = 0x7ff0_0000_0000_0000;

/// Two to the fifty-second: the weight of the lowest exponent bit.
pub const FRACTION_SPAN: u64 = 0x0010_0000_0000_0000;

/// The pattern of `1.0`.
pub const ONE_BITS: u64 = 0x3ff0_0000_0000_0000;

/// The pattern of `2.0`.
pub const TWO_BITS: u64 = 0x4000_0000_0000_0000;

/// The pattern of `0.5`.
pub const HALF_BITS: u64 = 0x3fe0_0000_0000_0000;

/// A double-precision number, held as its bit pattern.
///
/// Two scalars are `==` when their patterns are equal, which is finer than
/// numeric equality: `0.0` and `-0.0` differ, and a NaN equals itself.
#[derive(Clone, Copy, Debug, PartialEq, Eq, Structural)]
pub struct Scalar {
    pub bits: u64,
}

impl Scalar {
    /// The pattern with the sign bit cleared.
    pub open spec fn abs_bits(self) -> u64 {
        if self.bits >= SIGN_BIT {
            (self.bits - SIGN_BIT) as u64
        } else {
            self.bits
        }
    }

    /// Whether the sign bit is set (true of `-0.0` and of some NaNs too).
    pub open spec fn sign_negative(self) -> bool {
        self.bits >= SIGN_BIT
    }

    /// Whether this is a NaN: exponent all ones, fraction not zero.
    pub open spec fn spec_is_nan(self) -> bool {
        self.abs_bits() > INFINITY_BITS
    }

    /// Whether this is zero, subnormal or normal.
    pub open spec fn spec_is_finite(self) -> bool {
        self.abs_bits() < INFINITY_BITS
    }

    /// The biased exponent field, `0..=2047`.
    pub open spec fn exponent(self) -> int {
        self.abs_bits() as int / FRACTION_SPAN as int
    }

    /// The fraction field, `0 ..< 2^52`.
    pub open spec fn fraction(self) -> int {
        self.abs_bits() as int % FRACTION_SPAN as int
    }

    /// Position in the numeric order: for scalars that are not NaN,
    /// `a` is below `b` exactly when `a.rank() < b.rank()`.
    /// Both zeros have rank zero.
    pub open spec fn rank(self) -> int {
        if self.sign_negative() {
            -(self.abs_bits() as int)
        } else {
            self.abs_bits() as int
        }
    }

    /// Numeric `<`: false as soon as either side is a NaN.
    pub open spec fn spec_lt(self, other: Scalar) -> bool {
        !self.spec_is_nan() && !other.spec_is_nan() && self.rank() < other.rank()
    }

    /// Numeric `<=`: false as soon as either side is a NaN.
    pub open spec fn spec_le(self, other: Scalar) -> bool {
        !self.spec_is_nan() && !other.spec_is_nan() && self.rank() <= other.rank()
    }

    /// Numeric `>`.
    pub open spec fn spec_gt(self, other: Scalar) -> bool {
        other.spec_lt(self)
    }

    /// Numeric `>=`.
    pub open spec fn spec_ge(self, other: Scalar) -> bool {
        other.spec_le(self)
    }

    /// The same number with its sign bit flipped.
    pub open spec fn spec_neg(self) -> Scalar {
        if self.bits >= SIGN_BIT {
            Scalar { bits: (self.bits - SIGN_BIT) as u64 }
        } else {
            Scalar { bits: (self.bits + SIGN_BIT) as u64 }
        }
    }

    /// The same number with its sign bit cleared.
    pub open spec fn spec_abs(self) -> Scalar {
        Scalar { bits: self.abs_bits() }
    }

    /// The smaller of two numbers as `f64::min` gives it: a NaN on one side
    /// yields the other side.
    pub open spec fn spec_min(self, other: Scalar) -> Scalar {
        if self.spec_is_nan() {
            other
        } else if other.spec_is_nan() {
            self
        } else if other.spec_lt(self) {
            other
        } else {
            self
        }
    }

    /// Wraps a bit pattern.
    pub fn from_bits(bits: u64) -> (r: Scalar)
        ensures
            r.bits == bits,
    {
        Scalar { bits }
    }

    /// The bit pattern.
    pub fn to_bits(self) -> (bits: u64)
        ensures
            bits == self.bits,
    {
        self.bits
    }

    /// The pattern with the sign bit cleared.
    fn magnitude_bits(self) -> (m: u64)
        ensures
            m == self.abs_bits(),
            m < SIGN_BIT,
    {
        if self.bits >= SIGN_BIT {
            self.bits - SIGN_BIT
        } else {
            self.bits
        }
    }

    /// The rank as a machine integer.
    fn order_key(self) -> (k: i64)
        ensures
            k == self.rank(),
    {
        let m = self.magnitude_bits();
        if self.bits >= SIGN_BIT {
            -(m as i64)
        } else {
            m as i64
        }
    }

    /// Whether this is a NaN.
    #[verifier::when_used_as_spec(spec_is_nan)]
    pub fn is_nan(self) -> (b: bool)
        ensures
            b == self.spec_is_nan(),
    {
        self.magnitude_bits() > INFINITY_BITS
    }

    /// Whether this is neither an infinity nor a NaN.
    #[verifier::when_used_as_spec(spec_is_finite)]
    pub fn is_finite(self) -> (b: bool)
        ensures
            b == self.spec_is_finite(),
    {
        self.magnitude_bits() < INFINITY_BITS
    }

    /// Numeric `<`.
    #[verifier::when_used_as_spec(spec_lt)]
    pub fn lt(self, other: Scalar) -> (b: bool)
        ensures
            b == self.spec_lt(other),
    {
        !self.is_nan() && !other.is_nan() && self.order_key() < other.order_key()
    }

    /// Numeric `<=`.
    #[verifier::when_used_as_spec(spec_le)]
    pub fn le(self, other: Scalar) -> (b: bool)
        ensures
            b == self.spec_le(other),
    {
        !self.is_nan() && !other.is_nan() && self.order_key() <= other.order_key()
    }

    /// Numeric `>`.
    #[verifier::when_used_as_spec(spec_gt)]
    pub fn gt(self, other: Scalar) -> (b: bool)
        ensures
            b == self.spec_gt(other),
    {
        other.lt(self)
    }

    /// Numeric `>=`.
    #[verifier::when_used_as_spec(spec_ge)]
    pub fn ge(self, other: Scalar) -> (b: bool)
        ensures
            b == self.spec_ge(other),
    {
        other.le(self)
    }

    /// The negation: the sign bit flipped.
    #[verifier::when_used_as_spec(spec_neg)]
    pub fn neg(self) -> (r: Scalar)
        ensures
            r == self.spec_neg(),
    {
        if self.bits >= SIGN_BIT {
            Scalar { bits: self.bits - SIGN_BIT }
        } else {
            Scalar { bits: self.bits + SIGN_BIT }
        }
    }

    /// The absolute value: the sign bit cleared.
    #[verifier::when_used_as_spec(spec_abs)]
    pub fn abs(self) -> (r: Scalar)
        ensures
            r == self.spec_abs(),
    {
        Scalar { bits: self.magnitude_bits() }
    }

    /// The smaller of two numbers, a NaN giving way to the other.
    #[verifier::when_used_as_spec(spec_min)]
    pub fn min(self, other: Scalar) -> (r: Scalar)
        ensures
            r == self.spec_min(other),
    {
        if self.is_nan() {
            other
        } else if other.is_nan() {
            self
        } else if other.lt(self) {
            other
        } else {
            self
        }
    }
}

} // verus!
