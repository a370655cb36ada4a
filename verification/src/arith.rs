//! Rounding arithmetic on [`Scalar`].
//!
//! Sums, products and quotients are rounded by `rustc_apfloat`; square
//! roots, sines and cosines come from `const_soft_float`. Neither crate
//! uses the floating-point arithmetic of the machine: `rustc_apfloat` works
//! on integers throughout, `const_soft_float` on bit patterns and, in its
//! sine and cosine, on casts between doubles and integers, whose results
//! the language fixes. So an operation gives the same answer on every
//! machine: it is a named function of its operands' patterns. Beyond the
//! name only a few facts about zero operands are claimed, each of them a
//! case that the crate's code settles before it rounds anything.
use vstd::prelude::*;
use const_soft_float::soft_f64::SoftF64;
use rustc_apfloat::ieee::Double;
use rustc_apfloat::{Float, Round};
use crate::scalar::{Scalar, INFINITY_BITS, ONE_BITS, SIGN_BIT};

verus! {

/// The pattern of the sum of two doubles, rounded to the nearest double,
/// ties to even.
pub uninterp spec fn sum_bits(a: u64, b: u64) -> u64;

/// The pattern of the product of two doubles, rounded to the nearest
/// double, ties to even.
pub uninterp spec fn product_bits(a: u64, b: u64) -> u64;

/// The pattern of the quotient of two doubles, rounded to the nearest
/// double, ties to even.
pub uninterp spec fn quotient_bits(a: u64, b: u64) -> u64;

/// The pattern of the square root of a double, rounded to the nearest
/// double.
pub uninterp spec fn root_bits(a: u64) -> u64;

/// The pattern of the sine of a double, in radians.
pub uninterp spec fn sine_bits(a: u64) -> u64;

/// The pattern of the cosine of a double, in radians.
pub uninterp spec fn cosine_bits(a: u64) -> u64;

/// Whether `a` is the pattern of a zero, of either sign.
pub open spec fn is_zero_bits(a: u64) -> bool {
    a == 0 || a == SIGN_BIT
}

/// Whether `a` is the pattern of a finite number other than zero.
pub open spec fn is_finite_nonzero_bits(a: u64) -> bool {
    0 < (Scalar { bits: a }).abs_bits() < INFINITY_BITS
}

/// What is known of a sum `r` of `a` and `b` beyond its name:
/// a zero added to a finite number other than zero, on either side, leaves
/// that number;
/// two zeros add up to a zero that is negative only if both are;
/// a finite number other than zero and its negation add up to positive zero.
pub open spec fn sum_of_zero(a: u64, b: u64, r: u64) -> bool {
    &&& is_finite_nonzero_bits(a) && is_zero_bits(b) ==> r == a
    &&& is_zero_bits(a) && is_finite_nonzero_bits(b) ==> r == b
    &&& is_zero_bits(a) && is_zero_bits(b) ==> r == (if a == SIGN_BIT && b == SIGN_BIT {
        SIGN_BIT
    } else {
        0
    })
    &&& is_finite_nonzero_bits(a) && (Scalar { bits: b }) == (Scalar { bits: a }).spec_neg() ==> r
        == 0
}

/// The zero with the product of the signs of `a` and `b`: negative exactly
/// if the signs differ.
pub open spec fn signed_zero_bits(a: u64, b: u64) -> u64 {
    if (a >= SIGN_BIT) != (b >= SIGN_BIT) {
        SIGN_BIT
    } else {
        0
    }
}

/// Whether `a` is the pattern of an infinity, of either sign.
pub open spec fn is_infinite_bits(a: u64) -> bool {
    (Scalar { bits: a }).abs_bits() == INFINITY_BITS
}

/// What is known of a product `r` of `a` and `b` beyond its name: a finite
/// number and a zero, in either order, give the zero with the product of
/// the signs; an infinity and a zero, in either order, give a NaN.
pub open spec fn product_with_zero(a: u64, b: u64, r: u64) -> bool {
    &&& (Scalar { bits: a }).spec_is_finite() && is_zero_bits(b) ==> r == signed_zero_bits(a, b)
    &&& is_zero_bits(a) && (Scalar { bits: b }).spec_is_finite() ==> r == signed_zero_bits(a, b)
    &&& (is_infinite_bits(a) && is_zero_bits(b)) || (is_zero_bits(a) && is_infinite_bits(b))
        ==> (Scalar { bits: r }).spec_is_nan()
}

/// What is known of a quotient `r` of `a` by `b` beyond its name: a zero
/// divided by a number that is neither zero nor a NaN is the zero with the
/// product of the signs; a number that is neither zero nor a NaN, divided
/// by a zero, is the infinity with the product of the signs.
pub open spec fn quotient_with_zero(a: u64, b: u64, r: u64) -> bool {
    &&& is_zero_bits(a) && !is_zero_bits(b) && !(Scalar { bits: b }).spec_is_nan() ==> r
        == signed_zero_bits(a, b)
    &&& !is_zero_bits(a) && !(Scalar { bits: a }).spec_is_nan() && is_zero_bits(b) ==> r
        == signed_zero_bits(a, b) + INFINITY_BITS
}

/// `Float::add_r` of rustc_apfloat on two doubles, rounding to nearest,
/// ties to even. Trusted: the result is the function `sum_bits` of the two
/// operands, and it is what `sum_of_zero` says where an operand is zero or
/// the operands cancel. In the crate's `add_r` a zero on the right leaves
/// the left operand, a zero on the left gives way to the right operand, and
/// a sum that is exactly zero is made positive unless both operands are
/// zeros of the same sign.
#[verifier::external_body]
fn soft_add(a: u64, b: u64) -> (r: u64)
    ensures
        r == sum_bits(a, b),
        sum_of_zero(a, b, r),
{
    let x = Double::from_bits(a as u128);
    let y = Double::from_bits(b as u128);
    x.add_r(y, Round::NearestTiesToEven).value.to_bits() as u64
}

/// `Float::mul_r` of rustc_apfloat on two doubles, rounding to nearest,
/// ties to even. Trusted: the result is the function `product_bits` of the
/// two operands, and it is what `product_with_zero` says where an operand
/// is zero. In the crate's `mul_r` the sign of the result is the product of
/// the signs; a zero beside an infinity gives the NaN, and any other zero
/// operand that is not beside a NaN gives a zero.
#[verifier::external_body]
fn soft_mul(a: u64, b: u64) -> (r: u64)
    ensures
        r == product_bits(a, b),
        product_with_zero(a, b, r),
{
    let x = Double::from_bits(a as u128);
    let y = Double::from_bits(b as u128);
    x.mul_r(y, Round::NearestTiesToEven).value.to_bits() as u64
}

/// `Float::div_r` of rustc_apfloat on two doubles, rounding to nearest,
/// ties to even. Trusted: the result is the function `quotient_bits` of
/// dividend and divisor, and it is what `quotient_with_zero` says where one
/// of them is zero. In the crate's `div_r` the sign of the result is the
/// product of the signs; a zero dividend is handed back unless the divisor
/// is a zero too, and a zero divisor gives an infinity unless the dividend
/// is a zero too. Division by zero does not fail.
#[verifier::external_body]
fn soft_div(a: u64, b: u64) -> (r: u64)
    ensures
        r == quotient_bits(a, b),
        quotient_with_zero(a, b, r),
{
    let x = Double::from_bits(a as u128);
    let y = Double::from_bits(b as u128);
    x.div_r(y, Round::NearestTiesToEven).value.to_bits() as u64
}

/// `SoftF64::sqrt` of const_soft_float on a pattern. Trusted: the result
/// is the function `root_bits` of the operand, and the root of a zero is
/// that zero; the crate's `sqrt` hands a zero back as it is. A negative
/// operand yields a NaN. For a subnormal operand the crate shifts a `usize`
/// by 32 bits, which needs a `usize` of 64 bits where overflow is checked.
#[verifier::external_body]
fn soft_sqrt(a: u64) -> (r: u64)
    ensures
        r == root_bits(a),
        is_zero_bits(a) ==> r == a,
{
    SoftF64::from_bits(a).sqrt().to_bits()
}

/// `SoftF64::sin` of const_soft_float on a pattern. Trusted: the result
/// is the function `sine_bits` of the operand.
#[verifier::external_body]
fn soft_sin(a: u64) -> (r: u64)
    ensures
        r == sine_bits(a),
{
    SoftF64::from_bits(a).sin().to_bits()
}

/// `SoftF64::cos` of const_soft_float on a pattern. Trusted: the result
/// is the function `cosine_bits` of the operand.
#[verifier::external_body]
fn soft_cos(a: u64) -> (r: u64)
    ensures
        r == cosine_bits(a),
{
    SoftF64::from_bits(a).cos().to_bits()
}

impl Scalar {
    /// `self + rhs`, rounded.
    pub open spec fn spec_add(self, rhs: Scalar) -> Scalar {
        Scalar { bits: sum_bits(self.bits, rhs.bits) }
    }

    /// `self - rhs`, rounded: the sum of `self` and the negated `rhs`.
    pub open spec fn spec_sub(self, rhs: Scalar) -> Scalar {
        self.spec_add(rhs.spec_neg())
    }

    /// `self * rhs`, rounded.
    pub open spec fn spec_mul(self, rhs: Scalar) -> Scalar {
        Scalar { bits: product_bits(self.bits, rhs.bits) }
    }

    /// `self / rhs`, rounded.
    pub open spec fn spec_div(self, rhs: Scalar) -> Scalar {
        Scalar { bits: quotient_bits(self.bits, rhs.bits) }
    }

    /// The square root of `self`, rounded.
    pub open spec fn spec_sqrt(self) -> Scalar {
        Scalar { bits: root_bits(self.bits) }
    }

    /// The sine of `self`.
    pub open spec fn spec_sin(self) -> Scalar {
        Scalar { bits: sine_bits(self.bits) }
    }

    /// The cosine of `self`.
    pub open spec fn spec_cos(self) -> Scalar {
        Scalar { bits: cosine_bits(self.bits) }
    }

    /// The tangent of `self`: its sine over its cosine.
    pub open spec fn spec_tan(self) -> Scalar {
        self.spec_sin().spec_div(self.spec_cos())
    }

    /// `1 / self`, rounded.
    pub open spec fn spec_recip(self) -> Scalar {
        Scalar { bits: ONE_BITS }.spec_div(self)
    }

    /// `self` to the fifth power by repeated squaring:
    /// `self * ((self * self) * (self * self))`.
    pub open spec fn spec_pow5(self) -> Scalar {
        let square = self.spec_mul(self);
        self.spec_mul(square.spec_mul(square))
    }

    /// `self + rhs`, rounded to the nearest double.
    #[verifier::when_used_as_spec(spec_add)]
    pub fn add(self, rhs: Scalar) -> (r: Scalar)
        ensures
            r == self.spec_add(rhs),
            sum_of_zero(self.bits, rhs.bits, r.bits),
    {
        Scalar { bits: soft_add(self.bits, rhs.bits) }
    }

    /// `self - rhs`, rounded to the nearest double.
    #[verifier::when_used_as_spec(spec_sub)]
    pub fn sub(self, rhs: Scalar) -> (r: Scalar)
        ensures
            r == self.spec_sub(rhs),
            sum_of_zero(self.bits, rhs.spec_neg().bits, r.bits),
    {
        self.add(rhs.neg())
    }

    /// `self * rhs`, rounded to the nearest double.
    #[verifier::when_used_as_spec(spec_mul)]
    pub fn mul(self, rhs: Scalar) -> (r: Scalar)
        ensures
            r == self.spec_mul(rhs),
            product_with_zero(self.bits, rhs.bits, r.bits),
    {
        Scalar { bits: soft_mul(self.bits, rhs.bits) }
    }

    /// `self / rhs`, rounded to the nearest double.
    #[verifier::when_used_as_spec(spec_div)]
    pub fn div(self, rhs: Scalar) -> (r: Scalar)
        ensures
            r == self.spec_div(rhs),
            quotient_with_zero(self.bits, rhs.bits, r.bits),
    {
        Scalar { bits: soft_div(self.bits, rhs.bits) }
    }

    /// The square root, rounded to the nearest double.
    #[verifier::when_used_as_spec(spec_sqrt)]
    pub fn sqrt(self) -> (r: Scalar)
        ensures
            r == self.spec_sqrt(),
            is_zero_bits(self.bits) ==> r == self,
    {
        Scalar { bits: soft_sqrt(self.bits) }
    }

    /// The sine of an angle in radians.
    #[verifier::when_used_as_spec(spec_sin)]
    pub fn sin(self) -> (r: Scalar)
        ensures
            r == self.spec_sin(),
    {
        Scalar { bits: soft_sin(self.bits) }
    }

    /// The cosine of an angle in radians.
    #[verifier::when_used_as_spec(spec_cos)]
    pub fn cos(self) -> (r: Scalar)
        ensures
            r == self.spec_cos(),
    {
        Scalar { bits: soft_cos(self.bits) }
    }

    /// The tangent of an angle in radians.
    #[verifier::when_used_as_spec(spec_tan)]
    pub fn tan(self) -> (r: Scalar)
        ensures
            r == self.spec_tan(),
    {
        self.sin().div(self.cos())
    }

    /// The reciprocal `1 / self`.
    #[verifier::when_used_as_spec(spec_recip)]
    pub fn recip(self) -> (r: Scalar)
        ensures
            r == self.spec_recip(),
            quotient_with_zero(ONE_BITS, self.bits, r.bits),
    {
        Scalar { bits: ONE_BITS }.div(self)
    }

    /// The fifth power, by two squarings and a product.
    #[verifier::when_used_as_spec(spec_pow5)]
    pub fn pow5(self) -> (r: Scalar)
        ensures
            r == self.spec_pow5(),
            self.bits == 0 ==> r.bits == 0,
    {
        let square = self.mul(self);
        self.mul(square.mul(square))
    }
}

} // verus!
