//! Constants and small numeric helpers shared by the whole tracer.
use vstd::prelude::*;
use crate::scalar::{Scalar, FRACTION_SPAN, INFINITY_BITS};

verus! {

/// The pattern of pi as the nearest double.
pub const PI_BITS: u64 = 0x4009_21fb_5444_2d18;

/// The pattern of two pi: `2.0 * PI`, which is exact.
pub const TWO_PI_BITS: u64 = 0x4019_21fb_5444_2d18;

/// The pattern of `180.0`.
pub const HALF_TURN_BITS: u64 = 0x4066_8000_0000_0000;

/// Positive infinity.
pub open spec fn spec_infinity() -> Scalar {
    Scalar { bits: INFINITY_BITS }
}

/// Positive infinity.
#[verifier::when_used_as_spec(spec_infinity)]
pub fn infinity() -> (r: Scalar)
    ensures
        r == spec_infinity(),
{
    Scalar { bits: INFINITY_BITS }
}

/// Pi, as the nearest double.
pub open spec fn spec_pi() -> Scalar {
    Scalar { bits: PI_BITS }
}

/// Pi, as the nearest double.
#[verifier::when_used_as_spec(spec_pi)]
pub fn pi() -> (r: Scalar)
    ensures
        r == spec_pi(),
{
    Scalar { bits: PI_BITS }
}

/// What `degrees_to_radians` computes: `degrees * PI / 180`.
pub open spec fn spec_degrees_to_radians(degrees: Scalar) -> Scalar {
    degrees.spec_mul(spec_pi()).spec_div(Scalar { bits: HALF_TURN_BITS })
}

/// Converts an angle in degrees to radians.
#[verifier::when_used_as_spec(spec_degrees_to_radians)]
pub fn degrees_to_radians(degrees: Scalar) -> (r: Scalar)
    ensures
        r == spec_degrees_to_radians(degrees),
{
    degrees.mul(pi()).div(Scalar { bits: HALF_TURN_BITS })
}

/// `Rng::gen_range` of rand, on the generator of the calling thread, with the
/// bounds `0` and `high`. Trusted, from its documentation: the value drawn
/// is at least the lower bound and below the upper one. The call fails when
/// the bounds are empty, which `requires` rules out, and when the operating
/// system cannot seed the generator.
#[verifier::external_body]
fn random_below(high: u64) -> (r: u64)
    requires
        0 < high,
    ensures
        r < high,
{
    rand::Rng::gen_range(&mut rand::thread_rng(), 0u64, high)
}

/// A random double, uniform over the multiples of `2^-52` from zero
/// (included) to one (excluded).
pub fn random_double() -> (r: Scalar)
    ensures
        r.in_unit_interval(),
        exists|m: nat| m < FRACTION_SPAN && r == #[trigger] Scalar::spec_from_unit_fraction(m),
{
    let m = random_below(FRACTION_SPAN);
    let r = Scalar::from_unit_fraction(m);
    assert(r == Scalar::spec_from_unit_fraction(m as nat));
    r
}

/// Where a draw `unit` from the unit interval lands between `min` and `max`:
/// `min + (max - min) * unit`.
pub open spec fn spec_spread(min: Scalar, max: Scalar, unit: Scalar) -> Scalar {
    min.spec_add(max.spec_sub(min).spec_mul(unit))
}

/// Maps a draw from the unit interval to the interval from `min` to `max`.
#[verifier::when_used_as_spec(spec_spread)]
pub fn spread(min: Scalar, max: Scalar, unit: Scalar) -> (r: Scalar)
    ensures
        r == spec_spread(min, max, unit),
{
    min.add(max.sub(min).mul(unit))
}

/// A random double between `min` and `max`: a draw from the unit interval,
/// spread over that range.
pub fn random_double_in_range(min: Scalar, max: Scalar) -> (r: Scalar)
    ensures
        exists|unit: Scalar| unit.in_unit_interval() && r == #[trigger] spec_spread(min, max, unit),
{
    let unit = random_double();
    spread(min, max, unit)
}

/// What `clamp` returns: `min` for an `x` below it, `max` for an `x` above
/// it, `x` itself otherwise, which includes every NaN.
pub open spec fn spec_clamp(x: Scalar, min: Scalar, max: Scalar) -> Scalar {
    if x.spec_lt(min) {
        min
    } else if x.spec_gt(max) {
        max
    } else {
        x
    }
}

/// Limits `x` to the range from `min` to `max`.
#[verifier::when_used_as_spec(spec_clamp)]
pub fn clamp(x: Scalar, min: Scalar, max: Scalar) -> (r: Scalar)
    ensures
        r == spec_clamp(x, min, max),
{
    if x.lt(min) {
        return min;
    }
    if x.gt(max) {
        return max;
    }
    x
}

/// A clamped number lies within the bounds, unless it is a NaN.
pub proof fn lemma_clamp_within(x: Scalar, min: Scalar, max: Scalar)
    requires
        min.spec_le(max),
    ensures
        spec_clamp(x, min, max).spec_is_nan() == x.spec_is_nan(),
        !x.spec_is_nan() ==> min.spec_le(spec_clamp(x, min, max)) && spec_clamp(x, min, max).spec_le(
            max,
        ),
{
}

} // verus!
