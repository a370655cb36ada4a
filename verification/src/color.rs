//! Turning accumulated light into the text of a pixel.
use vstd::prelude::*;
use crate::arith::is_zero_bits;
use crate::convert::{lemma_truncated_fraction, lemma_truncated_normal};
use crate::rtweekend::{clamp, lemma_clamp_within, spec_clamp};
use crate::scalar::Scalar;
use crate::vec3::Color;

verus! {

/// The pattern of `0.999`, the brightest value a channel can show.
pub const CHANNEL_CAP_BITS: u64 = 0x3fef_f7ce_d916_872b;

/// The ASCII code of the digit zero.
pub const DIGIT_ZERO: u8 = 48;

/// The ASCII code of the space.
pub const SPACE: u8 = 32;

/// The ASCII code of the line feed.
pub const LINE_FEED: u8 = 10;

/// The factor that averages `samples_per_pixel` samples:
/// `1 / samples_per_pixel`.
pub open spec fn spec_sample_scale(samples_per_pixel: i32) -> Scalar {
    Scalar::spec_from_int(samples_per_pixel as int).spec_recip()
}

/// The value of a channel before it is cut to a byte: the average
/// `scale * sum`, gamma-corrected by a square root and clamped to the range
/// from zero to `0.999`.
pub open spec fn spec_corrected(sum: Scalar, scale: Scalar) -> Scalar {
    spec_clamp(
        scale.spec_mul(sum).spec_sqrt(),
        Scalar { bits: 0 },
        Scalar { bits: CHANNEL_CAP_BITS },
    )
}

/// The byte of a channel: 256 times the corrected value, cut to a whole
/// number.
pub open spec fn spec_channel(sum: Scalar, scale: Scalar) -> int {
    spec_corrected(sum, scale).truncated(8)
}

/// The decimal digits of `n` in ASCII, without leading zeros.
pub open spec fn spec_decimal(n: nat) -> Seq<u8>
    decreases n,
{
    if n < 10 {
        seq![(DIGIT_ZERO + n) as u8]
    } else {
        spec_decimal(n / 10).push((DIGIT_ZERO + n % 10) as u8)
    }
}

/// The text of a pixel: its three channels in decimal, separated by single
/// spaces and ended by a line feed.
pub open spec fn spec_pixel_line(pixel_color: Color, samples_per_pixel: i32) -> Seq<u8> {
    let scale = spec_sample_scale(samples_per_pixel);
    spec_decimal(spec_channel(pixel_color.x, scale) as nat).push(SPACE) + spec_decimal(
        spec_channel(pixel_color.y, scale) as nat,
    ).push(SPACE) + spec_decimal(spec_channel(pixel_color.z, scale) as nat).push(LINE_FEED)
}

/// Whatever light a channel has gathered, its byte lies between 0 and 255.
/// This holds of a NaN too, which comes out as 0.
pub proof fn lemma_channel_is_a_byte(sum: Scalar, scale: Scalar)
    ensures
        0 <= spec_channel(sum, scale) <= 255,
{
    let raw = scale.spec_mul(sum).spec_sqrt();
    let low = Scalar { bits: 0 };
    let cap = Scalar { bits: CHANNEL_CAP_BITS };
    let c = spec_clamp(raw, low, cap);
    lemma_clamp_within(raw, low, cap);
    lemma_truncated_fraction(c, cap, 8);
    vstd::arithmetic::power2::lemma2_to64();
}

/// A channel whose corrected light reaches `0.999` shows 255, and one whose
/// corrected light is zero or negative shows 0.
pub proof fn lemma_channel_saturates(sum: Scalar, scale: Scalar)
    ensures
        scale.spec_mul(sum).spec_sqrt().spec_ge(Scalar { bits: CHANNEL_CAP_BITS })
            ==> spec_channel(sum, scale) == 255,
        scale.spec_mul(sum).spec_sqrt().spec_le(Scalar { bits: 0 }) ==> spec_channel(sum, scale)
            == 0,
{
    let raw = scale.spec_mul(sum).spec_sqrt();
    let cap = Scalar { bits: CHANNEL_CAP_BITS };
    let zero = Scalar { bits: 0 };
    let c = spec_clamp(raw, zero, cap);
    vstd::arithmetic::power2::lemma2_to64();
    vstd::arithmetic::power2::lemma2_to64_rest();
    vstd::arithmetic::power2::lemma_pow2_pos(1074);
    if raw.spec_ge(cap) {
        assert(c == cap);
        assert(cap.exponent() == 1022);
        assert(cap.fraction() == 0xf_f7ce_d916_872b);
        lemma_truncated_normal(cap, 8);
        assert(vstd::arithmetic::power2::pow2(45) == 0x2000_0000_0000);
        assert((0x10_0000_0000_0000 + 0xf_f7ce_d916_872b) / 0x2000_0000_0000 == 255int);
        assert(c.truncated(8) == 255);
    }
    if raw.spec_le(zero) {
        assert(c.abs_bits() == 0);
        assert(c.magnitude() == 0);
        assert(c.magnitude() * vstd::arithmetic::power2::pow2(8) == 0) by (nonlinear_arith)
            requires
                c.magnitude() == 0,
        ;
    }
}

/// The byte of a channel that has gathered `sum` over samples averaged by
/// `scale`.
pub fn channel(sum: Scalar, scale: Scalar) -> (byte: u8)
    ensures
        byte == spec_channel(sum, scale),
        scale.spec_is_finite() && is_zero_bits(sum.bits) ==> byte == 0,
{
    let corrected = clamp(scale.mul(sum).sqrt(), Scalar { bits: 0 }, Scalar { bits: CHANNEL_CAP_BITS });
    let whole = corrected.scaled_to_i32(8);
    proof {
        lemma_channel_is_a_byte(sum, scale);
        lemma_channel_saturates(sum, scale);
    }
    whole as u8
}

/// Appends the decimal digits of `n` to `out`.
pub fn push_decimal(out: &mut Vec<u8>, n: u64)
    ensures
        final(out)@ == old(out)@ + spec_decimal(n as nat),
    decreases n,
{
    if n >= 10 {
        push_decimal(out, n / 10);
    }
    out.push(DIGIT_ZERO + (n % 10) as u8);
    proof {
        assert(final(out)@ =~= old(out)@ + spec_decimal(n as nat));
    }
}

/// Appends the text of a pixel to `out`.
///
/// `pixel_color` holds, per channel, the light summed over
/// `samples_per_pixel` samples. Each channel is averaged, gamma-corrected
/// for gamma 2, clamped, and written as a whole number from 0 to 255.
pub fn write_color(out: &mut Vec<u8>, pixel_color: Color, samples_per_pixel: i32)
    ensures
        final(out)@ == old(out)@ + spec_pixel_line(pixel_color, samples_per_pixel),
{
    let scale = Scalar::from_i32(samples_per_pixel).recip();
    let r = channel(pixel_color.x(), scale);
    let g = channel(pixel_color.y(), scale);
    let b = channel(pixel_color.z(), scale);
    push_decimal(out, r as u64);
    out.push(SPACE);
    push_decimal(out, g as u64);
    out.push(SPACE);
    push_decimal(out, b as u64);
    out.push(LINE_FEED);
    proof {
        assert(final(out)@ =~= old(out)@ + spec_pixel_line(pixel_color, samples_per_pixel));
    }
}

} // verus!
