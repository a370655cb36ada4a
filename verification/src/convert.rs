//! The exact value of a [`Scalar`], and its conversions to and from integers.
//!
//! Every finite double is a whole multiple of `2^-1074`. Its
//! [`magnitude`](Scalar::magnitude) is that multiple, a natural number, so
//! statements about values become statements about integers.
use vstd::prelude::*;
use vstd::arithmetic::power2::{pow2, lemma_pow2_adds, lemma_pow2_pos, lemma_pow2_strictly_increases, lemma2_to64, lemma2_to64_rest};
use vstd::arithmetic::div_mod::{lemma_div_multiples_vanish_quotient, lemma_div_is_ordered, lemma_div_multiples_vanish, lemma_basic_div_specific_divisor};
use vstd::arithmetic::mul::lemma_mul_is_associative;
use vstd::bits::{lemma_u64_shl_is_mul, lemma_u64_shr_is_div};
use crate::scalar::{Scalar, FRACTION_SPAN, INFINITY_BITS, ONE_BITS, SIGN_BIT};

verus! {

/// The exponent of the unit in which magnitudes are counted: `2^-1074`,
/// the smallest positive double.
pub open spec fn unit_exponent() -> nat {
    1074
}

impl Scalar {
    /// The absolute value in units of `2^-1074`.
    ///
    /// For a subnormal it is the fraction; for a normal number with biased
    /// exponent `e` it is `(2^52 + fraction) * 2^(e-1)`. On an infinity or a
    /// NaN the same formula gives a number no finite double reaches.
    pub open spec fn magnitude(self) -> nat {
        if self.exponent() == 0 {
            self.fraction() as nat
        } else {
            ((FRACTION_SPAN as int + self.fraction()) * pow2((self.exponent() - 1) as nat)) as nat
        }
    }

    /// Whether this is the double whose value is the integer `n`
    /// (for `n == 0`, positive zero).
    pub open spec fn represents(self, n: int) -> bool {
        &&& self.spec_is_finite()
        &&& self.sign_negative() == (n < 0)
        &&& self.magnitude() == (if n < 0 { -n } else { n }) * pow2(unit_exponent())
    }

    /// The double whose value is the integer `n`, for `|n| < 2^52`.
    pub open spec fn spec_from_int(n: int) -> Scalar {
        if n == 0 {
            Scalar { bits: 0 }
        } else if n > 0 {
            Scalar { bits: spec_whole_bits(n as nat, 1023) as u64 }
        } else {
            Scalar { bits: spec_whole_bits((-n) as nat, 1023) as u64 }.spec_neg()
        }
    }

    /// The double `m * 2^-52`, for `m < 2^52`.
    pub open spec fn spec_from_unit_fraction(m: nat) -> Scalar {
        if m == 0 {
            Scalar { bits: 0 }
        } else {
            Scalar { bits: spec_whole_bits(m, 971) as u64 }
        }
    }

    /// Whether this lies in the half-open interval from zero to one:
    /// not negative, not a NaN, and below `1.0`.
    pub open spec fn in_unit_interval(self) -> bool {
        self.bits < ONE_BITS
    }

    /// `self * 2^shift` cut to an `i32` as a cast does it: toward zero,
    /// saturating at the ends of the range, and zero for a NaN.
    pub open spec fn truncated(self, shift: nat) -> int {
        if self.spec_is_nan() {
            0
        } else {
            let whole: int = (self.magnitude() * pow2(shift)) as int / pow2(unit_exponent()) as int;
            if self.sign_negative() {
                if whole >= 0x8000_0000 { -0x8000_0000 } else { -whole }
            } else {
                if whole > 0x7fff_ffff { 0x7fff_ffff } else { whole }
            }
        }
    }
}

/// The position of the highest set bit of `n`: the `k` with
/// `2^k <= n < 2^(k+1)`, and zero for `n == 0`.
pub open spec fn spec_top_bit(n: nat) -> nat
    decreases n,
{
    if n <= 1 {
        0
    } else {
        1 + spec_top_bit(n / 2)
    }
}

/// The pattern of the positive double `n * 2^(base - 1023)` for a whole
/// number `n` from one up to `2^52`: the exponent field is `base` plus the
/// position of the highest set bit of `n`, the fraction the bits below that
/// one, moved up against the exponent.
pub open spec fn spec_whole_bits(n: nat, base: nat) -> int {
    let k = spec_top_bit(n);
    (base + k) * FRACTION_SPAN + (n - pow2(k)) * pow2((52 - k) as nat)
}

/// The highest set bit of a number from `2^k` up to `2^(k+1)` is bit `k`.
proof fn lemma_top_bit(n: nat, k: nat)
    requires
        pow2(k) <= n < pow2(k + 1),
    ensures
        spec_top_bit(n) == k,
    decreases k,
{
    lemma2_to64();
    if k == 0 {
    } else {
        lemma_pow2_adds((k - 1) as nat, 1);
        lemma_pow2_adds(k, 1);
        lemma_pow2_pos((k - 1) as nat);
        lemma_top_bit(n / 2, (k - 1) as nat);
    }
}

/// Scaling by `2^p` and then by `2^q` is scaling by `2^(p+q)`.
proof fn lemma_mul_pow2_adds(a: int, p: nat, q: nat)
    ensures
        (a * pow2(p)) * pow2(q) == a * pow2(p + q),
{
    lemma_pow2_adds(p, q);
    lemma_mul_is_associative(a, pow2(p) as int, pow2(q) as int);
}

/// Dividing `a * 2^t` by `2^1074` when `t` is below 1074.
proof fn lemma_units_below(a: int, t: nat)
    requires
        0 <= a,
        t < 1074,
    ensures
        (a * pow2(t)) / (pow2(1074) as int) == a / (pow2((1074 - t) as nat) as int),
{
    let x = pow2(t) as int;
    let d = pow2((1074 - t) as nat) as int;
    lemma_pow2_pos(t);
    lemma_pow2_pos((1074 - t) as nat);
    lemma_pow2_adds(t, (1074 - t) as nat);
    assert(pow2(1074) == x * d);
    lemma_div_multiples_vanish_quotient(x, a, d);
    assert(a * x == x * a) by (nonlinear_arith);
}

/// A product of a number below `2^53` with `2^t` stays below `2^1074`
/// while `t` is at most 1021, so it holds no whole unit.
proof fn lemma_no_whole_unit(a: int, t: nat)
    requires
        0 <= a < 0x20_0000_0000_0000,
        t <= 1021,
    ensures
        (a * pow2(t)) / (pow2(1074) as int) == 0,
{
    lemma2_to64_rest();
    lemma_pow2_pos(t);
    lemma_pow2_adds(53, t);
    assert(a * pow2(t) < pow2(53) * pow2(t)) by (nonlinear_arith)
        requires
            0 <= a < pow2(53),
            pow2(t) > 0,
    ;
    if t < 1021 {
        lemma_pow2_strictly_increases(53 + t, 1074);
    }
    assert(a * pow2(t) >= 0) by (nonlinear_arith)
        requires
            0 <= a,
            pow2(t) > 0,
    ;
    lemma_basic_div_specific_divisor(pow2(1074) as int);
}

/// A product of a number from `2^52` on with `2^t` holds at least `2^31`
/// whole units once `t` reaches 1053.
proof fn lemma_many_whole_units(a: int, t: nat)
    requires
        0x10_0000_0000_0000 <= a,
        t >= 1053,
    ensures
        (a * pow2(t)) / (pow2(1074) as int) >= 0x8000_0000,
{
    lemma2_to64();
    lemma2_to64_rest();
    lemma_pow2_pos(t);
    lemma_pow2_pos(1074);
    lemma_pow2_adds(52, t);
    lemma_pow2_adds(31, 1074);
    if 52 + t > 1105 {
        lemma_pow2_strictly_increases(1105, 52 + t);
    }
    assert(a * pow2(t) >= pow2(52) * pow2(t)) by (nonlinear_arith)
        requires
            pow2(52) <= a,
            pow2(t) > 0,
    ;
    let low = pow2(31) * pow2(1074);
    assert(low <= a * pow2(t));
    lemma_div_is_ordered(low as int, a * pow2(t), pow2(1074) as int);
    lemma_div_multiples_vanish(pow2(31) as int, pow2(1074) as int);
}

/// The whole part of a positive normal double scaled by `2^shift`, where
/// that part is neither zero nor beyond fifty-three bits: the significand
/// `2^52 + fraction` with its low bits cut off.
pub proof fn lemma_truncated_normal(c: Scalar, shift: nat)
    requires
        !c.sign_negative(),
        1 <= c.exponent() <= 2046,
        1022 <= c.exponent() - 1 + shift < 1053,
    ensures
        c.truncated(shift) == (FRACTION_SPAN as int + c.fraction()) / (pow2(
            (1075 - c.exponent() - shift) as nat,
        ) as int),
{
    let a = FRACTION_SPAN as int + c.fraction();
    let t = (c.exponent() - 1 + shift) as nat;
    let down = (1074 - t) as nat;
    lemma2_to64();
    lemma2_to64_rest();
    lemma_mul_pow2_adds(a, (c.exponent() - 1) as nat, shift);
    lemma_units_below(a, t);
    lemma_pow2_pos(down);
    lemma_pow2_adds(down, (t - 1021) as nat);
    if t < 1052 {
        lemma_pow2_strictly_increases((t - 1021) as nat, 31);
    }
    let whole = a / (pow2(down) as int);
    assert(0 <= whole < pow2((t - 1021) as nat)) by (nonlinear_arith)
        requires
            whole == a / (pow2(down) as int),
            0 <= a < pow2(down) * pow2((t - 1021) as nat),
            pow2(down) > 0,
    ;
}

/// A larger pattern, the sign bit aside, stands for a larger magnitude.
pub proof fn lemma_magnitude_increases(a: Scalar, b: Scalar)
    requires
        a.abs_bits() < b.abs_bits(),
    ensures
        a.magnitude() < b.magnitude(),
{
    let span = FRACTION_SPAN as int;
    let ea = a.exponent();
    let eb = b.exponent();
    let fa = a.fraction();
    let fb = b.fraction();
    lemma2_to64();
    if ea == eb {
        if ea > 0 {
            let p = pow2((ea - 1) as nat) as int;
            lemma_pow2_pos((ea - 1) as nat);
            assert((span + fa) * p < (span + fb) * p) by (nonlinear_arith)
                requires
                    fa < fb,
                    p > 0,
            ;
        }
    } else {
        let low = pow2(ea as nat) as int;
        let high = pow2((eb - 1) as nat) as int;
        lemma_pow2_pos(ea as nat);
        lemma_pow2_pos((eb - 1) as nat);
        if ea < eb - 1 {
            lemma_pow2_strictly_increases(ea as nat, (eb - 1) as nat);
        }
        if ea > 0 {
            let p = pow2((ea - 1) as nat) as int;
            lemma_pow2_pos((ea - 1) as nat);
            lemma_pow2_adds((ea - 1) as nat, 1);
            assert((span + fa) * p < span * (p * 2)) by (nonlinear_arith)
                requires
                    0 <= fa < span,
                    p > 0,
            ;
        } else {
            assert(span * low >= span) by (nonlinear_arith)
                requires
                    low >= 1,
                    span > 0,
            ;
        }
        assert(span * low <= (span + fb) * high) by (nonlinear_arith)
            requires
                0 < low <= high,
                0 <= fb,
                span > 0,
        ;
    }
}

/// The exact value in units of `2^-1074`, with its sign.
pub open spec fn spec_value_units(a: Scalar) -> int {
    if a.sign_negative() {
        -(a.magnitude() as int)
    } else {
        a.magnitude() as int
    }
}

/// The order of scalars is the order of their values: among scalars that
/// are not NaN, `<` and `<=` hold exactly where they hold of the exact
/// values.
pub proof fn lemma_order_is_by_value(a: Scalar, b: Scalar)
    requires
        !a.spec_is_nan(),
        !b.spec_is_nan(),
    ensures
        a.spec_lt(b) <==> spec_value_units(a) < spec_value_units(b),
        a.spec_le(b) <==> spec_value_units(a) <= spec_value_units(b),
{
    if a.abs_bits() < b.abs_bits() {
        lemma_magnitude_increases(a, b);
    }
    if b.abs_bits() < a.abs_bits() {
        lemma_magnitude_increases(b, a);
    }
    let zero = Scalar { bits: 0 };
    if 0 < a.abs_bits() {
        lemma_magnitude_increases(zero, a);
    }
    if 0 < b.abs_bits() {
        lemma_magnitude_increases(zero, b);
    }
}

/// Every double below one in absolute value has a magnitude below `2^1074`,
/// the magnitude of one.
pub proof fn lemma_magnitude_below_one(a: Scalar)
    requires
        a.abs_bits() < ONE_BITS,
    ensures
        a.magnitude() < pow2(unit_exponent()),
{
    let one = Scalar { bits: ONE_BITS };
    lemma2_to64_rest();
    lemma_pow2_adds(52, 1022);
    assert(one.exponent() == 1023);
    assert(one.fraction() == 0);
    lemma_magnitude_increases(a, one);
}

/// A scalar between zero and a bound below one, scaled by `2^shift` and cut
/// to an integer, lies in `0 ..< 2^shift`. So does a NaN, which is cut to zero.
pub proof fn lemma_truncated_fraction(c: Scalar, bound: Scalar, shift: nat)
    requires
        c.spec_is_nan() || (Scalar { bits: 0 }.spec_le(c) && c.spec_le(bound)),
        bound.abs_bits() < ONE_BITS,
        shift <= 31,
    ensures
        0 <= c.truncated(shift) < pow2(shift),
{
    lemma2_to64();
    lemma_pow2_pos(shift);
    lemma_pow2_pos(1074);
    if !c.spec_is_nan() {
        assert(c.abs_bits() < ONE_BITS);
        lemma_magnitude_below_one(c);
        let m = c.magnitude() as int;
        let s = pow2(shift) as int;
        let u = pow2(1074) as int;
        assert(m * s < s * u) by (nonlinear_arith)
            requires
                0 <= m < u,
                s > 0,
        ;
        assert(m * s >= 0) by (nonlinear_arith)
            requires
                0 <= m,
                s > 0,
        ;
        let whole = (m * s) / u;
        assert(0 <= whole < s) by (nonlinear_arith)
            requires
                0 <= m * s < s * u,
                u > 0,
                whole == (m * s) / u,
        ;
        assert(c.sign_negative() ==> c.abs_bits() == 0);
        if c.sign_negative() {
            assert(m == 0);
            assert(m * s == 0) by (nonlinear_arith)
                requires
                    m == 0,
            ;
            assert(whole == 0);
        }
        if shift == 31 {
        } else {
            lemma_pow2_strictly_increases(shift, 31);
        }
    }
}

impl Scalar {
    /// The positive double `n * 2^(base - 1023)`, for a whole number `n`
    /// of at most fifty-two bits: the highest set bit of `n` becomes the
    /// implicit bit, the bits below it the fraction.
    fn from_whole(n: u64, base: u64) -> (r: Scalar)
        requires
            0 < n < FRACTION_SPAN,
            1 <= base <= 1023,
        ensures
            r.bits == spec_whole_bits(n as nat, base as nat),
            r.bits < (base + 52) * FRACTION_SPAN,
            r.magnitude() == n * pow2((base + 51) as nat),
    {
        let mut k: u64 = 0;
        let mut top: u64 = 1;
        proof {
            lemma2_to64();
            lemma2_to64_rest();
        }
        while top * 2 <= n
            invariant
                top == pow2(k as nat),
                1 <= top <= n < FRACTION_SPAN,
                k <= 51,
            decreases n - top,
        {
            proof {
                lemma_pow2_adds(k as nat, 1);
                lemma2_to64();
                lemma2_to64_rest();
                if k >= 51 {
                    lemma_pow2_strictly_increases(52, (k + 1) as nat);
                }
            }
            top = top * 2;
            k = k + 1;
        }
        let rest: u64 = n - top;
        let shift: u64 = 52 - k;
        proof {
            lemma_pow2_adds(k as nat, 1);
            lemma_top_bit(n as nat, k as nat);
            lemma_pow2_pos(shift as nat);
            lemma_pow2_adds(k as nat, shift as nat);
            assert(rest * pow2(shift as nat) < pow2(k as nat) * pow2(shift as nat))
                by (nonlinear_arith)
                requires
                    0 <= rest < pow2(k as nat),
                    pow2(shift as nat) > 0,
            ;
            assert(rest * pow2(shift as nat) >= 0) by (nonlinear_arith)
                requires
                    0 <= rest,
                    pow2(shift as nat) > 0,
            ;
            lemma_u64_shl_is_mul(rest, shift);
        }
        let fraction: u64 = rest << shift;
        let bits: u64 = (base + k) * FRACTION_SPAN + fraction;
        let r = Scalar { bits };
        proof {
            assert(r.abs_bits() == bits);
            assert(r.exponent() == base + k);
            assert(r.fraction() == fraction);
            let p = pow2(shift as nat) as int;
            assert(FRACTION_SPAN as int + fraction == n * p) by (nonlinear_arith)
                requires
                    FRACTION_SPAN as int == top * p,
                    fraction == rest * p,
                    rest == n - top,
            ;
            lemma_mul_pow2_adds(n as int, shift as nat, (base + k - 1) as nat);
        }
        r
    }

    /// The double whose value is `n`.
    pub fn from_u32(n: u32) -> (r: Scalar)
        ensures
            r == Scalar::spec_from_int(n as int),
            r.represents(n as int),
    {
        if n == 0 {
            Scalar { bits: 0 }
        } else {
            Scalar::from_whole(n as u64, 1023)
        }
    }

    /// The double `m * 2^-52`, for `m` below `2^52`: the doubles of this form
    /// are spread evenly over the half-open interval from zero to one.
    pub fn from_unit_fraction(m: u64) -> (r: Scalar)
        requires
            m < FRACTION_SPAN,
        ensures
            r == Scalar::spec_from_unit_fraction(m as nat),
            r.in_unit_interval(),
            r.magnitude() == m * pow2(1022),
    {
        if m == 0 {
            Scalar { bits: 0 }
        } else {
            Scalar::from_whole(m, 971)
        }
    }

    /// The double whose value is `n`.
    pub fn from_i32(n: i32) -> (r: Scalar)
        ensures
            r == Scalar::spec_from_int(n as int),
            r.represents(n as int),
    {
        if n >= 0 {
            Scalar::from_u32(n as u32)
        } else {
            let size: u32 = if n == i32::MIN { 0x8000_0000 } else { (-n) as u32 };
            Scalar::from_u32(size).neg()
        }
    }

    /// `self * 2^shift` as an `i32`: cut toward zero, saturating, zero for a
    /// NaN. With `shift == 8` this is what the cast `(256.0 * x) as i32`
    /// computes, since scaling by a power of two is exact.
    pub fn scaled_to_i32(self, shift: u8) -> (n: i32)
        ensures
            n == self.truncated(shift as nat),
    {
        let negative = self.bits >= SIGN_BIT;
        let m: u64 = if negative { self.bits - SIGN_BIT } else { self.bits };
        if m > INFINITY_BITS {
            return 0;
        }
        let e: u64 = m / FRACTION_SPAN;
        let f: u64 = m % FRACTION_SPAN;
        proof {
            lemma2_to64_rest();
            lemma_pow2_pos(shift as nat);
        }
        if e == 0 {
            proof {
                lemma_no_whole_unit(f as int, shift as nat);
            }
            return 0;
        }
        let a: u64 = FRACTION_SPAN + f;
        let t: u64 = e - 1 + shift as u64;
        proof {
            lemma_mul_pow2_adds(a as int, (e - 1) as nat, shift as nat);
            assert(self.magnitude() * pow2(shift as nat) == a * pow2(t as nat));
        }
        if t < 1022 {
            proof {
                lemma_no_whole_unit(a as int, t as nat);
            }
            return 0;
        }
        if t >= 1053 {
            proof {
                lemma_many_whole_units(a as int, t as nat);
            }
            return if negative { i32::MIN } else { i32::MAX };
        }
        let down: u64 = 1074 - t;
        let whole: u64 = a >> down;
        proof {
            lemma_units_below(a as int, t as nat);
            lemma_u64_shr_is_div(a, down);
            lemma2_to64();
            lemma2_to64_rest();
            lemma_pow2_pos(down as nat);
            lemma_pow2_adds(down as nat, (t - 1021) as nat);
            if t < 1052 {
                lemma_pow2_strictly_increases((t - 1021) as nat, 31);
            }
            assert(whole < pow2((t - 1021) as nat)) by (nonlinear_arith)
                requires
                    whole == a as int / (pow2(down as nat) as int),
                    a < pow2(down as nat) * pow2((t - 1021) as nat),
                    pow2(down as nat) > 0,
            ;
        }
        if negative { -(whole as i32) } else { whole as i32 }
    }

    /// The value as an `i32`, as the cast `x as i32` gives it.
    pub fn to_i32(self) -> (n: i32)
        ensures
            n == self.truncated(0),
    {
        self.scaled_to_i32(0)
    }
}

} // verus!
