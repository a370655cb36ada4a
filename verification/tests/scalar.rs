use raytracer::rtweekend::{clamp, degrees_to_radians, random_double, random_double_in_range};
use rand::Rng;
use raytracer::scalar::Scalar;

fn s(x: f64) -> Scalar {
    Scalar::from_bits(x.to_bits())
}

fn f(x: Scalar) -> f64 {
    f64::from_bits(x.to_bits())
}

fn samples() -> Vec<f64> {
    vec![
        0.0,
        -0.0,
        1.0,
        -1.0,
        0.5,
        0.001,
        0.999,
        2.0,
        3.25,
        -7.75,
        255.999,
        1.0e-310,
        -4.9e-324,
        1.0e300,
        -1.0e300,
        123456789.125,
        2147483647.0,
        2147483648.0,
        -2147483648.0,
        -2147483649.5,
        f64::INFINITY,
        f64::NEG_INFINITY,
        f64::NAN,
        f64::MAX,
        f64::MIN_POSITIVE,
    ]
}

#[test]
fn scalar_order_matches_native_order() {
    for a in samples() {
        for b in samples() {
            assert_eq!(s(a).lt(s(b)), a < b, "{} < {}", a, b);
            assert_eq!(s(a).le(s(b)), a <= b, "{} <= {}", a, b);
            assert_eq!(s(a).gt(s(b)), a > b, "{} > {}", a, b);
            assert_eq!(s(a).ge(s(b)), a >= b, "{} >= {}", a, b);
        }
    }
}

#[test]
fn scalar_arithmetic_matches_native_arithmetic() {
    for a in samples() {
        for b in samples() {
            let pairs = [
                (f(s(a).add(s(b))), a + b),
                (f(s(a).sub(s(b))), a - b),
                (f(s(a).mul(s(b))), a * b),
                (f(s(a).div(s(b))), a / b),
            ];
            for (got, want) in pairs {
                if want.is_nan() {
                    assert!(got.is_nan(), "{} ? {}", a, b);
                } else {
                    assert_eq!(got.to_bits(), want.to_bits(), "{} ? {}", a, b);
                }
            }
        }
    }
}

#[test]
fn scalar_sqrt_matches_native_sqrt() {
    for a in samples() {
        let got = f(s(a).sqrt());
        let want = a.sqrt();
        if want.is_nan() {
            assert!(got.is_nan());
        } else {
            assert_eq!(got.to_bits(), want.to_bits(), "sqrt {}", a);
        }
    }
    assert_eq!(f(s(2.0).sqrt()), 2.0f64.sqrt());
    assert_eq!(f(s(100.0).sqrt()), 10.0);
}

#[test]
fn scalar_neg_abs_min_match_native() {
    for a in samples() {
        assert_eq!(s(a).neg().to_bits(), (-a).to_bits());
        assert_eq!(s(a).abs().to_bits(), a.abs().to_bits());
        assert_eq!(s(a).is_nan(), a.is_nan());
        assert_eq!(s(a).is_finite(), a.is_finite());
        for b in samples() {
            let got = f(s(a).min(s(b)));
            let want = a.min(b);
            if want.is_nan() {
                assert!(got.is_nan());
            } else {
                assert_eq!(got, want);
            }
        }
    }
}

#[test]
fn scalar_trigonometry_is_close_to_native() {
    let angles = [0.0, 0.1, 0.5, 1.0, 1.5707963267948966, 2.0, 3.0, 3.141592653589793, 4.5, 6.2, -0.3, -2.5, 100.0, 1.0e6];
    for a in angles {
        assert!((f(s(a).sin()) - a.sin()).abs() < 1.0e-15, "sin {}", a);
        assert!((f(s(a).cos()) - a.cos()).abs() < 1.0e-15, "cos {}", a);
    }
    for a in [1.0e10, 1.0e22, -1.0e22, 1.0e300, 1.0e-300, 5.0e-324, f64::MAX] {
        assert!((f(s(a).sin()) - a.sin()).abs() < 1.0e-15, "sin {}", a);
        assert!((f(s(a).cos()) - a.cos()).abs() < 1.0e-15, "cos {}", a);
    }
    for a in [f64::INFINITY, f64::NEG_INFINITY, f64::NAN] {
        assert!(f(s(a).sin()).is_nan());
        assert!(f(s(a).cos()).is_nan());
    }
    assert!((f(s(0.5).tan()) - 0.5f64.tan()).abs() < 1.0e-15);
    assert_eq!(f(s(0.0).sin()), 0.0);
    assert_eq!(f(s(0.0).cos()), 1.0);
}

#[test]
fn scalar_pow5_and_recip() {
    assert_eq!(f(s(2.0).pow5()), 32.0);
    assert_eq!(f(s(0.5).pow5()), 0.03125);
    assert_eq!(f(s(0.0).pow5()), 0.0);
    assert_eq!(f(s(4.0).recip()), 0.25);
    assert_eq!(f(s(3.0).recip()), 1.0 / 3.0);
}

#[test]
fn scalar_from_integers_is_exact() {
    let values: [u32; 12] = [0, 1, 2, 3, 7, 8, 255, 256, 1199, 65535, 2147483648, 4294967295];
    for n in values {
        assert_eq!(f(Scalar::from_u32(n)), f64::from(n));
    }
    let signed: [i32; 11] = [0, 1, -1, 2, -2, 11, -11, 1000, -1000, i32::MAX, i32::MIN];
    for n in signed {
        assert_eq!(f(Scalar::from_i32(n)), f64::from(n));
    }
    assert_eq!(Scalar::from_i32(0).to_bits(), 0);
}

#[test]
fn scalar_to_i32_matches_the_cast() {
    for a in samples() {
        assert_eq!(s(a).to_i32(), a as i32, "{} as i32", a);
        assert_eq!(s(a).scaled_to_i32(8), (256.0 * a) as i32, "256 * {} as i32", a);
    }
    assert_eq!(s(0.999).scaled_to_i32(8), 255);
    assert_eq!(s(0.5).scaled_to_i32(8), 128);
    assert_eq!(s(-3.99).to_i32(), -3);
    assert_eq!(s(1199.0 / 1.5).to_i32(), 799);
}

#[test]
fn scalar_unit_fraction_covers_the_unit_interval() {
    assert_eq!(f(Scalar::from_unit_fraction(0)), 0.0);
    assert_eq!(f(Scalar::from_unit_fraction(1)), 2.0f64.powi(-52));
    assert_eq!(f(Scalar::from_unit_fraction(1 << 51)), 0.5);
    assert_eq!(f(Scalar::from_unit_fraction((1 << 52) - 1)), 1.0 - 2.0f64.powi(-52));
    assert_eq!(f(Scalar::from_unit_fraction(3 << 50)), 0.75);
}

#[test]
fn random_double_stays_in_the_unit_interval() {
    let mut seen_low = false;
    let mut seen_high = false;
    for _ in 0..2000 {
        let x = f(random_double());
        assert!(0.0 <= x && x < 1.0);
        seen_low = seen_low || x < 0.5;
        seen_high = seen_high || x >= 0.5;
    }
    assert!(seen_low && seen_high);
}

#[test]
fn random_double_in_range_stays_in_the_range() {
    for _ in 0..500 {
        let x = f(random_double_in_range(s(-1.0), s(1.0)));
        assert!(-1.0 <= x && x < 1.0);
        let y = f(random_double_in_range(s(0.5), s(1.0)));
        assert!(0.5 <= y && y < 1.0);
    }
}

#[test]
fn clamp_limits_to_the_range() {
    assert_eq!(f(clamp(s(-0.5), s(0.0), s(0.999))), 0.0);
    assert_eq!(f(clamp(s(1.5), s(0.0), s(0.999))), 0.999);
    assert_eq!(f(clamp(s(0.25), s(0.0), s(0.999))), 0.25);
    assert_eq!(f(clamp(s(0.999), s(0.0), s(0.999))), 0.999);
    assert!(f(clamp(s(f64::NAN), s(0.0), s(0.999))).is_nan());
}

#[test]
fn degrees_to_radians_of_a_half_turn_is_pi() {
    assert_eq!(f(degrees_to_radians(s(180.0))), 3.1415926535897932385);
    assert_eq!(f(degrees_to_radians(s(20.0))), 20.0 * 3.1415926535897932385 / 180.0);
    assert_eq!(f(degrees_to_radians(s(0.0))), 0.0);
}

#[test]
fn scalar_zero_operands_behave_as_in_the_standard() {
    let zero = 0.0f64.to_bits();
    let minus_zero = (-0.0f64).to_bits();
    for a in samples() {
        if a.is_finite() && a != 0.0 {
            assert_eq!(s(a).add(s(0.0)).to_bits(), a.to_bits());
            assert_eq!(s(a).add(s(-0.0)).to_bits(), a.to_bits());
            assert_eq!(s(a).sub(s(0.0)).to_bits(), a.to_bits());
            assert_eq!(s(a).add(s(-a)).to_bits(), zero);
            assert_eq!(s(a).sub(s(a)).to_bits(), zero);
        }
        if a.is_finite() {
            let sign = a.is_sign_negative();
            assert_eq!(s(a).mul(s(0.0)).to_bits(), if sign { minus_zero } else { zero });
            assert_eq!(s(a).mul(s(-0.0)).to_bits(), if sign { zero } else { minus_zero });
        }
    }
    assert_eq!(s(0.0).add(s(0.0)).to_bits(), zero);
    assert_eq!(s(0.0).add(s(-0.0)).to_bits(), zero);
    assert_eq!(s(-0.0).add(s(0.0)).to_bits(), zero);
    assert_eq!(s(-0.0).add(s(-0.0)).to_bits(), minus_zero);
    assert_eq!(s(0.0).sqrt().to_bits(), zero);
    assert_eq!(s(-0.0).sqrt().to_bits(), minus_zero);
    assert_eq!(s(0.0).pow5().to_bits(), zero);
}

fn same(got: f64, want: f64) -> bool {
    (got.is_nan() && want.is_nan()) || got.to_bits() == want.to_bits()
}

fn random_pattern(rng: &mut rand::rngs::ThreadRng) -> f64 {
    let bits: u64 = rng.gen();
    match rng.gen_range(0, 4) {
        0 => f64::from_bits(bits),
        1 => f64::from_bits(bits & 0x800f_ffff_ffff_ffff),
        2 => f64::from_bits((bits & 0x800f_ffff_ffff_ffff) | (rng.gen_range(1000u64, 1050) << 52)),
        _ => f64::from_bits((bits & 0x8000_0000_0000_00ff) | (rng.gen_range(0u64, 2048) << 52)),
    }
}

#[test]
fn scalar_operations_match_native_ones_on_random_patterns() {
    let mut rng = rand::thread_rng();
    for _ in 0..20000 {
        let a = random_pattern(&mut rng);
        let b = random_pattern(&mut rng);
        assert!(same(f(s(a).add(s(b))), a + b), "{:e} + {:e}", a, b);
        assert!(same(f(s(a).sub(s(b))), a - b), "{:e} - {:e}", a, b);
        assert!(same(f(s(a).mul(s(b))), a * b), "{:e} * {:e}", a, b);
        assert!(same(f(s(a).div(s(b))), a / b), "{:e} / {:e}", a, b);
        assert!(same(f(s(a).sqrt()), a.sqrt()), "sqrt {:e}", a);
        assert_eq!(s(a).lt(s(b)), a < b);
        assert_eq!(s(a).le(s(b)), a <= b);
        assert_eq!(s(a).to_i32(), a as i32);
        assert_eq!(s(a).scaled_to_i32(8), (256.0 * a) as i32);
        assert_eq!(s(a).scaled_to_i32(31), (2147483648.0 * a) as i32);
    }
}

#[test]
fn scalar_trigonometry_returns_on_random_patterns() {
    let mut rng = rand::thread_rng();
    for _ in 0..5000 {
        let a = random_pattern(&mut rng);
        let sine = f(s(a).sin());
        let cosine = f(s(a).cos());
        if a.is_finite() {
            assert!((sine - a.sin()).abs() < 1.0e-15, "sin {:e}", a);
            assert!((cosine - a.cos()).abs() < 1.0e-15, "cos {:e}", a);
        } else {
            assert!(sine.is_nan() && cosine.is_nan());
        }
    }
}

#[test]
fn scalar_from_integers_matches_the_conversion_on_random_integers() {
    let mut rng = rand::thread_rng();
    for _ in 0..20000 {
        let n: u32 = rng.gen();
        let shifted = n >> rng.gen_range(0u32, 32);
        assert_eq!(f(Scalar::from_u32(shifted)), f64::from(shifted));
        let i: i32 = rng.gen();
        let shifted = i >> rng.gen_range(0u32, 32);
        assert_eq!(f(Scalar::from_i32(shifted)), f64::from(shifted));
        let m: u64 = rng.gen_range(0u64, 1 << 52);
        assert_eq!(f(Scalar::from_unit_fraction(m)), (m as f64) / 4503599627370496.0);
    }
}

#[test]
fn scalar_zero_on_the_left_behaves_as_on_the_right() {
    let zero = 0.0f64.to_bits();
    let minus_zero = (-0.0f64).to_bits();
    for a in samples() {
        if a.is_finite() && a != 0.0 {
            assert_eq!(s(0.0).add(s(a)).to_bits(), a.to_bits());
            assert_eq!(s(-0.0).add(s(a)).to_bits(), a.to_bits());
        }
        if a.is_finite() {
            let sign = a.is_sign_negative();
            assert_eq!(s(0.0).mul(s(a)).to_bits(), if sign { minus_zero } else { zero });
            assert_eq!(s(-0.0).mul(s(a)).to_bits(), if sign { zero } else { minus_zero });
        }
    }
}

#[test]
fn scalar_zero_and_infinity_give_no_number() {
    for zero in [0.0, -0.0] {
        for infinity in [f64::INFINITY, f64::NEG_INFINITY] {
            assert!(s(zero).mul(s(infinity)).is_nan());
            assert!(s(infinity).mul(s(zero)).is_nan());
        }
    }
}

#[test]
fn scalar_quotients_with_a_zero() {
    let infinity = f64::INFINITY.to_bits();
    let minus_infinity = f64::NEG_INFINITY.to_bits();
    for a in samples() {
        if a.is_nan() || a == 0.0 {
            continue;
        }
        let sign = a.is_sign_negative();
        assert_eq!(s(0.0).div(s(a)).to_bits(), (0.0 / a).to_bits());
        assert_eq!(s(-0.0).div(s(a)).to_bits(), (-0.0 / a).to_bits());
        assert_eq!(s(a).div(s(0.0)).to_bits(), if sign { minus_infinity } else { infinity });
        assert_eq!(s(a).div(s(-0.0)).to_bits(), if sign { infinity } else { minus_infinity });
    }
    assert_eq!(s(1.0).recip().to_bits(), 1.0f64.to_bits());
    assert_eq!(s(0.0).recip().to_bits(), infinity);
    assert_eq!(s(-0.0).recip().to_bits(), minus_infinity);
    assert!(s(0.0).div(s(0.0)).is_nan());
}
