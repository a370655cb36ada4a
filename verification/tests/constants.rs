use raytracer::color::CHANNEL_CAP_BITS;
use raytracer::render::{SKY_GREEN_BITS, T_MIN_BITS};
use raytracer::rtweekend::{infinity, pi, HALF_TURN_BITS, PI_BITS, TWO_PI_BITS};
use raytracer::scalar::{FRACTION_SPAN, HALF_BITS, INFINITY_BITS, ONE_BITS, SIGN_BIT, TWO_BITS};
use raytracer::scene::{
    DIFFUSE_SHARE_BITS, FOUR_BITS, GLASS_INDEX_BITS, GROUND_DEPTH_BITS, GROUND_RADIUS_BITS,
    JITTER_BITS, MATTE_BLUE_BITS, MATTE_RED_BITS, METAL_GREEN_BITS, METAL_RED_BITS,
    METAL_SHARE_BITS, MINUS_FOUR_BITS, SMALL_RADIUS_BITS,
};
use raytracer::scene_data::{
    COVER_APERTURE_BITS, COVER_ASPECT_BITS, COVER_FOCUS_BITS, FIELD_OF_VIEW_BITS, MINUS_TWO_BITS,
    THIRTEEN_BITS, THREE_BITS, WIDE_ASPECT_BITS,
};
use raytracer::vec3::MINUS_ONE_BITS;

#[test]
fn scalar_constants_are_the_patterns_they_are_named_for() {
    assert_eq!(SIGN_BIT, (-0.0f64).to_bits());
    assert_eq!(INFINITY_BITS, f64::INFINITY.to_bits());
    assert_eq!(FRACTION_SPAN, 1u64 << 52);
    assert_eq!(ONE_BITS, 1.0f64.to_bits());
    assert_eq!(TWO_BITS, 2.0f64.to_bits());
    assert_eq!(HALF_BITS, 0.5f64.to_bits());
    assert_eq!(MINUS_ONE_BITS, (-1.0f64).to_bits());
}

#[test]
fn angle_constants_are_the_patterns_they_are_named_for() {
    assert_eq!(PI_BITS, 3.1415926535897932385f64.to_bits());
    assert_eq!(PI_BITS, std::f64::consts::PI.to_bits());
    assert_eq!(TWO_PI_BITS, (2.0 * 3.1415926535897932385f64).to_bits());
    assert_eq!(HALF_TURN_BITS, 180.0f64.to_bits());
    assert_eq!(pi().to_bits(), PI_BITS);
    assert_eq!(infinity().to_bits(), f64::INFINITY.to_bits());
}

#[test]
fn render_constants_are_the_patterns_they_are_named_for() {
    assert_eq!(T_MIN_BITS, 0.001f64.to_bits());
    assert_eq!(SKY_GREEN_BITS, 0.7f64.to_bits());
    assert_eq!(CHANNEL_CAP_BITS, 0.999f64.to_bits());
}

#[test]
fn scene_constants_are_the_patterns_they_are_named_for() {
    assert_eq!(GROUND_RADIUS_BITS, 1000.0f64.to_bits());
    assert_eq!(GROUND_DEPTH_BITS, (-1000.0f64).to_bits());
    assert_eq!(SMALL_RADIUS_BITS, 0.2f64.to_bits());
    assert_eq!(JITTER_BITS, 0.9f64.to_bits());
    assert_eq!(FOUR_BITS, 4.0f64.to_bits());
    assert_eq!(MINUS_FOUR_BITS, (-4.0f64).to_bits());
    assert_eq!(DIFFUSE_SHARE_BITS, 0.8f64.to_bits());
    assert_eq!(METAL_SHARE_BITS, 0.95f64.to_bits());
    assert_eq!(GLASS_INDEX_BITS, 1.5f64.to_bits());
    assert_eq!(MATTE_RED_BITS, 0.4f64.to_bits());
    assert_eq!(MATTE_BLUE_BITS, 0.1f64.to_bits());
    assert_eq!(METAL_RED_BITS, 0.7f64.to_bits());
    assert_eq!(METAL_GREEN_BITS, 0.6f64.to_bits());
}

#[test]
fn configuration_constants_are_the_patterns_they_are_named_for() {
    assert_eq!(WIDE_ASPECT_BITS, (16.0f64 / 9.0).to_bits());
    assert_eq!(COVER_ASPECT_BITS, (3.0f64 / 2.0).to_bits());
    assert_eq!(FIELD_OF_VIEW_BITS, 20.0f64.to_bits());
    assert_eq!(MINUS_TWO_BITS, (-2.0f64).to_bits());
    assert_eq!(THIRTEEN_BITS, 13.0f64.to_bits());
    assert_eq!(THREE_BITS, 3.0f64.to_bits());
    assert_eq!(COVER_FOCUS_BITS, 10.0f64.to_bits());
    assert_eq!(COVER_APERTURE_BITS, 0.1f64.to_bits());
}
