//! The integrator: the color a ray brings back, and the pixels made of it.
use vstd::prelude::*;
use crate::hittable::Hittable;
use crate::material::{Draws, Material};
use crate::ray::Ray;
use crate::rtweekend::{infinity, spec_infinity};
use crate::scalar::{Scalar, HALF_BITS, ONE_BITS};
use crate::vec3::{spec_unit_vector, unit_vector, Color, Vec3};

verus! {

/// The pattern of `0.001`: hits nearer than this are ignored, so that a
/// scattered ray does not hit the surface it leaves.
pub const T_MIN_BITS: u64 = 0x3f50_624d_d2f1_a9fc;

/// The pattern of `0.7`, the green of the sky.
pub const SKY_GREEN_BITS: u64 = 0x3fe6_6666_6666_6666;

/// The white at the horizon.
pub open spec fn spec_white() -> Color {
    Vec3 { x: Scalar { bits: ONE_BITS }, y: Scalar { bits: ONE_BITS }, z: Scalar { bits: ONE_BITS } }
}

/// The blue of the sky overhead: `(0.5, 0.7, 1.0)`.
pub open spec fn spec_sky() -> Color {
    Vec3 {
        x: Scalar { bits: HALF_BITS },
        y: Scalar { bits: SKY_GREEN_BITS },
        z: Scalar { bits: ONE_BITS },
    }
}

/// The color of the background behind a ray: with
/// `t = 0.5 * (unit(dir).y + 1)` the blend `(1 - t) * white + t * sky`.
pub open spec fn spec_background(r: Ray) -> Color {
    let one = Scalar { bits: ONE_BITS };
    let t = Scalar { bits: HALF_BITS }.spec_mul(spec_unit_vector(r.dir).y.spec_add(one));
    spec_white().spec_scale(one.spec_sub(t)).spec_add(spec_sky().spec_scale(t))
}

/// The color of the background behind a ray.
pub fn background(r: &Ray) -> (c: Color)
    ensures
        c == spec_background(*r),
{
    let one = Scalar { bits: ONE_BITS };
    let white = Vec3 { x: one, y: one, z: one };
    let sky = Vec3 { x: Scalar { bits: HALF_BITS }, y: Scalar { bits: SKY_GREEN_BITS }, z: one };
    let unit_direction = unit_vector(r.direction());
    let t = Scalar { bits: HALF_BITS }.mul(unit_direction.y().add(one));
    white.scale(one.sub(t)).add(sky.scale(t))
}

/// The entry of `tape` at `index`, and still draws where the tape has no
/// such entry.
pub open spec fn spec_draws_at(tape: Seq<Draws>, index: int) -> Draws {
    if 0 <= index < tape.len() {
        tape[index]
    } else {
        Draws::still()
    }
}

/// The entry of `tape` at `index`, and still draws where the tape has no
/// such entry.
fn draws_at(tape: &Vec<Draws>, index: usize) -> (d: Draws)
    ensures
        d == spec_draws_at(tape@, index as int),
{
    if index < tape.len() {
        tape[index]
    } else {
        Draws::new()
    }
}

/// The color that the ray `r` brings back from `world` when it may bounce
/// `depth` more times and the bounce with `d` bounces left scatters by the
/// entry `d - 1` of `tape`.
///
/// With no bounce left the color is black. A ray that hits nothing beyond
/// the parameter `0.001` brings the background. A ray that hits a surface
/// is scattered by its material: absorbed, it brings black; sent on, it
/// brings the color of the new ray, one bounce deeper, multiplied channel
/// by channel by the attenuation.
pub open spec fn spec_trace<H: Hittable>(r: Ray, world: &H, depth: int, tape: Seq<Draws>) -> Color
    decreases depth,
{
    if depth <= 0 {
        Vec3::zero()
    } else {
        match world.spec_hit(r, Scalar { bits: T_MIN_BITS }, spec_infinity()) {
            None => spec_background(r),
            Some(rec) => match rec.mat_ptr {
                None => Vec3::zero(),
                Some(material) => match material.spec_scatter(r, rec, spec_draws_at(tape, depth - 1)) {
                    None => Vec3::zero(),
                    Some(s) => s.attenuation.spec_mul(
                        spec_trace(s.scattered, world, depth - 1, tape),
                    ),
                },
            },
        }
    }
}

/// A path of `depth` bounces reads only the first `depth` entries of its
/// tape.
pub proof fn lemma_trace_reads_prefix<H: Hittable>(
    r: Ray,
    world: &H,
    depth: int,
    first: Seq<Draws>,
    second: Seq<Draws>,
)
    requires
        forall|i: int| 0 <= i < depth ==> spec_draws_at(first, i) == spec_draws_at(second, i),
    ensures
        spec_trace(r, world, depth, first) == spec_trace(r, world, depth, second),
    decreases depth,
{
    if depth > 0 {
        match world.spec_hit(r, Scalar { bits: T_MIN_BITS }, spec_infinity()) {
            None => {},
            Some(rec) => match rec.mat_ptr {
                None => {},
                Some(material) => match material.spec_scatter(r, rec, spec_draws_at(first, depth - 1)) {
                    None => {},
                    Some(s) => {
                        lemma_trace_reads_prefix(s.scattered, world, depth - 1, first, second);
                    },
                },
            },
        }
    }
}

/// With no bounce left a ray brings back black, whatever the ray, the
/// scene and the tape.
pub proof fn lemma_trace_black_at_depth_zero<H: Hittable>(
    r: Ray,
    world: &H,
    depth: int,
    tape: Seq<Draws>,
)
    requires
        depth <= 0,
    ensures
        spec_trace(r, world, depth, tape) == Vec3::zero(),
{
}

/// The color that `r` brings back from `world` with `depth` bounces left,
/// where the bounce with `d` bounces left scatters by the entry `d - 1` of
/// `tape`, and by still draws where the tape is too short.
pub fn ray_color_with<H: Hittable>(r: &Ray, world: &H, depth: i32, tape: &Vec<Draws>) -> (c: Color)
    ensures
        c == spec_trace(*r, world, depth as int, tape@),
    decreases depth,
{
    if depth <= 0 {
        return Vec3::new();
    }
    match world.hit(r, Scalar { bits: T_MIN_BITS }, infinity()) {
        Some(rec) => {
            match rec.mat_ptr {
                Some(val) => {
                    match val.scatter_with(r, &rec, &draws_at(tape, (depth - 1) as usize)) {
                        Some(s) => s.attenuation.mul(
                            ray_color_with(&s.scattered, world, depth - 1, tape),
                        ),
                        None => Vec3::new(),
                    }
                },
                None => Vec3::new(),
            }
        },
        None => background(r),
    }
}

/// Whether `tape` holds `depth` entries, each of them valid.
pub open spec fn valid_tape(tape: Seq<Draws>, depth: int) -> bool {
    &&& tape.len() == (if depth > 0 {
        depth
    } else {
        0
    })
    &&& forall|i: int| 0 <= i < tape.len() ==> (#[trigger] tape[i]).valid()
}

/// Traces `r` with random scattering and hands back the draws it used.
fn ray_color_traced<H: Hittable>(r: &Ray, world: &H, depth: i32) -> (res: (Color, Ghost<Seq<Draws>>))
    ensures
        valid_tape(res.1@, depth as int),
        res.0 == spec_trace(*r, world, depth as int, res.1@),
    decreases depth,
{
    let ghost still = Seq::new(
        (if depth > 0 {
            depth as nat
        } else {
            0
        }),
        |i: int| Draws::still(),
    );
    if depth <= 0 {
        return (Vec3::new(), Ghost(still));
    }
    match world.hit(r, Scalar { bits: T_MIN_BITS }, infinity()) {
        Some(rec) => {
            match rec.mat_ptr {
                Some(val) => {
                    let scattered = val.scatter(r, &rec);
                    let ghost draws = choose|draws: Draws|
                        draws.valid() && scattered == #[trigger] val.spec_scatter(*r, rec, draws);
                    match scattered {
                        Some(s) => {
                            let (deeper, Ghost(rest)) = ray_color_traced(&s.scattered, world, depth - 1);
                            let ghost tape = rest.push(draws);
                            proof {
                                lemma_trace_reads_prefix(
                                    s.scattered,
                                    world,
                                    depth as int - 1,
                                    rest,
                                    tape,
                                );
                            }
                            (s.attenuation.mul(deeper), Ghost(tape))
                        },
                        None => {
                            let ghost tape = still.update(depth as int - 1, draws);
                            (Vec3::new(), Ghost(tape))
                        },
                    }
                },
                None => (Vec3::new(), Ghost(still)),
            }
        },
        None => (background(r), Ghost(still)),
    }
}

/// The color that the ray `r` brings back from `world` when it may bounce
/// `depth` more times, each bounce scattering at random.
pub fn ray_color<H: Hittable>(r: &Ray, world: &H, depth: i32) -> (c: Color)
    ensures
        depth <= 0 ==> c == Vec3::zero(),
        exists|tape: Seq<Draws>|
            valid_tape(tape, depth as int) && c == #[trigger] spec_trace(
                *r,
                world,
                depth as int,
                tape,
            ),
{
    let (c, Ghost(tape)) = ray_color_traced(r, world, depth);
    assert(valid_tape(tape, depth as int) && c == spec_trace(*r, world, depth as int, tape));
    c
}

} // verus!
