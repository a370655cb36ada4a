//! How surfaces scatter light: diffuse, metallic and transparent materials.
use vstd::prelude::*;
use crate::hittable::HitRecord;
use crate::ray::Ray;
use crate::rtweekend::random_double;
use crate::arith::is_zero_bits;
use crate::scalar::{Scalar, ONE_BITS, SIGN_BIT};
use crate::vec3::{
    dot, on_unit_sphere, random_in_unit_sphere, reflect, refract, spec_dot, spec_keeps,
    spec_on_unit_sphere, spec_reflect, spec_refract, spec_unit_vector, unit_vector, Color, Vec3,
};

verus! {

/// The random quantities one scattering may consume.
#[derive(Clone, Copy, Debug, PartialEq, Eq, Structural)]
pub struct Draws {
    /// Picks the angle of a random unit vector; from the unit interval.
    pub turn: Scalar,
    /// Picks the height of a random unit vector; from the unit interval.
    pub height: Scalar,
    /// A point of the unit ball.
    pub ball: Vec3,
    /// Decides between reflection and refraction; from the unit interval.
    pub chance: Scalar,
}

impl Draws {
    /// Whether the quantities lie where a sampler puts them.
    pub open spec fn valid(self) -> bool {
        &&& self.turn.in_unit_interval()
        &&& self.height.in_unit_interval()
        &&& self.chance.in_unit_interval()
        &&& (self.ball == Vec3::zero() || spec_keeps(self.ball))
    }

    /// Draws in which every quantity is zero.
    pub open spec fn still() -> Draws {
        Draws {
            turn: Scalar { bits: 0 },
            height: Scalar { bits: 0 },
            ball: Vec3::zero(),
            chance: Scalar { bits: 0 },
        }
    }

    /// Draws in which every quantity is zero: a unit vector along the
    /// negative third axis, no fuzz, and reflection whenever it is possible.
    pub fn new() -> (d: Draws)
        ensures
            d == Draws::still(),
            d.valid(),
    {
        Draws {
            turn: Scalar { bits: 0 },
            height: Scalar { bits: 0 },
            ball: Vec3::new(),
            chance: Scalar { bits: 0 },
        }
    }
}

/// What a scattering yields: the color factor of the bounce and the ray that
/// leaves the surface.
#[derive(Clone, Copy, Debug, PartialEq, Eq, Structural)]
pub struct Scatter {
    pub attenuation: Color,
    pub scattered: Ray,
}

/// A material: it turns an incoming ray and a hit into an outgoing ray and
/// an attenuation, or absorbs the ray.
pub trait Material {
    /// What the material does with the ray for given random draws.
    spec fn spec_scatter(&self, r_in: Ray, rec: HitRecord, draws: Draws) -> Option<Scatter>;

    /// Scatters with the random quantities supplied by the caller.
    fn scatter_with(&self, r_in: &Ray, rec: &HitRecord, draws: &Draws) -> (res: Option<Scatter>)
        ensures
            res == self.spec_scatter(*r_in, *rec, *draws),
    ;

    /// Scatters with random quantities drawn on the spot.
    fn scatter(&self, r_in: &Ray, rec: &HitRecord) -> (res: Option<Scatter>)
        ensures
            exists|draws: Draws|
                draws.valid() && res == #[trigger] self.spec_scatter(*r_in, *rec, draws),
    ;
}

/// A diffuse material: it scatters every ray, in a direction spread around
/// the surface normal.
#[derive(Clone, Copy, Debug, PartialEq, Eq, Structural)]
pub struct Lambertian {
    pub albedo: Color,
}

impl Lambertian {
    /// A diffuse material of the given color.
    pub fn new(a: &Color) -> (m: Lambertian)
        ensures
            m.albedo == *a,
    {
        Lambertian { albedo: *a }
    }
}

impl Material for Lambertian {
    /// The ray leaves the hit point along the normal plus the drawn unit
    /// vector, tinted by the albedo. It is never absorbed.
    open spec fn spec_scatter(&self, r_in: Ray, rec: HitRecord, draws: Draws) -> Option<Scatter> {
        Some(
            Scatter {
                attenuation: self.albedo,
                scattered: Ray {
                    orig: rec.p,
                    dir: rec.normal.spec_add(spec_on_unit_sphere(draws.turn, draws.height)),
                },
            },
        )
    }

    fn scatter_with(&self, r_in: &Ray, rec: &HitRecord, draws: &Draws) -> (res: Option<Scatter>)
        ensures
            res is Some,
    {
        let scatter_direction = rec.normal.add(on_unit_sphere(draws.turn, draws.height));
        Some(Scatter { attenuation: self.albedo, scattered: Ray { orig: rec.p, dir: scatter_direction } })
    }

    fn scatter(&self, r_in: &Ray, rec: &HitRecord) -> (res: Option<Scatter>)
        ensures
            res is Some,
    {
        let turn = random_double();
        let height = random_double();
        let draws = Draws { turn, height, ball: Vec3::new(), chance: Scalar { bits: 0 } };
        let res = self.scatter_with(r_in, rec, &draws);
        assert(draws.valid() && res == self.spec_scatter(*r_in, *rec, draws));
        res
    }
}

/// A metal: it mirrors rays, the reflection blurred by `fuzz`.
#[derive(Clone, Copy, Debug, PartialEq, Eq, Structural)]
pub struct Metal {
    pub albedo: Color,
    pub fuzz: Scalar,
}

impl Metal {
    /// The fuzz a metal is built with: `f` limited to the range from zero
    /// to one. A negative `f` gives zero; an `f` of one or more gives one,
    /// and so does a NaN.
    pub open spec fn spec_fuzz(f: Scalar) -> Scalar {
        if f.spec_lt(Scalar { bits: ONE_BITS }) {
            if f.spec_lt(Scalar { bits: 0 }) {
                Scalar { bits: 0 }
            } else {
                f
            }
        } else {
            Scalar { bits: ONE_BITS }
        }
    }

    /// Whether the fuzz lies in the range from zero to one.
    pub open spec fn well_formed(self) -> bool {
        (Scalar { bits: 0 }).spec_le(self.fuzz) && self.fuzz.spec_le(Scalar { bits: ONE_BITS })
    }

    /// A metal of the given color, its fuzz limited to the range from zero
    /// to one.
    pub fn new(a: &Color, f: Scalar) -> (m: Metal)
        ensures
            m.albedo == *a,
            m.fuzz == Metal::spec_fuzz(f),
            m.well_formed(),
    {
        let fuzz = if f.lt(Scalar { bits: ONE_BITS }) {
            if f.lt(Scalar { bits: 0 }) {
                Scalar { bits: 0 }
            } else {
                f
            }
        } else {
            Scalar { bits: ONE_BITS }
        };
        Metal { albedo: *a, fuzz }
    }

    /// The direction in which a metal sends a ray on: the mirror image of
    /// the incoming unit direction, plus the drawn ball point scaled by the
    /// fuzz.
    pub open spec fn spec_outgoing(self, r_in: Ray, rec: HitRecord, ball: Vec3) -> Vec3 {
        spec_reflect(spec_unit_vector(r_in.dir), rec.normal).spec_add(ball.spec_scale(self.fuzz))
    }
}

/// Whether adding a zero leaves `x` as it is, bit for bit: `x` is finite
/// and not the negative zero.
pub open spec fn spec_keeps_under_zero(x: Scalar) -> bool {
    x.spec_is_finite() && x.bits != SIGN_BIT
}

impl Metal {
    /// Whether the metal is a perfect mirror for this ray and this ball
    /// point: its fuzz is zero, the ball point is finite, and the mirror
    /// direction is made of finite numbers none of which is the negative
    /// zero. The outgoing direction is then the mirror direction bit for
    /// bit, whatever the ball point.
    pub open spec fn spec_mirrors(self, r_in: Ray, rec: HitRecord, ball: Vec3) -> bool {
        let reflected = spec_reflect(spec_unit_vector(r_in.dir), rec.normal);
        &&& is_zero_bits(self.fuzz.bits)
        &&& ball.is_finite()
        &&& spec_keeps_under_zero(reflected.x)
        &&& spec_keeps_under_zero(reflected.y)
        &&& spec_keeps_under_zero(reflected.z)
    }
}

impl Material for Metal {
    /// The ray leaves the hit point in the blurred mirror direction, tinted
    /// by the albedo; it is absorbed unless that direction points away from
    /// the surface. With a fuzz of zero the direction is the mirror
    /// direction itself.
    open spec fn spec_scatter(&self, r_in: Ray, rec: HitRecord, draws: Draws) -> Option<Scatter> {
        let dir = self.spec_outgoing(r_in, rec, draws.ball);
        if spec_dot(dir, rec.normal).spec_gt(Scalar { bits: 0 }) {
            Some(Scatter { attenuation: self.albedo, scattered: Ray { orig: rec.p, dir } })
        } else {
            None
        }
    }

    fn scatter_with(&self, r_in: &Ray, rec: &HitRecord, draws: &Draws) -> (res: Option<Scatter>)
        ensures
            self.spec_mirrors(*r_in, *rec, draws.ball) ==> self.spec_outgoing(
                *r_in,
                *rec,
                draws.ball,
            ) == spec_reflect(spec_unit_vector(r_in.dir), rec.normal),
    {
        let reflected = reflect(&unit_vector(r_in.direction()), &rec.normal);
        let scattered = Ray { orig: rec.p, dir: reflected.add(draws.ball.scale(self.fuzz)) };
        if dot(&scattered.direction(), &rec.normal).gt(Scalar { bits: 0 }) {
            Some(Scatter { attenuation: self.albedo, scattered })
        } else {
            None
        }
    }

    fn scatter(&self, r_in: &Ray, rec: &HitRecord) -> (res: Option<Scatter>)
        ensures
            exists|draws: Draws|
                {
                    &&& draws.valid()
                    &&& res == #[trigger] self.spec_scatter(*r_in, *rec, draws)
                    &&& self.spec_mirrors(*r_in, *rec, draws.ball) ==> self.spec_outgoing(
                        *r_in,
                        *rec,
                        draws.ball,
                    ) == spec_reflect(spec_unit_vector(r_in.dir), rec.normal)
                },
    {
        let ball = random_in_unit_sphere();
        let draws = Draws { turn: Scalar { bits: 0 }, height: Scalar { bits: 0 }, ball, chance: Scalar { bits: 0 } };
        let res = self.scatter_with(r_in, rec, &draws);
        assert(draws.valid() && res == self.spec_scatter(*r_in, *rec, draws));
        res
    }
}

/// Schlick's approximation of the reflectance of a transparent surface:
/// `r0 + (1 - r0) * (1 - cosine)^5` with `r0 = ((1 - ref_idx) / (1 + ref_idx))^2`.
pub open spec fn spec_schlick(cosine: Scalar, ref_idx: Scalar) -> Scalar {
    let one = Scalar { bits: ONE_BITS };
    let r0 = spec_schlick_base(ref_idx);
    r0.spec_add(one.spec_sub(r0).spec_mul(one.spec_sub(cosine).spec_pow5()))
}

/// The reflectance at normal incidence: `((1 - ref_idx) / (1 + ref_idx))^2`.
pub open spec fn spec_schlick_base(ref_idx: Scalar) -> Scalar {
    let one = Scalar { bits: ONE_BITS };
    let q = one.spec_sub(ref_idx).spec_div(one.spec_add(ref_idx));
    q.spec_mul(q)
}

/// Whether the reflectance at normal incidence is an ordinary number for
/// this index: it and its complement `1 - r0` are finite, and it is not
/// negative. It is not for the index `-1`, where the quotient has the
/// divisor zero.
pub open spec fn spec_schlick_base_is_plain(ref_idx: Scalar) -> bool {
    let r0 = spec_schlick_base(ref_idx);
    r0.spec_is_finite() && !r0.sign_negative() && (Scalar { bits: ONE_BITS }).spec_sub(
        r0,
    ).spec_is_finite()
}

/// The reflection coefficient by Schlick's approximation.
///
/// At normal incidence, where the cosine is one, the coefficient is the
/// base reflectance exactly, as long as that is an ordinary number.
#[verifier::when_used_as_spec(spec_schlick)]
pub fn schlick(cosine: Scalar, ref_idx: Scalar) -> (r: Scalar)
    ensures
        r == spec_schlick(cosine, ref_idx),
        cosine == (Scalar { bits: ONE_BITS }) && spec_schlick_base_is_plain(ref_idx) ==> r
            == spec_schlick_base(ref_idx),
{
    let one = Scalar { bits: ONE_BITS };
    let mut r0 = one.sub(ref_idx).div(one.add(ref_idx));
    r0 = r0.mul(r0);
    r0.add(one.sub(r0).mul(one.sub(cosine).pow5()))
}

/// A transparent material such as glass or water.
#[derive(Clone, Copy, Debug, PartialEq, Eq, Structural)]
pub struct Dielectric {
    /// The refractive index.
    pub ref_idx: Scalar,
}

impl Dielectric {
    /// A transparent material with the refractive index `ri`.
    pub fn new(ri: Scalar) -> (m: Dielectric)
        ensures
            m.ref_idx == ri,
    {
        Dielectric { ref_idx: ri }
    }

    /// The ratio of the refractive indices across the surface, seen from
    /// the side the ray comes from: `1 / ref_idx` on the way in, `ref_idx`
    /// on the way out.
    pub open spec fn spec_ratio(self, rec: HitRecord) -> Scalar {
        if rec.front_face {
            self.ref_idx.spec_recip()
        } else {
            self.ref_idx
        }
    }

    /// The cosine of the angle of incidence, capped at one.
    pub open spec fn spec_cos_theta(r_in: Ray, rec: HitRecord) -> Scalar {
        spec_dot(spec_unit_vector(r_in.dir).spec_neg(), rec.normal).spec_min(Scalar { bits: ONE_BITS })
    }

    /// Whether the ray is mirrored rather than refracted: always under total
    /// internal reflection, that is when `ratio * sin(theta)` exceeds one;
    /// otherwise when the drawn chance falls below the Schlick reflectance.
    pub open spec fn spec_reflects(self, r_in: Ray, rec: HitRecord, chance: Scalar) -> bool {
        let one = Scalar { bits: ONE_BITS };
        let ratio = self.spec_ratio(rec);
        let cos_theta = Dielectric::spec_cos_theta(r_in, rec);
        let sin_theta = one.spec_sub(cos_theta.spec_mul(cos_theta)).spec_sqrt();
        ratio.spec_mul(sin_theta).spec_gt(one) || chance.spec_lt(spec_schlick(cos_theta, ratio))
    }
}

impl Material for Dielectric {
    /// The ray leaves the hit point mirrored or refracted, with its color
    /// unchanged. It is never absorbed.
    open spec fn spec_scatter(&self, r_in: Ray, rec: HitRecord, draws: Draws) -> Option<Scatter> {
        let one = Scalar { bits: ONE_BITS };
        let unit_direction = spec_unit_vector(r_in.dir);
        let dir = if self.spec_reflects(r_in, rec, draws.chance) {
            spec_reflect(unit_direction, rec.normal)
        } else {
            spec_refract(unit_direction, rec.normal, self.spec_ratio(rec))
        };
        Some(
            Scatter {
                attenuation: Vec3 { x: one, y: one, z: one },
                scattered: Ray { orig: rec.p, dir },
            },
        )
    }

    fn scatter_with(&self, r_in: &Ray, rec: &HitRecord, draws: &Draws) -> (res: Option<Scatter>)
        ensures
            res is Some,
    {
        let one = Scalar { bits: ONE_BITS };
        let attenuation = Vec3 { x: one, y: one, z: one };
        let etai_over_etat = if rec.front_face {
            self.ref_idx.recip()
        } else {
            self.ref_idx
        };
        let unit_direction = unit_vector(r_in.direction());
        let cos_theta = dot(&unit_direction.neg(), &rec.normal).min(one);
        let sin_theta = one.sub(cos_theta.mul(cos_theta)).sqrt();
        if etai_over_etat.mul(sin_theta).gt(one) {
            let reflected = reflect(&unit_direction, &rec.normal);
            return Some(Scatter { attenuation, scattered: Ray { orig: rec.p, dir: reflected } });
        }
        let reflect_prob = schlick(cos_theta, etai_over_etat);
        if draws.chance.lt(reflect_prob) {
            let reflected = reflect(&unit_direction, &rec.normal);
            return Some(Scatter { attenuation, scattered: Ray { orig: rec.p, dir: reflected } });
        }
        let refracted = refract(&unit_direction, &rec.normal, etai_over_etat);
        Some(Scatter { attenuation, scattered: Ray { orig: rec.p, dir: refracted } })
    }

    fn scatter(&self, r_in: &Ray, rec: &HitRecord) -> (res: Option<Scatter>)
        ensures
            res is Some,
    {
        let chance = random_double();
        let draws = Draws { turn: Scalar { bits: 0 }, height: Scalar { bits: 0 }, ball: Vec3::new(), chance };
        let res = self.scatter_with(r_in, rec, &draws);
        assert(draws.valid() && res == self.spec_scatter(*r_in, *rec, draws));
        res
    }
}

/// The material of a surface: one of the three kinds.
#[derive(Clone, Copy, Debug, PartialEq, Eq, Structural)]
pub enum Surface {
    Lambertian(Lambertian),
    Metal(Metal),
    Dielectric(Dielectric),
}

impl Material for Surface {
    /// What the material inside does.
    open spec fn spec_scatter(&self, r_in: Ray, rec: HitRecord, draws: Draws) -> Option<Scatter> {
        match *self {
            Surface::Lambertian(m) => m.spec_scatter(r_in, rec, draws),
            Surface::Metal(m) => m.spec_scatter(r_in, rec, draws),
            Surface::Dielectric(m) => m.spec_scatter(r_in, rec, draws),
        }
    }

    fn scatter_with(&self, r_in: &Ray, rec: &HitRecord, draws: &Draws) -> (res: Option<Scatter>) {
        match self {
            Surface::Lambertian(m) => m.scatter_with(r_in, rec, draws),
            Surface::Metal(m) => m.scatter_with(r_in, rec, draws),
            Surface::Dielectric(m) => m.scatter_with(r_in, rec, draws),
        }
    }

    fn scatter(&self, r_in: &Ray, rec: &HitRecord) -> (res: Option<Scatter>) {
        match self {
            Surface::Lambertian(m) => {
                let res = m.scatter(r_in, rec);
                proof {
                    let d = choose|d: Draws| d.valid() && res == #[trigger] m.spec_scatter(*r_in, *rec, d);
                    assert(d.valid() && res == self.spec_scatter(*r_in, *rec, d));
                }
                res
            },
            Surface::Metal(m) => {
                let res = m.scatter(r_in, rec);
                proof {
                    let d = choose|d: Draws| d.valid() && res == #[trigger] m.spec_scatter(*r_in, *rec, d);
                    assert(d.valid() && res == self.spec_scatter(*r_in, *rec, d));
                }
                res
            },
            Surface::Dielectric(m) => {
                let res = m.scatter(r_in, rec);
                proof {
                    let d = choose|d: Draws| d.valid() && res == #[trigger] m.spec_scatter(*r_in, *rec, d);
                    assert(d.valid() && res == self.spec_scatter(*r_in, *rec, d));
                }
                res
            },
        }
    }
}

} // verus!
