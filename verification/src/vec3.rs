//! Three-component vectors, used for points, directions and colors alike.
use vstd::prelude::*;
use crate::rtweekend::{random_double, spec_spread, spread, TWO_PI_BITS};
use crate::arith::{is_zero_bits, product_with_zero, sum_of_zero};
use crate::scalar::{Scalar, ONE_BITS, TWO_BITS};

verus! {

/// The pattern of `-1.0`.
pub const MINUS_ONE_BITS: u64 = 0xbff0_0000_0000_0000;

/// How many candidates a rejection sampler draws before it settles for the
/// origin. A candidate for the unit ball is refused with probability below
/// one half, so the limit is reached about once in `2^128` calls.
pub const MAX_ATTEMPTS: u32 = 128;

/// A vector of three doubles.
#[derive(Clone, Copy, Debug, PartialEq, Eq, Structural)]
pub struct Vec3 {
    pub x: Scalar,
    pub y: Scalar,
    pub z: Scalar,
}

/// A point in space.
pub type Point3 = Vec3;

/// An RGB color.
pub type Color = Vec3;

impl Vec3 {
    /// The vector of three positive zeros.
    pub open spec fn zero() -> Vec3 {
        Vec3 { x: Scalar { bits: 0 }, y: Scalar { bits: 0 }, z: Scalar { bits: 0 } }
    }

    /// Whether every component is a zero, of either sign.
    pub open spec fn is_null(self) -> bool {
        is_zero_bits(self.x.bits) && is_zero_bits(self.y.bits) && is_zero_bits(self.z.bits)
    }

    /// Whether every component is a NaN.
    pub open spec fn is_all_nan(self) -> bool {
        self.x.spec_is_nan() && self.y.spec_is_nan() && self.z.spec_is_nan()
    }

    /// Whether every component is finite.
    pub open spec fn is_finite(self) -> bool {
        self.x.spec_is_finite() && self.y.spec_is_finite() && self.z.spec_is_finite()
    }

    /// `x*x + y*y + z*z`, summed from the left.
    pub open spec fn spec_length_squared(self) -> Scalar {
        self.x.spec_mul(self.x).spec_add(self.y.spec_mul(self.y)).spec_add(self.z.spec_mul(self.z))
    }

    /// The square root of the squared length.
    pub open spec fn spec_length(self) -> Scalar {
        self.spec_length_squared().spec_sqrt()
    }

    /// Each component negated.
    pub open spec fn spec_neg(self) -> Vec3 {
        Vec3 { x: self.x.spec_neg(), y: self.y.spec_neg(), z: self.z.spec_neg() }
    }

    /// The component-wise sum.
    pub open spec fn spec_add(self, rhs: Vec3) -> Vec3 {
        Vec3 { x: self.x.spec_add(rhs.x), y: self.y.spec_add(rhs.y), z: self.z.spec_add(rhs.z) }
    }

    /// The component-wise difference.
    pub open spec fn spec_sub(self, rhs: Vec3) -> Vec3 {
        Vec3 { x: self.x.spec_sub(rhs.x), y: self.y.spec_sub(rhs.y), z: self.z.spec_sub(rhs.z) }
    }

    /// The component-wise product.
    pub open spec fn spec_mul(self, rhs: Vec3) -> Vec3 {
        Vec3 { x: self.x.spec_mul(rhs.x), y: self.y.spec_mul(rhs.y), z: self.z.spec_mul(rhs.z) }
    }

    /// `t * self`: each component multiplied by `t`, with `t` on the left.
    pub open spec fn spec_scale(self, t: Scalar) -> Vec3 {
        Vec3 { x: t.spec_mul(self.x), y: t.spec_mul(self.y), z: t.spec_mul(self.z) }
    }

    /// `self / t`, computed as `(1 / t) * self`.
    pub open spec fn spec_div(self, t: Scalar) -> Vec3 {
        self.spec_scale(t.spec_recip())
    }

    /// The zero vector.
    pub fn new() -> (v: Vec3)
        ensures
            v == Vec3::zero(),
    {
        Vec3 { x: Scalar { bits: 0 }, y: Scalar { bits: 0 }, z: Scalar { bits: 0 } }
    }

    /// The first component.
    pub fn x(&self) -> (r: Scalar)
        ensures
            r == self.x,
    {
        self.x
    }

    /// The second component.
    pub fn y(&self) -> (r: Scalar)
        ensures
            r == self.y,
    {
        self.y
    }

    /// The third component.
    pub fn z(&self) -> (r: Scalar)
        ensures
            r == self.z,
    {
        self.z
    }

    /// The Euclidean length.
    pub fn length(&self) -> (r: Scalar)
        ensures
            r == self.spec_length(),
            self.is_null() ==> r.bits == 0,
    {
        self.length_squared().sqrt()
    }

    /// The squared Euclidean length.
    pub fn length_squared(&self) -> (r: Scalar)
        ensures
            r == self.spec_length_squared(),
            self.is_null() ==> r.bits == 0,
    {
        self.x.mul(self.x).add(self.y.mul(self.y)).add(self.z.mul(self.z))
    }

    /// A vector whose components are independent draws from the unit
    /// interval.
    pub fn random() -> (v: Vec3)
        ensures
            v.x.in_unit_interval(),
            v.y.in_unit_interval(),
            v.z.in_unit_interval(),
    {
        let x = random_double();
        let y = random_double();
        let z = random_double();
        Vec3 { x, y, z }
    }

    /// The vector that three draws from the unit interval give when each is
    /// spread over the range from `min` to `max`.
    pub open spec fn spec_in_box(min: Scalar, max: Scalar, draws: Vec3) -> Vec3 {
        Vec3 {
            x: spec_spread(min, max, draws.x),
            y: spec_spread(min, max, draws.y),
            z: spec_spread(min, max, draws.z),
        }
    }

    /// Spreads three draws from the unit interval over the range from `min`
    /// to `max`, component by component.
    #[verifier::when_used_as_spec(spec_in_box)]
    pub fn in_box(min: Scalar, max: Scalar, draws: Vec3) -> (v: Vec3)
        ensures
            v == Vec3::spec_in_box(min, max, draws),
    {
        Vec3 { x: spread(min, max, draws.x), y: spread(min, max, draws.y), z: spread(min, max, draws.z) }
    }

    /// A vector whose components are independent random numbers between
    /// `min` and `max`.
    pub fn random_range(min: Scalar, max: Scalar) -> (v: Vec3)
        ensures
            exists|draws: Vec3|
                draws.x.in_unit_interval() && draws.y.in_unit_interval()
                    && draws.z.in_unit_interval() && v == #[trigger] Vec3::spec_in_box(
                    min,
                    max,
                    draws,
                ),
    {
        let draws = Vec3::random();
        Vec3::in_box(min, max, draws)
    }

    /// The opposite vector.
    #[verifier::when_used_as_spec(spec_neg)]
    pub fn neg(self) -> (v: Vec3)
        ensures
            v == self.spec_neg(),
    {
        Vec3 { x: self.x.neg(), y: self.y.neg(), z: self.z.neg() }
    }

    /// Adds `rhs` to this vector in place.
    pub fn add_assign(&mut self, rhs: Vec3)
        ensures
            *final(self) == old(self).spec_add(rhs),
    {
        self.x = self.x.add(rhs.x);
        self.y = self.y.add(rhs.y);
        self.z = self.z.add(rhs.z);
    }

    /// The sum of two vectors.
    #[verifier::when_used_as_spec(spec_add)]
    pub fn add(self, rhs: Vec3) -> (v: Vec3)
        ensures
            v == self.spec_add(rhs),
            sum_of_zero(self.x.bits, rhs.x.bits, v.x.bits),
            sum_of_zero(self.y.bits, rhs.y.bits, v.y.bits),
            sum_of_zero(self.z.bits, rhs.z.bits, v.z.bits),
    {
        Vec3 { x: self.x.add(rhs.x), y: self.y.add(rhs.y), z: self.z.add(rhs.z) }
    }

    /// The difference of two vectors.
    #[verifier::when_used_as_spec(spec_sub)]
    pub fn sub(self, rhs: Vec3) -> (v: Vec3)
        ensures
            v == self.spec_sub(rhs),
    {
        Vec3 { x: self.x.sub(rhs.x), y: self.y.sub(rhs.y), z: self.z.sub(rhs.z) }
    }

    /// The product of two vectors, component by component.
    #[verifier::when_used_as_spec(spec_mul)]
    pub fn mul(self, rhs: Vec3) -> (v: Vec3)
        ensures
            v == self.spec_mul(rhs),
    {
        Vec3 { x: self.x.mul(rhs.x), y: self.y.mul(rhs.y), z: self.z.mul(rhs.z) }
    }

    /// The vector stretched by the factor `t`.
    #[verifier::when_used_as_spec(spec_scale)]
    pub fn scale(self, t: Scalar) -> (v: Vec3)
        ensures
            v == self.spec_scale(t),
            product_with_zero(t.bits, self.x.bits, v.x.bits),
            product_with_zero(t.bits, self.y.bits, v.y.bits),
            product_with_zero(t.bits, self.z.bits, v.z.bits),
    {
        Vec3 { x: t.mul(self.x), y: t.mul(self.y), z: t.mul(self.z) }
    }

    /// The vector shrunk by the divisor `t`.
    #[verifier::when_used_as_spec(spec_div)]
    pub fn div(self, t: Scalar) -> (v: Vec3)
        ensures
            v == self.spec_div(t),
            self.is_null() && is_zero_bits(t.bits) ==> v.is_all_nan(),
    {
        self.scale(t.recip())
    }
}

/// A vector from the patterns of its components.
pub open spec fn spec_vector(x: u64, y: u64, z: u64) -> Vec3 {
    Vec3 { x: Scalar { bits: x }, y: Scalar { bits: y }, z: Scalar { bits: z } }
}

/// A vector from the patterns of its components.
#[verifier::when_used_as_spec(spec_vector)]
pub fn vector(x: u64, y: u64, z: u64) -> (v: Vec3)
    ensures
        v == spec_vector(x, y, z),
{
    Vec3 { x: Scalar { bits: x }, y: Scalar { bits: y }, z: Scalar { bits: z } }
}

/// `u.x*v.x + u.y*v.y + u.z*v.z`, summed from the left.
pub open spec fn spec_dot(u: Vec3, v: Vec3) -> Scalar {
    u.x.spec_mul(v.x).spec_add(u.y.spec_mul(v.y)).spec_add(u.z.spec_mul(v.z))
}

/// The dot product.
pub fn dot(u: &Vec3, v: &Vec3) -> (r: Scalar)
    ensures
        r == spec_dot(*u, *v),
{
    u.x.mul(v.x).add(u.y.mul(v.y)).add(u.z.mul(v.z))
}

/// The cross product, each component a difference of two products.
pub open spec fn spec_cross(u: Vec3, v: Vec3) -> Vec3 {
    Vec3 {
        x: u.y.spec_mul(v.z).spec_sub(u.z.spec_mul(v.y)),
        y: u.z.spec_mul(v.x).spec_sub(u.x.spec_mul(v.z)),
        z: u.x.spec_mul(v.y).spec_sub(u.y.spec_mul(v.x)),
    }
}

/// The cross product.
pub fn cross(u: &Vec3, v: &Vec3) -> (r: Vec3)
    ensures
        r == spec_cross(*u, *v),
{
    Vec3 {
        x: u.y.mul(v.z).sub(u.z.mul(v.y)),
        y: u.z.mul(v.x).sub(u.x.mul(v.z)),
        z: u.x.mul(v.y).sub(u.y.mul(v.x)),
    }
}

/// `v` divided by its length.
pub open spec fn spec_unit_vector(v: Vec3) -> Vec3 {
    v.spec_div(v.spec_length())
}

/// The vector of length one along `v`. For a vector of zeros the length is
/// zero, its reciprocal an infinity, and every component comes out as a
/// NaN.
#[verifier::when_used_as_spec(spec_unit_vector)]
pub fn unit_vector(v: Vec3) -> (r: Vec3)
    ensures
        r == spec_unit_vector(v),
        v.is_null() ==> r.is_all_nan(),
{
    v.div(v.length())
}

/// Whether a rejection sampler keeps the candidate `p`: it refuses a
/// candidate whose squared length is one or more.
pub open spec fn spec_keeps(p: Vec3) -> bool {
    !p.spec_length_squared().spec_ge(Scalar { bits: ONE_BITS })
}

/// Whether a rejection sampler keeps the candidate `p`.
pub fn keeps(p: &Vec3) -> (b: bool)
    ensures
        b == spec_keeps(*p),
{
    !p.length_squared().ge(Scalar { bits: ONE_BITS })
}

/// The candidate for the unit ball that three draws give: each draw spread
/// over the range from minus one to one.
pub open spec fn spec_cube_point(draws: Vec3) -> Vec3 {
    Vec3::spec_in_box(Scalar { bits: MINUS_ONE_BITS }, Scalar { bits: ONE_BITS }, draws)
}

/// Whether `c` is a candidate for the unit ball: the cube point of three
/// draws from the unit interval.
pub open spec fn spec_cube_candidate(c: Vec3) -> bool {
    exists|draws: Vec3|
        draws.x.in_unit_interval() && draws.y.in_unit_interval() && draws.z.in_unit_interval()
            && c == #[trigger] spec_cube_point(draws)
}

/// What a rejection sampler returns for the candidates it looks at in
/// order: the first that it keeps, and the origin where it keeps none.
pub open spec fn spec_first_kept(candidates: Seq<Vec3>) -> Vec3
    decreases candidates.len(),
{
    if candidates.len() == 0 {
        Vec3::zero()
    } else if spec_keeps(candidates[0]) {
        candidates[0]
    } else {
        spec_first_kept(candidates.drop_first())
    }
}

/// Whether `candidates` are what one run of a rejection sampler draws: at
/// least one and at most `MAX_ATTEMPTS` of them, none but the last kept,
/// and fewer than `MAX_ATTEMPTS` only where the last is kept.
pub open spec fn spec_rejection_run(candidates: Seq<Vec3>) -> bool {
    &&& 0 < candidates.len() <= MAX_ATTEMPTS
    &&& forall|i: int| 0 <= i < candidates.len() - 1 ==> !spec_keeps(#[trigger] candidates[i])
    &&& candidates.len() < MAX_ATTEMPTS ==> spec_keeps(candidates.last())
}

/// Candidates that are refused do not count: where the first `n` of them are
/// refused, the sampler returns what it returns for the rest.
pub proof fn lemma_first_kept_skips(candidates: Seq<Vec3>, n: int)
    requires
        0 <= n <= candidates.len(),
        forall|i: int| 0 <= i < n ==> !spec_keeps(#[trigger] candidates[i]),
    ensures
        spec_first_kept(candidates) == spec_first_kept(candidates.skip(n)),
    decreases n,
{
    if n == 0 {
        assert(candidates.skip(0) =~= candidates);
    } else {
        let rest = candidates.drop_first();
        assert forall|i: int| 0 <= i < n - 1 implies !spec_keeps(#[trigger] rest[i]) by {
            assert(rest[i] == candidates[i + 1]);
        }
        lemma_first_kept_skips(rest, n - 1);
        assert(rest.skip(n - 1) =~= candidates.skip(n));
    }
}

/// What a run of a rejection sampler returns: its last candidate where that
/// is kept, and the origin where it is not, which is after `MAX_ATTEMPTS`
/// refusals.
pub proof fn lemma_rejection_run(candidates: Seq<Vec3>)
    requires
        spec_rejection_run(candidates),
    ensures
        spec_first_kept(candidates) == (if spec_keeps(candidates.last()) {
            candidates.last()
        } else {
            Vec3::zero()
        }),
        !spec_keeps(candidates.last()) ==> candidates.len() == MAX_ATTEMPTS,
{
    let n = candidates.len() - 1;
    lemma_first_kept_skips(candidates, n);
    let tail = candidates.skip(n);
    assert(tail.len() == 1);
    assert(tail[0] == candidates.last());
    assert(tail.drop_first().len() == 0);
    assert(spec_first_kept(tail.drop_first()) == Vec3::zero());
    assert(spec_first_kept(tail) == (if spec_keeps(tail[0]) {
        tail[0]
    } else {
        Vec3::zero()
    }));
}

/// The first of the candidates that a rejection sampler keeps, and the
/// origin where it keeps none.
pub fn first_kept(candidates: &Vec<Vec3>) -> (p: Vec3)
    ensures
        p == spec_first_kept(candidates@),
{
    let mut i: usize = 0;
    while i < candidates.len()
        invariant
            i <= candidates.len(),
            forall|k: int| 0 <= k < i ==> !spec_keeps(#[trigger] candidates@[k]),
        decreases candidates.len() - i,
    {
        if keeps(&candidates[i]) {
            proof {
                lemma_first_kept_skips(candidates@, i as int);
                assert(candidates@.skip(i as int)[0] == candidates@[i as int]);
            }
            return candidates[i];
        }
        i = i + 1;
    }
    proof {
        lemma_first_kept_skips(candidates@, i as int);
        assert(candidates@.skip(i as int).len() == 0);
    }
    Vec3::new()
}

/// A random point inside the unit ball, by rejection: candidates are drawn
/// from the enclosing cube until one is kept. After `MAX_ATTEMPTS` refusals
/// the origin is returned.
///
/// The result is what `first_kept` gives for the candidates of one run: the
/// candidate drawn last where that was kept, the origin only after
/// `MAX_ATTEMPTS` candidates were refused.
pub fn random_in_unit_sphere() -> (p: Vec3)
    ensures
        p == Vec3::zero() || (spec_keeps(p) && spec_cube_candidate(p)),
        exists|candidates: Seq<Vec3>|
            {
                &&& spec_rejection_run(candidates)
                &&& forall|i: int|
                    0 <= i < candidates.len() ==> spec_cube_candidate(#[trigger] candidates[i])
                &&& p == #[trigger] spec_first_kept(candidates)
            },
{
    let ghost mut candidates: Seq<Vec3> = Seq::empty();
    let mut attempts: u32 = 0;
    while attempts < MAX_ATTEMPTS
        invariant
            attempts <= MAX_ATTEMPTS,
            candidates.len() == attempts,
            forall|i: int| 0 <= i < candidates.len() ==> !spec_keeps(#[trigger] candidates[i]),
            forall|i: int|
                0 <= i < candidates.len() ==> spec_cube_candidate(#[trigger] candidates[i]),
        decreases MAX_ATTEMPTS - attempts,
    {
        let draws = Vec3::random();
        let p = Vec3::in_box(Scalar { bits: MINUS_ONE_BITS }, Scalar { bits: ONE_BITS }, draws);
        proof {
            assert(p == spec_cube_point(draws));
            assert(spec_cube_candidate(p));
            candidates = candidates.push(p);
        }
        if keeps(&p) {
            proof {
                assert(candidates.last() == p);
                assert(spec_rejection_run(candidates));
                lemma_rejection_run(candidates);
            }
            return p;
        }
        attempts = attempts + 1;
    }
    proof {
        assert(spec_rejection_run(candidates));
        lemma_rejection_run(candidates);
    }
    Vec3::new()
}

/// The unit vector that two draws from the unit interval pick: the first
/// sets the angle `a` around the axis between zero and two pi, the second the
/// height `z` between minus one and one; with `r = sqrt(1 - z*z)` the vector
/// is `(r cos a, r sin a, z)`.
pub open spec fn spec_on_unit_sphere(turn: Scalar, height: Scalar) -> Vec3 {
    let a = spec_spread(Scalar { bits: 0 }, Scalar { bits: TWO_PI_BITS }, turn);
    let z = spec_spread(Scalar { bits: MINUS_ONE_BITS }, Scalar { bits: ONE_BITS }, height);
    let r = Scalar { bits: ONE_BITS }.spec_sub(z.spec_mul(z)).spec_sqrt();
    Vec3 { x: r.spec_mul(a.spec_cos()), y: r.spec_mul(a.spec_sin()), z }
}

/// The unit vector that two draws from the unit interval pick.
#[verifier::when_used_as_spec(spec_on_unit_sphere)]
pub fn on_unit_sphere(turn: Scalar, height: Scalar) -> (v: Vec3)
    ensures
        v == spec_on_unit_sphere(turn, height),
{
    let a = spread(Scalar { bits: 0 }, Scalar { bits: TWO_PI_BITS }, turn);
    let z = spread(Scalar { bits: MINUS_ONE_BITS }, Scalar { bits: ONE_BITS }, height);
    let r = Scalar { bits: ONE_BITS }.sub(z.mul(z)).sqrt();
    Vec3 { x: r.mul(a.cos()), y: r.mul(a.sin()), z }
}

/// A random unit vector, uniform over the sphere.
pub fn random_unit_vector() -> (v: Vec3)
    ensures
        exists|turn: Scalar, height: Scalar|
            turn.in_unit_interval() && height.in_unit_interval() && v
                == #[trigger] spec_on_unit_sphere(turn, height),
{
    let turn = random_double();
    let height = random_double();
    on_unit_sphere(turn, height)
}

/// `v - 2*dot(v, n)*n`.
pub open spec fn spec_reflect(v: Vec3, n: Vec3) -> Vec3 {
    v.spec_sub(n.spec_scale(Scalar { bits: TWO_BITS }.spec_mul(spec_dot(v, n))))
}

/// The mirror image of `v` at a surface with unit normal `n`.
pub fn reflect(v: &Vec3, n: &Vec3) -> (r: Vec3)
    ensures
        r == spec_reflect(*v, *n),
{
    v.sub(n.scale(Scalar { bits: TWO_BITS }.mul(dot(v, n))))
}

/// The refracted direction by Snell's law: with `c = dot(-uv, n)`, the part
/// across the normal is `ratio * (uv + c*n)` and the part along it is
/// `-sqrt(|1 - |across|^2|) * n`; the result is their sum.
pub open spec fn spec_refract(uv: Vec3, n: Vec3, etai_over_etat: Scalar) -> Vec3 {
    let cos_theta = spec_dot(uv.spec_neg(), n);
    let across = uv.spec_add(n.spec_scale(cos_theta)).spec_scale(etai_over_etat);
    let along = n.spec_scale(
        Scalar { bits: ONE_BITS }.spec_sub(across.spec_length_squared()).spec_abs().spec_sqrt().spec_neg(),
    );
    across.spec_add(along)
}

/// The direction of the unit vector `uv` after it crosses a surface with
/// unit normal `n` between media whose refractive indices have the ratio
/// `etai_over_etat`.
pub fn refract(uv: &Vec3, n: &Vec3, etai_over_etat: Scalar) -> (r: Vec3)
    ensures
        r == spec_refract(*uv, *n, etai_over_etat),
{
    let cos_theta = dot(&uv.neg(), n);
    let across = uv.add(n.scale(cos_theta)).scale(etai_over_etat);
    let along = n.scale(Scalar { bits: ONE_BITS }.sub(across.length_squared()).abs().sqrt().neg());
    across.add(along)
}

/// The candidate for the unit disk that two draws give: each spread over
/// the range from minus one to one, with a third component of zero.
pub open spec fn spec_square_point(first: Scalar, second: Scalar) -> Vec3 {
    Vec3 {
        x: spec_spread(Scalar { bits: MINUS_ONE_BITS }, Scalar { bits: ONE_BITS }, first),
        y: spec_spread(Scalar { bits: MINUS_ONE_BITS }, Scalar { bits: ONE_BITS }, second),
        z: Scalar { bits: 0 },
    }
}

/// The candidate for the unit disk that two draws give.
#[verifier::when_used_as_spec(spec_square_point)]
pub fn square_point(first: Scalar, second: Scalar) -> (p: Vec3)
    ensures
        p == spec_square_point(first, second),
{
    Vec3 {
        x: spread(Scalar { bits: MINUS_ONE_BITS }, Scalar { bits: ONE_BITS }, first),
        y: spread(Scalar { bits: MINUS_ONE_BITS }, Scalar { bits: ONE_BITS }, second),
        z: Scalar { bits: 0 },
    }
}

/// Whether `c` is a candidate for the unit disk: the square point of two
/// draws from the unit interval.
pub open spec fn spec_square_candidate(c: Vec3) -> bool {
    exists|first: Scalar, second: Scalar|
        first.in_unit_interval() && second.in_unit_interval() && c
            == #[trigger] spec_square_point(first, second)
}

/// A random point inside the unit disk of the plane `z = 0`, by rejection:
/// candidates are drawn from the enclosing square until one is kept. After
/// `MAX_ATTEMPTS` refusals the origin is returned.
///
/// The result is what `first_kept` gives for the candidates of one run: the
/// candidate drawn last where that was kept, the origin only after
/// `MAX_ATTEMPTS` candidates were refused.
pub fn random_in_unit_disk() -> (p: Vec3)
    ensures
        p.z == (Scalar { bits: 0 }),
        p == Vec3::zero() || (spec_keeps(p) && spec_square_candidate(p)),
        exists|candidates: Seq<Vec3>|
            {
                &&& spec_rejection_run(candidates)
                &&& forall|i: int|
                    0 <= i < candidates.len() ==> spec_square_candidate(#[trigger] candidates[i])
                &&& p == #[trigger] spec_first_kept(candidates)
            },
{
    let ghost mut candidates: Seq<Vec3> = Seq::empty();
    let mut attempts: u32 = 0;
    while attempts < MAX_ATTEMPTS
        invariant
            attempts <= MAX_ATTEMPTS,
            candidates.len() == attempts,
            forall|i: int| 0 <= i < candidates.len() ==> !spec_keeps(#[trigger] candidates[i]),
            forall|i: int|
                0 <= i < candidates.len() ==> spec_square_candidate(#[trigger] candidates[i]),
        decreases MAX_ATTEMPTS - attempts,
    {
        let first = random_double();
        let second = random_double();
        let p = square_point(first, second);
        proof {
            assert(p == spec_square_point(first, second));
            assert(spec_square_candidate(p));
            candidates = candidates.push(p);
        }
        if keeps(&p) {
            proof {
                assert(candidates.last() == p);
                assert(spec_rejection_run(candidates));
                lemma_rejection_run(candidates);
            }
            return p;
        }
        attempts = attempts + 1;
    }
    proof {
        assert(spec_rejection_run(candidates));
        lemma_rejection_run(candidates);
    }
    Vec3::new()
}

/// `p` if it points to the side of `normal`, else `-p`.
pub open spec fn spec_toward(p: Vec3, normal: Vec3) -> Vec3 {
    if spec_dot(p, normal).spec_gt(Scalar { bits: 0 }) {
        p
    } else {
        p.spec_neg()
    }
}

/// Flips `p` into the hemisphere around `normal`.
pub fn toward(p: Vec3, normal: &Vec3) -> (r: Vec3)
    ensures
        r == spec_toward(p, *normal),
{
    if dot(&p, normal).gt(Scalar { bits: 0 }) {
        p
    } else {
        p.neg()
    }
}

/// A random point of the unit ball in the hemisphere around `normal`.
pub fn random_in_hemisphere(normal: &Vec3) -> (r: Vec3)
    ensures
        exists|p: Vec3|
            (p == Vec3::zero() || spec_keeps(p)) && r == #[trigger] spec_toward(p, *normal),
{
    let p = random_in_unit_sphere();
    toward(p, normal)
}

} // verus!
