//! The scene of the cover image: a ground, three large spheres, and a field
//! of small spheres scattered at random.
use vstd::prelude::*;
use crate::hittable_list::HittableList;
use crate::material::{Dielectric, Lambertian, Metal, Surface};
use crate::rtweekend::{random_double, spec_spread, spread};
use crate::scalar::{Scalar, HALF_BITS, ONE_BITS};
use crate::sphere::Sphere;
use crate::vec3::{spec_vector, vector, Color, Point3, Vec3};

verus! {

/// The pattern of `1000.0`, the radius of the ground.
pub const GROUND_RADIUS_BITS: u64 = 0x408f_4000_0000_0000;

/// The pattern of `-1000.0`.
pub const GROUND_DEPTH_BITS: u64 = 0xc08f_4000_0000_0000;

/// The pattern of `0.2`, the radius of a small sphere.
pub const SMALL_RADIUS_BITS: u64 = 0x3fc9_9999_9999_999a;

/// The pattern of `0.9`: the reach of the jitter, and the clearance around
/// the metal sphere.
pub const JITTER_BITS: u64 = 0x3fec_cccc_cccc_cccd;

/// The pattern of `4.0`.
pub const FOUR_BITS: u64 = 0x4010_0000_0000_0000;

/// The pattern of `-4.0`.
pub const MINUS_FOUR_BITS: u64 = 0xc010_0000_0000_0000;

/// The pattern of `0.8`: below it a small sphere is diffuse.
pub const DIFFUSE_SHARE_BITS: u64 = 0x3fe9_9999_9999_999a;

/// The pattern of `0.95`: below it a small sphere that is not diffuse is
/// metallic, from it on it is glass.
pub const METAL_SHARE_BITS: u64 = 0x3fee_6666_6666_6666;

/// The pattern of `1.5`, the refractive index of glass.
pub const GLASS_INDEX_BITS: u64 = 0x3ff8_0000_0000_0000;

/// The pattern of `0.4`.
pub const MATTE_RED_BITS: u64 = 0x3fd9_9999_9999_999a;

/// The pattern of `0.1`.
pub const MATTE_BLUE_BITS: u64 = 0x3fb9_9999_9999_999a;

/// The pattern of `0.7`.
pub const METAL_RED_BITS: u64 = 0x3fe6_6666_6666_6666;

/// The pattern of `0.6`.
pub const METAL_GREEN_BITS: u64 = 0x3fe3_3333_3333_3333;

/// The ground: a grey diffuse sphere of radius 1000 that touches the
/// origin from below.
pub open spec fn spec_ground() -> Sphere {
    Sphere {
        center: spec_vector(0, GROUND_DEPTH_BITS, 0),
        radius: Scalar { bits: GROUND_RADIUS_BITS },
        mat_ptr: Surface::Lambertian(
            Lambertian { albedo: spec_vector(HALF_BITS, HALF_BITS, HALF_BITS) },
        ),
    }
}

/// The large glass sphere in the middle.
pub open spec fn spec_glass_ball() -> Sphere {
    Sphere {
        center: spec_vector(0, ONE_BITS, 0),
        radius: Scalar { bits: ONE_BITS },
        mat_ptr: Surface::Dielectric(Dielectric { ref_idx: Scalar { bits: GLASS_INDEX_BITS } }),
    }
}

/// The large brown diffuse sphere behind.
pub open spec fn spec_matte_ball() -> Sphere {
    Sphere {
        center: spec_vector(MINUS_FOUR_BITS, ONE_BITS, 0),
        radius: Scalar { bits: ONE_BITS },
        mat_ptr: Surface::Lambertian(
            Lambertian { albedo: spec_vector(MATTE_RED_BITS, SMALL_RADIUS_BITS, MATTE_BLUE_BITS) },
        ),
    }
}

/// The large polished metal sphere in front.
pub open spec fn spec_metal_ball() -> Sphere {
    Sphere {
        center: spec_vector(FOUR_BITS, ONE_BITS, 0),
        radius: Scalar { bits: ONE_BITS },
        mat_ptr: Surface::Metal(
            Metal {
                albedo: spec_vector(METAL_RED_BITS, METAL_GREEN_BITS, HALF_BITS),
                fuzz: Scalar { bits: 0 },
            },
        ),
    }
}

/// Where the small sphere of the grid cell `(a, b)` stands for the two
/// draws `jx` and `jz`: at `(a + 0.9 * jx, 0.2, b + 0.9 * jz)`.
pub open spec fn spec_place(a: int, b: int, jx: Scalar, jz: Scalar) -> Point3 {
    let reach = Scalar { bits: JITTER_BITS };
    Vec3 {
        x: Scalar::spec_from_int(a).spec_add(reach.spec_mul(jx)),
        y: Scalar { bits: SMALL_RADIUS_BITS },
        z: Scalar::spec_from_int(b).spec_add(reach.spec_mul(jz)),
    }
}

/// Whether a small sphere at `center` keeps clear of the metal sphere: it
/// is more than `0.9` away from `(4, 0.2, 0)`.
pub open spec fn spec_clear(center: Point3) -> bool {
    center.spec_sub(spec_vector(FOUR_BITS, SMALL_RADIUS_BITS, 0)).spec_length().spec_gt(
        Scalar { bits: JITTER_BITS },
    )
}

/// The material of a small sphere for the draw `choose_mat` and the draws
/// that color it: diffuse below `0.8`, with the product of two random
/// colors; metallic below `0.95`, with a color between one half and one and
/// a fuzz between zero and one half; glass otherwise.
pub open spec fn spec_small_material(
    choose_mat: Scalar,
    first: Color,
    second: Color,
    fuzz: Scalar,
) -> Surface {
    if choose_mat.spec_lt(Scalar { bits: DIFFUSE_SHARE_BITS }) {
        Surface::Lambertian(Lambertian { albedo: first.spec_mul(second) })
    } else if choose_mat.spec_lt(Scalar { bits: METAL_SHARE_BITS }) {
        Surface::Metal(
            Metal {
                albedo: Vec3::spec_in_box(Scalar { bits: HALF_BITS }, Scalar { bits: ONE_BITS }, first),
                fuzz: Metal::spec_fuzz(spec_spread(Scalar { bits: 0 }, Scalar { bits: HALF_BITS }, fuzz)),
            },
        )
    } else {
        Surface::Dielectric(Dielectric { ref_idx: Scalar { bits: GLASS_INDEX_BITS } })
    }
}

/// The random quantities of one grid cell.
#[derive(Clone, Copy, Debug, PartialEq, Eq, Structural)]
pub struct CellDraws {
    /// Picks the kind of material; from the unit interval.
    pub choose_mat: Scalar,
    /// Moves the sphere along the first axis; from the unit interval.
    pub jitter_x: Scalar,
    /// Moves the sphere along the third axis; from the unit interval.
    pub jitter_z: Scalar,
    /// Colors the sphere; each component from the unit interval.
    pub first: Color,
    /// Colors a diffuse sphere together with `first`; each component from
    /// the unit interval.
    pub second: Color,
    /// Sets the fuzz of a metallic sphere; from the unit interval.
    pub fuzz: Scalar,
}

/// Whether every component of `draws` lies in the unit interval.
pub open spec fn spec_unit_draws(draws: Vec3) -> bool {
    draws.x.in_unit_interval() && draws.y.in_unit_interval() && draws.z.in_unit_interval()
}

impl CellDraws {
    /// Whether every quantity lies in the unit interval.
    pub open spec fn valid(self) -> bool {
        &&& self.choose_mat.in_unit_interval()
        &&& self.jitter_x.in_unit_interval()
        &&& self.jitter_z.in_unit_interval()
        &&& spec_unit_draws(self.first)
        &&& spec_unit_draws(self.second)
        &&& self.fuzz.in_unit_interval()
    }

    /// Draws in which every quantity is zero.
    pub open spec fn still() -> CellDraws {
        CellDraws {
            choose_mat: Scalar { bits: 0 },
            jitter_x: Scalar { bits: 0 },
            jitter_z: Scalar { bits: 0 },
            first: Vec3::zero(),
            second: Vec3::zero(),
            fuzz: Scalar { bits: 0 },
        }
    }

    /// Draws in which every quantity is zero: a diffuse black sphere at the
    /// corner of its cell.
    pub fn new() -> (d: CellDraws)
        ensures
            d == CellDraws::still(),
            d.valid(),
    {
        CellDraws {
            choose_mat: Scalar { bits: 0 },
            jitter_x: Scalar { bits: 0 },
            jitter_z: Scalar { bits: 0 },
            first: Vec3::new(),
            second: Vec3::new(),
            fuzz: Scalar { bits: 0 },
        }
    }
}

/// The first cell of a grid axis for the extent `x`: `x` itself where it is
/// negative, else zero.
pub open spec fn spec_grid_start(x: int) -> int {
    if x < 0 {
        x
    } else {
        0
    }
}

/// The cell behind the last one of a grid axis for the extent `x`: `-x`
/// where `x` is negative, else zero. A negative extent thus gives `2 * |x|`
/// cells around the origin, any other none.
pub open spec fn spec_grid_end(x: int) -> int {
    if x < 0 {
        -x
    } else {
        0
    }
}

/// How many cells the grid has that the extents `x` and `z` span.
pub open spec fn spec_cell_count(x: int, z: int) -> int {
    (spec_grid_end(x) - spec_grid_start(x)) * (spec_grid_end(z) - spec_grid_start(z))
}

/// The draws of the cell with the number `index`, and still draws where
/// `cells` has no such entry.
pub open spec fn spec_cell_at(cells: Seq<CellDraws>, index: int) -> CellDraws {
    if 0 <= index < cells.len() {
        cells[index]
    } else {
        CellDraws::still()
    }
}

/// The small sphere of the grid cell `(a, b)` for the draws `d`, if the
/// cell gets one: it does exactly if the place that the draws give keeps
/// clear of the metal sphere. The sphere has the radius `0.2` and the
/// material that the draws give.
pub open spec fn spec_cell_sphere(a: int, b: int, d: CellDraws) -> Option<Sphere> {
    let center = spec_place(a, b, d.jitter_x, d.jitter_z);
    if spec_clear(center) {
        Some(
            Sphere {
                center,
                radius: Scalar { bits: SMALL_RADIUS_BITS },
                mat_ptr: spec_small_material(d.choose_mat, d.first, d.second, d.fuzz),
            },
        )
    } else {
        None
    }
}

/// The small spheres of the first `count` cells, in the order in which the
/// cells are numbered: along the third axis first, then along the first.
/// The cell with the number `k` is the cell `(start_x + k / depth,
/// start_z + k % depth)`, where `depth` is the number of cells along the
/// third axis.
pub open spec fn spec_small_spheres(x: int, z: int, cells: Seq<CellDraws>, count: int) -> Seq<
    Sphere,
>
    decreases count,
{
    if count <= 0 {
        Seq::empty()
    } else {
        let before = spec_small_spheres(x, z, cells, count - 1);
        let k = count - 1;
        let depth = spec_grid_end(z) - spec_grid_start(z);
        let a = spec_grid_start(x) + k / depth;
        let b = spec_grid_start(z) + k % depth;
        match spec_cell_sphere(a, b, spec_cell_at(cells, k)) {
            Some(s) => before.push(s),
            None => before,
        }
    }
}

/// The three large spheres that end every scene: glass, matte, metal.
pub open spec fn spec_large_spheres() -> Seq<Sphere> {
    seq![spec_glass_ball(), spec_matte_ball(), spec_metal_ball()]
}

/// The scene for the extents `x` and `z` and the draws `cells`, one entry
/// for each cell: the ground, the small spheres of all cells, and the three
/// large spheres.
pub open spec fn spec_scene(x: int, z: int, cells: Seq<CellDraws>) -> Seq<Sphere> {
    seq![spec_ground()] + spec_small_spheres(x, z, cells, spec_cell_count(x, z))
        + spec_large_spheres()
}

/// Whether `world` is a scene as `random_scene` builds it for the extents
/// `x` and `z`: the scene of some valid draws, one entry for each cell.
pub open spec fn spec_cover_scene(world: Seq<Sphere>, x: int, z: int) -> bool {
    exists|cells: Seq<CellDraws>|
        {
            &&& cells.len() == spec_cell_count(x, z)
            &&& forall|i: int| 0 <= i < cells.len() ==> (#[trigger] cells[i]).valid()
            &&& world == #[trigger] spec_scene(x, z, cells)
        }
}

/// A scene holds the ground, at most one small sphere for each of the
/// first `count` cells, and nothing else before the large spheres.
pub proof fn lemma_small_spheres_count(x: int, z: int, cells: Seq<CellDraws>, count: int)
    requires
        0 <= count,
    ensures
        spec_small_spheres(x, z, cells, count).len() <= count,
    decreases count,
{
    if count > 0 {
        lemma_small_spheres_count(x, z, cells, count - 1);
    }
}

/// Whether a small sphere at `center` keeps clear of the metal sphere.
fn clear(center: &Point3) -> (b: bool)
    ensures
        b == spec_clear(*center),
{
    center.sub(vector(FOUR_BITS, SMALL_RADIUS_BITS, 0)).length().gt(Scalar { bits: JITTER_BITS })
}

/// Where the small sphere of the grid cell `(a, b)` stands for the two
/// draws `jx` and `jz`.
pub fn place(a: i32, b: i32, jx: Scalar, jz: Scalar) -> (center: Point3)
    ensures
        center == spec_place(a as int, b as int, jx, jz),
{
    Vec3 {
        x: Scalar::from_i32(a).add(Scalar { bits: JITTER_BITS }.mul(jx)),
        y: Scalar { bits: SMALL_RADIUS_BITS },
        z: Scalar::from_i32(b).add(Scalar { bits: JITTER_BITS }.mul(jz)),
    }
}

/// The material of a small sphere for the given draws.
pub fn small_material(choose_mat: Scalar, first: Color, second: Color, fuzz: Scalar) -> (m: Surface)
    ensures
        m == spec_small_material(choose_mat, first, second, fuzz),
{
    if choose_mat.lt(Scalar { bits: DIFFUSE_SHARE_BITS }) {
        let albedo = first.mul(second);
        Surface::Lambertian(Lambertian::new(&albedo))
    } else if choose_mat.lt(Scalar { bits: METAL_SHARE_BITS }) {
        let albedo = Vec3::in_box(Scalar { bits: HALF_BITS }, Scalar { bits: ONE_BITS }, first);
        let fuzz = spread(Scalar { bits: 0 }, Scalar { bits: HALF_BITS }, fuzz);
        Surface::Metal(Metal::new(&albedo, fuzz))
    } else {
        Surface::Dielectric(Dielectric::new(Scalar { bits: GLASS_INDEX_BITS }))
    }
}

/// The small sphere of the grid cell `(a, b)` for the draws `d`, if the
/// cell gets one.
pub fn cell_sphere(a: i32, b: i32, d: &CellDraws) -> (s: Option<Sphere>)
    ensures
        s == spec_cell_sphere(a as int, b as int, *d),
{
    let center = place(a, b, d.jitter_x, d.jitter_z);
    if clear(&center) {
        let material = small_material(d.choose_mat, d.first, d.second, d.fuzz);
        Some(Sphere { center, radius: Scalar { bits: SMALL_RADIUS_BITS }, mat_ptr: material })
    } else {
        None
    }
}

/// Which of the coloring draws a cell makes: none where its sphere would
/// not keep clear of the metal sphere; else two colors for a diffuse
/// sphere, one color and the fuzz for a metallic one, none for glass. What
/// is not drawn is zero.
pub open spec fn spec_draws_what_it_needs(a: int, b: int, d: CellDraws) -> bool {
    let is_clear = spec_clear(spec_place(a, b, d.jitter_x, d.jitter_z));
    let diffuse = d.choose_mat.spec_lt(Scalar { bits: DIFFUSE_SHARE_BITS });
    let metallic = !diffuse && d.choose_mat.spec_lt(Scalar { bits: METAL_SHARE_BITS });
    &&& !(is_clear && (diffuse || metallic)) ==> d.first == Vec3::zero()
    &&& !(is_clear && diffuse) ==> d.second == Vec3::zero()
    &&& !(is_clear && metallic) ==> d.fuzz == (Scalar { bits: 0 })
}

/// Draws the random quantities of the grid cell `(a, b)`: the kind of
/// material and the two jitters first, then the colors that the kind asks
/// for, if the cell gets a sphere at all.
fn draw_cell(a: i32, b: i32) -> (d: CellDraws)
    ensures
        d.valid(),
        spec_draws_what_it_needs(a as int, b as int, d),
{
    let choose_mat = random_double();
    let jitter_x = random_double();
    let jitter_z = random_double();
    let mut d = CellDraws {
        choose_mat,
        jitter_x,
        jitter_z,
        first: Vec3::new(),
        second: Vec3::new(),
        fuzz: Scalar { bits: 0 },
    };
    let center = place(a, b, jitter_x, jitter_z);
    if clear(&center) {
        if choose_mat.lt(Scalar { bits: DIFFUSE_SHARE_BITS }) {
            d.first = Vec3::random();
            d.second = Vec3::random();
        } else if choose_mat.lt(Scalar { bits: METAL_SHARE_BITS }) {
            d.first = Vec3::random();
            d.fuzz = random_double();
        }
    }
    d
}

/// The draws of the cell with the number `index`, and still draws where
/// `cells` has no such entry.
fn cell_at(cells: &Vec<CellDraws>, index: u64) -> (d: CellDraws)
    ensures
        d == spec_cell_at(cells@, index as int),
{
    if index < cells.len() as u64 {
        cells[index as usize]
    } else {
        CellDraws::new()
    }
}

/// Builds the scene for the extents `x` and `z` from the draws `cells`.
///
/// The world starts with the ground and ends with the three large spheres:
/// glass, matte, metal. Between them stand the small spheres, cell by cell:
/// a cell gets a sphere exactly if the place that its draws give keeps
/// clear of the metal sphere. A cell without an entry in `cells` takes
/// still draws.
pub fn scene_with(x: i32, z: i32, cells: &Vec<CellDraws>) -> (world: HittableList)
    requires
        x > i32::MIN,
        z > i32::MIN,
    ensures
        world@ == spec_scene(x as int, z as int, cells@),
{
    let mut world = HittableList::new();
    let x_min: i32 = if x < 0 { x } else { 0 };
    let x_max: i32 = if x < 0 { -x } else { 0 };
    let z_min: i32 = if z < 0 { z } else { 0 };
    let z_max: i32 = if z < 0 { -z } else { 0 };
    let ghost width = x_max - x_min;
    let ghost depth = z_max - z_min;
    let ghost xi = x as int;
    let ghost zi = z as int;

    let ground_material = Surface::Lambertian(
        Lambertian::new(&vector(HALF_BITS, HALF_BITS, HALF_BITS)),
    );
    world.add(
        Sphere {
            center: vector(0, GROUND_DEPTH_BITS, 0),
            radius: Scalar { bits: GROUND_RADIUS_BITS },
            mat_ptr: ground_material,
        },
    );

    let mut k: u64 = 0;
    let mut a: i32 = x_min;
    proof {
        assert((a - x_min) * depth == 0) by (nonlinear_arith)
            requires
                a == x_min,
        ;
        assert(world@ =~= seq![spec_ground()] + spec_small_spheres(xi, zi, cells@, 0));
    }
    while a < x_max
        invariant
            x_min <= a <= x_max,
            x_min == spec_grid_start(xi),
            x_max == spec_grid_end(xi),
            z_min == spec_grid_start(zi),
            z_max == spec_grid_end(zi),
            width == x_max - x_min,
            depth == z_max - z_min,
            0 <= width <= 0xffff_fffe,
            0 <= depth <= 0xffff_fffe,
            k == (a - x_min) * depth,
            world@ == seq![spec_ground()] + spec_small_spheres(xi, zi, cells@, k as int),
        decreases x_max - a,
    {
        let mut b: i32 = z_min;
        while b < z_max
            invariant
                x_min <= a < x_max,
                z_min <= b <= z_max,
                x_min == spec_grid_start(xi),
                x_max == spec_grid_end(xi),
                z_min == spec_grid_start(zi),
                z_max == spec_grid_end(zi),
                width == x_max - x_min,
                depth == z_max - z_min,
                0 <= width <= 0xffff_fffe,
                0 <= depth <= 0xffff_fffe,
                k == (a - x_min) * depth + (b - z_min),
                world@ == seq![spec_ground()] + spec_small_spheres(xi, zi, cells@, k as int),
            decreases z_max - b,
        {
            proof {
                let q = a - x_min;
                let r = b - z_min;
                assert(q * depth + r < 0xffff_fffe * 0xffff_fffe) by (nonlinear_arith)
                    requires
                        0 <= q < width,
                        0 <= r < depth,
                        width <= 0xffff_fffe,
                        depth <= 0xffff_fffe,
                ;
                vstd::arithmetic::div_mod::lemma_fundamental_div_mod_converse(
                    k as int,
                    depth,
                    q,
                    r,
                );
            }
            let d = cell_at(cells, k);
            let ghost before = world@;
            match cell_sphere(a, b, &d) {
                Some(small) => {
                    world.add(small);
                },
                None => {},
            }
            proof {
                assert(world@ =~= seq![spec_ground()] + spec_small_spheres(
                    xi,
                    zi,
                    cells@,
                    k as int + 1,
                ));
            }
            k = k + 1;
            b = b + 1;
        }
        proof {
            assert((a + 1 - x_min) * depth == (a - x_min) * depth + depth) by (nonlinear_arith);
        }
        a = a + 1;
    }
    proof {
        if x_min < x_max {
            assert(a == x_max);
        } else {
            assert(width == 0);
            assert((a - x_min) * depth == 0) by (nonlinear_arith)
                requires
                    a == x_min,
            ;
            assert(width * depth == 0) by (nonlinear_arith)
                requires
                    width == 0,
            ;
        }
        assert(k == spec_cell_count(xi, zi));
    }
    let ghost small = world@;

    let material1 = Surface::Dielectric(Dielectric::new(Scalar { bits: GLASS_INDEX_BITS }));
    world.add(
        Sphere { center: vector(0, ONE_BITS, 0), radius: Scalar { bits: ONE_BITS }, mat_ptr: material1 },
    );

    let material2 = Surface::Lambertian(
        Lambertian::new(&vector(MATTE_RED_BITS, SMALL_RADIUS_BITS, MATTE_BLUE_BITS)),
    );
    world.add(
        Sphere {
            center: vector(MINUS_FOUR_BITS, ONE_BITS, 0),
            radius: Scalar { bits: ONE_BITS },
            mat_ptr: material2,
        },
    );

    let material3 = Surface::Metal(
        Metal::new(&vector(METAL_RED_BITS, METAL_GREEN_BITS, HALF_BITS), Scalar { bits: 0 }),
    );
    world.add(
        Sphere {
            center: vector(FOUR_BITS, ONE_BITS, 0),
            radius: Scalar { bits: ONE_BITS },
            mat_ptr: material3,
        },
    );

    proof {
        assert(world@ =~= small + spec_large_spheres());
        assert(world@ =~= spec_scene(xi, zi, cells@));
    }
    world
}

/// Builds the world of the cover image with fresh random draws.
///
/// The cells of the grid are drawn in order, each making the draws that it
/// needs; the scene is the one that `scene_with` builds from them.
pub fn random_scene(x: i32, z: i32) -> (world: HittableList)
    requires
        x > i32::MIN,
        z > i32::MIN,
    ensures
        spec_cover_scene(world@, x as int, z as int),
{
    let x_min: i32 = if x < 0 { x } else { 0 };
    let x_max: i32 = if x < 0 { -x } else { 0 };
    let z_min: i32 = if z < 0 { z } else { 0 };
    let z_max: i32 = if z < 0 { -z } else { 0 };
    let ghost depth = z_max - z_min;
    let mut cells: Vec<CellDraws> = Vec::new();

    let mut a: i32 = x_min;
    proof {
        assert((a - x_min) * depth == 0) by (nonlinear_arith)
            requires
                a == x_min,
        ;
    }
    while a < x_max
        invariant
            x_min <= a <= x_max,
            z_min <= z_max,
            depth == z_max - z_min,
            cells@.len() == (a - x_min) * depth,
            forall|i: int| 0 <= i < cells@.len() ==> (#[trigger] cells@[i]).valid(),
        decreases x_max - a,
    {
        let mut b: i32 = z_min;
        while b < z_max
            invariant
                x_min <= a < x_max,
                z_min <= b <= z_max,
                depth == z_max - z_min,
                cells@.len() == (a - x_min) * depth + (b - z_min),
                forall|i: int| 0 <= i < cells@.len() ==> (#[trigger] cells@[i]).valid(),
            decreases z_max - b,
        {
            let d = draw_cell(a, b);
            cells.push(d);
            b = b + 1;
        }
        proof {
            assert((a + 1 - x_min) * depth == (a - x_min) * depth + depth) by (nonlinear_arith);
        }
        a = a + 1;
    }
    let world = scene_with(x, z, &cells);
    proof {
        assert(cells@.len() == spec_cell_count(x as int, z as int)) by {
            if x_min >= x_max {
                assert((x_max - x_min) * depth == 0) by (nonlinear_arith)
                    requires
                        x_max == x_min,
                ;
            }
        }
        assert(world@ == spec_scene(x as int, z as int, cells@));
    }
    world
}

} // verus!
