//! Pixels: the average of many randomly jittered paths, written as text.
use vstd::prelude::*;
use crate::color::{push_decimal, spec_decimal, spec_pixel_line, write_color, LINE_FEED, SPACE};
use crate::hittable_list::HittableList;
use crate::material::Draws;
use crate::render::{ray_color, ray_color_with, spec_trace, valid_tape};
use crate::rtweekend::random_double;
use crate::scalar::Scalar;
use crate::scene_data::SceneData;
use crate::vec3::{spec_keeps, Color, Vec3};

verus! {

/// Everything random about one path from the camera: where in the pixel it
/// starts, where on the lens, and how each bounce scatters.
pub struct PathDraws {
    /// The offset inside the pixel to the right; from the unit interval.
    pub jitter_u: Scalar,
    /// The offset inside the pixel upward; from the unit interval.
    pub jitter_v: Scalar,
    /// The point of the lens, in the unit disk.
    pub lens: Vec3,
    /// The draws of the bounces: the bounce with `d` bounces left uses the
    /// entry `d - 1`, and still draws where there is no such entry.
    pub bounces: Vec<Draws>,
}

/// The mathematical content of a `PathDraws`.
pub struct PathTape {
    pub jitter_u: Scalar,
    pub jitter_v: Scalar,
    pub lens: Vec3,
    pub bounces: Seq<Draws>,
}

impl View for PathDraws {
    type V = PathTape;

    open spec fn view(&self) -> PathTape {
        PathTape {
            jitter_u: self.jitter_u,
            jitter_v: self.jitter_v,
            lens: self.lens,
            bounces: self.bounces@,
        }
    }
}

impl PathTape {
    /// Whether the path holds what a sampler draws for a path of at most
    /// `depth` bounces.
    pub open spec fn valid(self, depth: int) -> bool {
        &&& self.jitter_u.in_unit_interval()
        &&& self.jitter_v.in_unit_interval()
        &&& (self.lens == Vec3::zero() || spec_keeps(self.lens))
        &&& self.lens.z == (Scalar { bits: 0 })
        &&& valid_tape(self.bounces, depth)
    }
}

/// The image coordinate of a sample in the pixel `index` of `extent`
/// pixels: `(index + jitter) / (extent - 1)`.
pub open spec fn spec_image_coordinate(index: int, jitter: Scalar, extent: int) -> Scalar {
    Scalar::spec_from_int(index).spec_add(jitter).spec_div(Scalar::spec_from_int(extent - 1))
}

/// The color of one sample of the pixel at `column` and `scanline`: the
/// color that the camera ray through the jittered image point brings back.
pub open spec fn spec_sample(
    data: &SceneData,
    world: &HittableList,
    image_height: i32,
    scanline: i32,
    column: u32,
    path: PathTape,
) -> Color {
    let u = spec_image_coordinate(column as int, path.jitter_u, data.image_width as int);
    let v = spec_image_coordinate(scanline as int, path.jitter_v, image_height as int);
    spec_trace(data.camera.spec_ray(u, v, path.lens), world, data.max_ray_hits as int, path.bounces)
}

/// The sum of the samples of a pixel, added up in order from zero.
pub open spec fn spec_pixel_sum(
    data: &SceneData,
    world: &HittableList,
    image_height: i32,
    scanline: i32,
    column: u32,
    paths: Seq<PathTape>,
) -> Color
    decreases paths.len(),
{
    if paths.len() == 0 {
        Vec3::zero()
    } else {
        spec_pixel_sum(data, world, image_height, scanline, column, paths.drop_last()).spec_add(
            spec_sample(data, world, image_height, scanline, column, paths.last()),
        )
    }
}

/// Whether `color` is a sum that the pixel at `column` and `scanline` can
/// gather: the sum of `samples_per_pixel` samples along valid paths.
pub open spec fn spec_possible_pixel(
    data: &SceneData,
    world: &HittableList,
    image_height: i32,
    scanline: i32,
    column: u32,
    color: Color,
) -> bool {
    exists|paths: Seq<PathTape>|
        {
            &&& paths.len() == (if data.samples_per_pixel > 0 {
                data.samples_per_pixel as int
            } else {
                0
            })
            &&& forall|i: int|
                0 <= i < paths.len() ==> (#[trigger] paths[i]).valid(data.max_ray_hits as int)
            &&& color == #[trigger] spec_pixel_sum(
                data,
                world,
                image_height,
                scanline,
                column,
                paths,
            )
        }
}

/// The image coordinate of a sample.
fn image_coordinate(index: Scalar, jitter: Scalar, last: Scalar) -> (c: Scalar)
    ensures
        c == index.spec_add(jitter).spec_div(last),
{
    index.add(jitter).div(last)
}

/// The color of one sample of a pixel along the given path.
pub fn sample_with(
    data: &SceneData,
    world: &HittableList,
    image_height: i32,
    scanline: i32,
    column: u32,
    path: &PathDraws,
) -> (c: Color)
    requires
        data.image_width >= 1,
        image_height > i32::MIN,
    ensures
        c == spec_sample(data, world, image_height, scanline, column, path@),
{
    let u = image_coordinate(
        Scalar::from_u32(column),
        path.jitter_u,
        Scalar::from_u32(data.image_width - 1),
    );
    let v = image_coordinate(
        Scalar::from_i32(scanline),
        path.jitter_v,
        Scalar::from_i32(image_height - 1),
    );
    let r = data.camera.get_ray_through(u, v, &path.lens);
    ray_color_with(&r, world, data.max_ray_hits, &path.bounces)
}

/// The sum of the samples of a pixel along the given paths.
pub fn pixel_color_with(
    data: &SceneData,
    world: &HittableList,
    image_height: i32,
    scanline: i32,
    column: u32,
    paths: &Vec<PathDraws>,
) -> (c: Color)
    requires
        data.image_width >= 1,
        image_height > i32::MIN,
    ensures
        c == spec_pixel_sum(
            data,
            world,
            image_height,
            scanline,
            column,
            paths@.map_values(|p: PathDraws| p@),
        ),
{
    let mut pixel_color = Vec3::new();
    let ghost tapes = paths@.map_values(|p: PathDraws| p@);
    let mut i: usize = 0;
    while i < paths.len()
        invariant
            i <= paths.len(),
            data.image_width >= 1,
            image_height > i32::MIN,
            tapes == paths@.map_values(|p: PathDraws| p@),
            pixel_color == spec_pixel_sum(
                data,
                world,
                image_height,
                scanline,
                column,
                tapes.take(i as int),
            ),
        decreases paths.len() - i,
    {
        let c = sample_with(data, world, image_height, scanline, column, &paths[i]);
        proof {
            assert(tapes.take(i + 1).drop_last() =~= tapes.take(i as int));
            assert(tapes.take(i + 1).last() == paths[i as int]@);
        }
        pixel_color.add_assign(c);
        i = i + 1;
    }
    proof {
        assert(tapes.take(i as int) =~= tapes);
    }
    pixel_color
}

/// One sample of a pixel along a random path, and the path it took.
fn sample(
    data: &SceneData,
    world: &HittableList,
    image_height: i32,
    scanline: i32,
    column: u32,
) -> (res: (Color, Ghost<PathTape>))
    requires
        data.image_width >= 1,
        image_height > i32::MIN,
    ensures
        res.1@.valid(data.max_ray_hits as int),
        res.0 == spec_sample(data, world, image_height, scanline, column, res.1@),
{
    let jitter_u = random_double();
    let u = image_coordinate(Scalar::from_u32(column), jitter_u, Scalar::from_u32(data.image_width - 1));
    let jitter_v = random_double();
    let v = image_coordinate(
        Scalar::from_i32(scanline),
        jitter_v,
        Scalar::from_i32(image_height - 1),
    );
    let r = data.camera.get_ray(u, v);
    let ghost lens = choose|lens: Vec3|
        (lens == Vec3::zero() || spec_keeps(lens)) && lens.z == (Scalar { bits: 0 }) && r
            == #[trigger] data.camera.spec_ray(u, v, lens);
    let c = ray_color(&r, world, data.max_ray_hits);
    let ghost bounces = choose|tape: Seq<Draws>|
        valid_tape(tape, data.max_ray_hits as int) && c == #[trigger] spec_trace(
            r,
            world,
            data.max_ray_hits as int,
            tape,
        );
    (c, Ghost(PathTape { jitter_u, jitter_v, lens, bounces }))
}

/// The sum of `samples_per_pixel` samples of the pixel at `column` and
/// `scanline`, each along a random path.
pub fn pixel_color(
    data: &SceneData,
    world: &HittableList,
    image_height: i32,
    scanline: i32,
    column: u32,
) -> (c: Color)
    requires
        data.image_width >= 1,
        image_height > i32::MIN,
    ensures
        spec_possible_pixel(data, world, image_height, scanline, column, c),
{
    let mut pixel_color = Vec3::new();
    let ghost mut paths: Seq<PathTape> = Seq::empty();
    let mut i: i32 = 0;
    while i < data.samples_per_pixel
        invariant
            0 <= i,
            i <= data.samples_per_pixel || i == 0,
            data.image_width >= 1,
            image_height > i32::MIN,
            paths.len() == i,
            forall|k: int|
                0 <= k < paths.len() ==> (#[trigger] paths[k]).valid(data.max_ray_hits as int),
            pixel_color == spec_pixel_sum(data, world, image_height, scanline, column, paths),
        decreases data.samples_per_pixel - i,
    {
        let (c, Ghost(path)) = sample(data, world, image_height, scanline, column);
        proof {
            assert(paths.push(path).drop_last() =~= paths);
            paths = paths.push(path);
        }
        pixel_color.add_assign(c);
        i = i + 1;
    }
    proof {
        assert(pixel_color == spec_pixel_sum(data, world, image_height, scanline, column, paths));
    }
    pixel_color
}

/// Appends the text of the pixel at `column` and `scanline` to `out`.
pub fn render(
    data: &SceneData,
    world: &HittableList,
    image_height: i32,
    scanline: i32,
    column: u32,
    out: &mut Vec<u8>,
)
    requires
        data.image_width >= 1,
        image_height > i32::MIN,
    ensures
        exists|color: Color|
            spec_possible_pixel(data, world, image_height, scanline, column, color) && final(out)@
                == old(out)@ + #[trigger] spec_pixel_line(color, data.samples_per_pixel),
{
    let pixel_color = pixel_color(data, world, image_height, scanline, column);
    write_color(out, pixel_color, data.samples_per_pixel);
}

/// The text of a run of pixels with the given sums, one line for each, in
/// order.
pub open spec fn spec_row_text(colors: Seq<Color>, samples_per_pixel: i32) -> Seq<u8>
    decreases colors.len(),
{
    if colors.len() == 0 {
        Seq::empty()
    } else {
        spec_row_text(colors.drop_last(), samples_per_pixel) + spec_pixel_line(
            colors.last(),
            samples_per_pixel,
        )
    }
}

/// Whether `colors` are sums that the pixels of a scanline can gather, one
/// for each column from the left.
pub open spec fn spec_possible_row(
    data: &SceneData,
    world: &HittableList,
    image_height: i32,
    scanline: i32,
    colors: Seq<Color>,
) -> bool {
    &&& colors.len() == data.image_width
    &&& forall|i: int|
        0 <= i < colors.len() ==> spec_possible_pixel(
            data,
            world,
            image_height,
            scanline,
            i as u32,
            #[trigger] colors[i],
        )
}

/// The text of two runs of pixels is the text of the first followed by the
/// text of the second.
pub proof fn lemma_row_text_concat(first: Seq<Color>, second: Seq<Color>, samples_per_pixel: i32)
    ensures
        spec_row_text(first + second, samples_per_pixel) == spec_row_text(first, samples_per_pixel)
            + spec_row_text(second, samples_per_pixel),
    decreases second.len(),
{
    if second.len() == 0 {
        assert(first + second =~= first);
    } else {
        lemma_row_text_concat(first, second.drop_last(), samples_per_pixel);
        assert((first + second).drop_last() =~= first + second.drop_last());
        assert((first + second).last() == second.last());
        assert(spec_row_text(first + second, samples_per_pixel) =~= spec_row_text(
            first,
            samples_per_pixel,
        ) + spec_row_text(second, samples_per_pixel));
    }
}

/// Appends the text of a whole scanline to `out`, pixel by pixel from the
/// left.
pub fn render_row(
    data: &SceneData,
    world: &HittableList,
    image_height: i32,
    scanline: i32,
    out: &mut Vec<u8>,
)
    requires
        data.image_width >= 1,
        image_height > i32::MIN,
    ensures
        exists|colors: Seq<Color>|
            spec_possible_row(data, world, image_height, scanline, colors) && final(out)@ == old(
                out,
            )@ + #[trigger] spec_row_text(colors, data.samples_per_pixel),
{
    let ghost mut colors: Seq<Color> = Seq::empty();
    let mut i: u32 = 0;
    while i < data.image_width
        invariant
            i <= data.image_width,
            data.image_width >= 1,
            image_height > i32::MIN,
            colors.len() == i,
            forall|k: int|
                0 <= k < colors.len() ==> spec_possible_pixel(
                    data,
                    world,
                    image_height,
                    scanline,
                    k as u32,
                    #[trigger] colors[k],
                ),
            out@ == old(out)@ + spec_row_text(colors, data.samples_per_pixel),
        decreases data.image_width - i,
    {
        let ghost before = out@;
        render(data, world, image_height, scanline, i, out);
        proof {
            let color = choose|color: Color|
                spec_possible_pixel(data, world, image_height, scanline, i, color) && out@ == before
                    + #[trigger] spec_pixel_line(color, data.samples_per_pixel);
            assert(colors.push(color).drop_last() =~= colors);
            colors = colors.push(color);
            assert(out@ =~= old(out)@ + spec_row_text(colors, data.samples_per_pixel));
        }
        i = i + 1;
    }
    proof {
        assert(spec_possible_row(data, world, image_height, scanline, colors));
    }
}

/// The height of the image: the width over the aspect ratio, cut to a
/// whole number.
pub open spec fn spec_image_height(image_width: u32, aspect_ratio: Scalar) -> int {
    Scalar::spec_from_int(image_width as int).spec_div(aspect_ratio).truncated(0)
}

/// The height of the image in pixels.
pub fn image_height(data: &SceneData) -> (h: i32)
    ensures
        h == spec_image_height(data.image_width, data.aspect_ratio),
{
    Scalar::from_u32(data.image_width).div(data.aspect_ratio).to_i32()
}

/// A whole number in decimal, with a minus sign where it is negative.
pub open spec fn spec_signed_decimal(n: int) -> Seq<u8> {
    if n < 0 {
        seq![45u8] + spec_decimal((-n) as nat)
    } else {
        spec_decimal(n as nat)
    }
}

/// The header of a plain-text pixmap: the tag of the format, the width
/// and the height, and the largest channel value 255, on three lines.
pub open spec fn spec_header(image_width: u32, image_height: i32) -> Seq<u8> {
    seq![80u8, 51u8, LINE_FEED] + spec_decimal(image_width as nat).push(SPACE) + spec_signed_decimal(
        image_height as int,
    ).push(LINE_FEED) + seq![50u8, 53u8, 53u8, LINE_FEED]
}

/// Appends the header of the image to `out`.
pub fn write_header(out: &mut Vec<u8>, image_width: u32, image_height: i32)
    ensures
        final(out)@ == old(out)@ + spec_header(image_width, image_height),
{
    out.push(80);
    out.push(51);
    out.push(LINE_FEED);
    push_decimal(out, image_width as u64);
    out.push(SPACE);
    if image_height < 0 {
        out.push(45);
        push_decimal(out, (-(image_height as i64)) as u64);
    } else {
        push_decimal(out, image_height as u64);
    }
    out.push(LINE_FEED);
    out.push(50);
    out.push(53);
    out.push(53);
    out.push(LINE_FEED);
    proof {
        assert(final(out)@ =~= old(out)@ + spec_header(image_width, image_height));
    }
}

/// How many scanlines an image has: its height, and none where the height
/// is not positive or the image has no columns.
pub open spec fn spec_row_count(image_width: u32, image_height: i32) -> int {
    if image_height > 0 && image_width >= 1 {
        image_height as int
    } else {
        0
    }
}

/// Whether `text` is an image that a render of `world` can give: the
/// header, then the text of the pixels row by row from the top scanline
/// down, each row from the left, every pixel a sum that it can gather.
pub open spec fn spec_possible_image(data: &SceneData, world: &HittableList, text: Seq<u8>) -> bool {
    let width = data.image_width as int;
    let height = spec_image_height(data.image_width, data.aspect_ratio) as i32;
    exists|colors: Seq<Color>|
        {
            &&& colors.len() == spec_row_count(data.image_width, height) * width
            &&& forall|k: int|
                0 <= k < colors.len() ==> spec_possible_pixel(
                    data,
                    world,
                    height,
                    (height - 1 - k / width) as i32,
                    (k % width) as u32,
                    #[trigger] colors[k],
                )
            &&& text == spec_header(data.image_width, height) + #[trigger] spec_row_text(
                colors,
                data.samples_per_pixel,
            )
        }
}

/// Renders the whole image of `world` as the text of a plain pixmap.
pub fn render_image(data: &SceneData, world: &HittableList) -> (out: Vec<u8>)
    ensures
        spec_possible_image(data, world, out@),
{
    let image_height = image_height(data);
    let mut out: Vec<u8> = Vec::new();
    write_header(&mut out, data.image_width, image_height);
    let ghost header = out@;
    let ghost width = data.image_width as int;
    let ghost mut colors: Seq<Color> = Seq::empty();
    let mut j: i32 = if data.image_width >= 1 && image_height > 0 { image_height } else { 0 };
    let ghost rows = j as int;
    proof {
        assert(spec_row_text(colors, data.samples_per_pixel) =~= Seq::<u8>::empty());
        assert(out@ =~= header + spec_row_text(colors, data.samples_per_pixel));
        assert((rows - j) * width == 0) by (nonlinear_arith)
            requires
                rows == j,
        ;
    }
    while j > 0
        invariant
            0 <= j <= rows,
            rows == spec_row_count(data.image_width, image_height),
            width == data.image_width,
            rows > 0 ==> data.image_width >= 1 && image_height == rows,
            colors.len() == (rows - j) * width,
            forall|k: int|
                0 <= k < colors.len() ==> spec_possible_pixel(
                    data,
                    world,
                    image_height,
                    (image_height - 1 - k / width) as i32,
                    (k % width) as u32,
                    #[trigger] colors[k],
                ),
            out@ == header + spec_row_text(colors, data.samples_per_pixel),
        decreases j,
    {
        let ghost before = out@;
        let ghost done = rows - j;
        j = j - 1;
        render_row(data, world, image_height, j, &mut out);
        proof {
            let row = choose|row: Seq<Color>|
                spec_possible_row(data, world, image_height, j, row) && out@ == before
                    + #[trigger] spec_row_text(row, data.samples_per_pixel);
            let longer = colors + row;
            lemma_row_text_concat(colors, row, data.samples_per_pixel);
            assert((done + 1) * width == done * width + width) by (nonlinear_arith);
            assert forall|k: int| 0 <= k < longer.len() implies spec_possible_pixel(
                data,
                world,
                image_height,
                (image_height - 1 - k / width) as i32,
                (k % width) as u32,
                #[trigger] longer[k],
            ) by {
                if k >= colors.len() {
                    let i = k - colors.len();
                    vstd::arithmetic::div_mod::lemma_fundamental_div_mod_converse(
                        k,
                        width,
                        done,
                        i,
                    );
                    assert(longer[k] == row[i]);
                } else {
                    assert(longer[k] == colors[k]);
                }
            }
            colors = longer;
            assert(out@ =~= header + spec_row_text(colors, data.samples_per_pixel));
        }
    }
    out
}

} // verus!
