//! The program as a function: from a command line to the text of an image.
use vstd::prelude::*;
use crate::args::{spec_scan_width, width_from_args, ArgError};
use crate::camera::Camera;
use crate::hittable_list::HittableList;
use crate::pixel::{render_image, spec_possible_image};
use crate::scalar::{Scalar, ONE_BITS, TWO_BITS};
use crate::scene::{random_scene, spec_cover_scene};
use crate::scene_data::{
    SceneData, COVER_APERTURE_BITS, COVER_ASPECT_BITS, COVER_FOCUS_BITS, COVER_WIDTH,
    FIELD_OF_VIEW_BITS, THIRTEEN_BITS, THREE_BITS,
};
use crate::sphere::Sphere;
use crate::vec3::{vector, Vec3};

verus! {

/// The extent of the grid of small spheres along both axes: eleven cells to
/// either side of the origin.
pub const GRID_EXTENT: i32 = -11;

/// Whether `data` holds the parameters of the cover image at the width
/// asked for, or at 1200 pixels where none is: an aspect ratio of three to
/// two, five hundred samples per pixel, at most fifty bounces, an empty
/// world and the cover camera.
pub open spec fn spec_cover_data(data: SceneData, width: Option<u32>) -> bool {
    &&& data.image_width == (match width {
        Some(w) => w,
        None => COVER_WIDTH,
    })
    &&& data.aspect_ratio == (Scalar { bits: COVER_ASPECT_BITS })
    &&& data.samples_per_pixel == 500
    &&& data.max_ray_hits == 50
    &&& data.world@ == Seq::<Sphere>::empty()
    &&& data.camera == SceneData::cover_camera()
}

/// Sets up the parameters of the cover image from the command line.
///
/// The last width option, if there is one, sets the width of the image.
/// The command line must be well formed: no width option may lack its value
/// or have one that is no number. `width_from_args` tells.
pub fn init(args: &Vec<String>) -> (data: SceneData)
    requires
        spec_scan_width(args@, 0, None) is Ok,
    ensures
        spec_cover_data(data, spec_scan_width(args@, 0, None)->Ok_0),
{
    let width = match width_from_args(args) {
        Ok(width) => width,
        Err(_) => vstd::pervasive::unreached(),
    };
    let mut data = SceneData::new();

    data.image_width = match width {
        Some(w) => w,
        None => COVER_WIDTH,
    };
    data.aspect_ratio = Scalar { bits: COVER_ASPECT_BITS };
    data.samples_per_pixel = 500;
    data.max_ray_hits = 50;

    let lookfrom = vector(THIRTEEN_BITS, TWO_BITS, THREE_BITS);
    let lookat = Vec3::new();
    let vup = vector(0, ONE_BITS, 0);
    let dist_to_focus = Scalar { bits: COVER_FOCUS_BITS };
    let aperture = Scalar { bits: COVER_APERTURE_BITS };

    data.camera = Camera::new(
        lookfrom,
        lookat,
        vup,
        Scalar { bits: FIELD_OF_VIEW_BITS },
        data.aspect_ratio,
        aperture,
        dist_to_focus,
    );

    data
}

/// Whether `text` is an image that a render with the parameters `data` can
/// give: an image of some world that is a cover scene.
pub open spec fn spec_possible_render(data: &SceneData, text: Seq<u8>) -> bool {
    exists|world: HittableList|
        spec_cover_scene(world@, GRID_EXTENT as int, GRID_EXTENT as int)
            && #[trigger] spec_possible_image(data, &world, text)
}

/// Builds the cover scene and renders it with the parameters `data`, as the
/// text of a plain pixmap.
pub fn render_loop(data: &SceneData) -> (out: Vec<u8>)
    ensures
        spec_possible_render(data, out@),
{
    let world = random_scene(GRID_EXTENT, GRID_EXTENT);
    let out = render_image(data, &world);
    proof {
        assert(spec_possible_image(data, &world, out@));
    }
    out
}

/// Runs the program on a command line: the text of the cover image at the
/// width that the command line asks for, or the reason why the command line
/// is refused. Nothing is rendered for a command line that is refused.
pub fn start(args: &Vec<String>) -> (r: Result<Vec<u8>, ArgError>)
    ensures
        spec_scan_width(args@, 0, None) matches Err(e) ==> r matches Err(f) && f == e,
        spec_scan_width(args@, 0, None) matches Ok(width) ==> r is Ok && exists|data: SceneData|
            spec_cover_data(data, width) && #[trigger] spec_possible_render(&data, r->Ok_0@),
{
    match width_from_args(args) {
        Ok(_) => {
            let data = init(args);
            let text = render_loop(&data);
            let r: Result<Vec<u8>, ArgError> = Ok(text);
            proof {
                let width = spec_scan_width(args@, 0, None)->Ok_0;
                assert(spec_cover_data(data, width) && spec_possible_render(&data, r->Ok_0@));
            }
            r
        },
        Err(e) => Err(e),
    }
}

} // verus!
