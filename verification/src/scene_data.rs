//! What a render needs to know: the image, the sampling, the scene, the
//! camera.
use vstd::prelude::*;
use crate::camera::Camera;
use crate::hittable_list::HittableList;
use crate::scalar::{Scalar, ONE_BITS};
use crate::sphere::Sphere;
use crate::vec3::{spec_vector, vector, Vec3};

verus! {

/// The pattern of sixteen ninths, the default aspect ratio.
pub const WIDE_ASPECT_BITS: u64 = 0x3ffc_71c7_1c71_c71c;

/// The pattern of three halves, the aspect ratio of the cover image.
pub const COVER_ASPECT_BITS: u64 = 0x3ff8_0000_0000_0000;

/// The pattern of `20.0`, the vertical field of view in degrees.
pub const FIELD_OF_VIEW_BITS: u64 = 0x4034_0000_0000_0000;

/// The pattern of `-2.0`.
pub const MINUS_TWO_BITS: u64 = 0xc000_0000_0000_0000;

/// The pattern of `13.0`.
pub const THIRTEEN_BITS: u64 = 0x402a_0000_0000_0000;

/// The pattern of `3.0`.
pub const THREE_BITS: u64 = 0x4008_0000_0000_0000;

/// The pattern of `10.0`, the focus distance of the cover image.
pub const COVER_FOCUS_BITS: u64 = 0x4024_0000_0000_0000;

/// The pattern of `0.1`, the aperture of the cover image.
pub const COVER_APERTURE_BITS: u64 = 0x3fb9_9999_9999_999a;

/// The image width of the cover image where none is asked for.
pub const COVER_WIDTH: u32 = 1200;

/// The parameters of a render.
pub struct SceneData {
    /// The width of the image in pixels.
    pub image_width: u32,
    /// Width over height.
    pub aspect_ratio: Scalar,
    /// How many rays are averaged for one pixel.
    pub samples_per_pixel: i32,
    /// How many bounces a path may take.
    pub max_ray_hits: i32,
    /// The objects of the scene.
    pub world: HittableList,
    /// The camera.
    pub camera: Camera,
}

impl SceneData {
    /// The camera of a fresh `SceneData`: at `(0, 1, -2)`, looking at the
    /// origin, with every other parameter zero but the field of view.
    pub open spec fn default_camera() -> Camera {
        Camera::spec_new(
            spec_vector(0, ONE_BITS, MINUS_TWO_BITS),
            Vec3::zero(),
            Vec3::zero(),
            Scalar { bits: FIELD_OF_VIEW_BITS },
            Scalar { bits: 0 },
            Scalar { bits: 0 },
            Scalar { bits: 0 },
        )
    }

    /// The camera of the cover image: at `(13, 2, 3)`, looking at the
    /// origin with the second axis upward, a field of view of twenty
    /// degrees, an aperture of `0.1`, focused at distance ten.
    pub open spec fn cover_camera() -> Camera {
        Camera::spec_new(
            spec_vector(THIRTEEN_BITS, crate::scalar::TWO_BITS, THREE_BITS),
            Vec3::zero(),
            spec_vector(0, ONE_BITS, 0),
            Scalar { bits: FIELD_OF_VIEW_BITS },
            Scalar { bits: COVER_ASPECT_BITS },
            Scalar { bits: COVER_APERTURE_BITS },
            Scalar { bits: COVER_FOCUS_BITS },
        )
    }

    /// The defaults: an image 250 pixels wide at sixteen to nine, one sample
    /// per pixel, at most fifty bounces, an empty world.
    pub fn new() -> (data: SceneData)
        ensures
            data.image_width == 250,
            data.aspect_ratio == (Scalar { bits: WIDE_ASPECT_BITS }),
            data.samples_per_pixel == 1,
            data.max_ray_hits == 50,
            data.world@ == Seq::<Sphere>::empty(),
            data.camera == SceneData::default_camera(),
    {
        SceneData {
            image_width: 250,
            aspect_ratio: Scalar { bits: WIDE_ASPECT_BITS },
            samples_per_pixel: 1,
            max_ray_hits: 50,
            world: HittableList::new(),
            camera: Camera::new(
                vector(0, ONE_BITS, MINUS_TWO_BITS),
                Vec3::new(),
                Vec3::new(),
                Scalar { bits: FIELD_OF_VIEW_BITS },
                Scalar { bits: 0 },
                Scalar { bits: 0 },
                Scalar { bits: 0 },
            ),
        }
    }
}

} // verus!
