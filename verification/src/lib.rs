//! A Monte-Carlo ray tracer over spheres, with its numeric core stated and
//! proved in Verus.
//!
//! Every real quantity is a [`scalar::Scalar`]: an IEEE-754 double held as its
//! bit pattern. Ordering, negation and the conversions to and from integers are
//! verified on the bits; rounding arithmetic is delegated to two software
//! floating-point crates through the small trusted surface in [`arith`], and
//! randomness to the generator behind [`rtweekend::random_double`].
//!
//! Every function that draws random numbers has a twin that takes the draws
//! as arguments and is exact: [`material::Material::scatter_with`],
//! [`camera::Camera::get_ray_through`], [`render::ray_color_with`],
//! [`pixel::pixel_color_with`], [`scene::scene_with`], [`vec3::first_kept`].
//! The random function promises that its result is what the twin gives for
//! some valid draws.
//!
//! The library is written for machines whose `usize` has 64 bits. On a
//! machine with a `usize` of 32 bits, built with overflow checks, the square
//! root of a subnormal number can fail inside the crate that computes it.
pub mod scalar;
pub mod arith;
pub mod convert;
pub mod rtweekend;
pub mod vec3;
pub mod ray;
pub mod hittable;
pub mod material;
pub mod sphere;
pub mod hittable_list;
pub mod camera;
pub mod color;
pub mod scene_data;
pub mod render;
pub mod pixel;
pub mod scene;
pub mod args;
pub mod command;
