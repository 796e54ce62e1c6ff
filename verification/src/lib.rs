//! A path tracer over fixed-point numbers, with verified geometry, shading
//! and image output.
//!
//! The tracer renders a scene of spheres and triangles into a plain-text
//! pixmap. Every number in it is a scalar of [`scalar`]: an `i64` that
//! counts billionths, with saturating arithmetic that rounds toward zero.
//! Each function states exactly what it computes; where a function draws
//! random numbers, it states what holds whatever is drawn, and a function
//! beside it that takes the draws as arguments states the rest.
//!
//! - [`scalar`]: the arithmetic and its laws.
//! - [`random`]: the source of random scalars.
//! - [`vec3`]: vectors, rays and colours.
//! - [`utilities`]: intervals, named colours, the gamma curve.
//! - [`material`]: how surfaces scatter light.
//! - [`hittable`]: spheres, triangles, and the scene that finds the nearest
//!   hit.
//! - [`camera`]: the viewport, the colour a ray brings back, and the image.
//! - [`ppm`]: the image as text.
//! - [`scenes`]: ready-made scenes.

pub mod scalar;
pub mod random;
pub mod vec3;
pub mod utilities;
pub mod material;
pub mod hittable;
pub mod ppm;
pub mod camera;
pub mod scenes;
