//! A small ray-tracing core over deterministic fixed-point arithmetic.
//!
//! The library renders a raster image by casting camera rays into a scene
//! of spheres, resolving the nearest intersection analytically, and shading
//! hits with a recursive, depth-limited diffuse bounce.  All geometry and
//! color arithmetic is carried out on [`fixed::Fixed`], a saturating
//! fixed-point number, so every stage of the pipeline has an exact
//! mathematical specification and renders reproducibly from a seed.
pub mod color;
pub mod fixed;
pub mod ray;
pub mod render;
pub mod scene;
pub mod util;
pub mod vec;
