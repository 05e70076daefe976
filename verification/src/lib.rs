//! The deciding core of a triangle-mesh ray tracer.
//!
//! Every rule of the renderer that is a matter of choice rather than of
//! arithmetic lives here and is proved against its contract: how numbers are
//! ordered, when a ray counts as crossing a triangle, which crossing a mesh or a
//! scene reports, what a material does with a ray, how the light recursion
//! ends, in which order pixels leave, and how they are spelled in the image.

pub mod config;
pub mod hit;
pub mod material;
pub mod mesh;
pub mod ppm;
pub mod ray;
pub mod scalar;
pub mod tracer;
pub mod triangle;
pub mod vec3;
pub mod world;

pub use config::{DrawingMode, RayTracerConfig};
pub use hit::Hit;
pub use material::{Bounce, Diffuse, MaterialEnum, Metal};
pub use mesh::Mesh;
pub use ppm::Rgb;
pub use ray::Ray;
pub use scalar::Scalar;
pub use tracer::{RayTracer, Shade};
pub use triangle::{Crossing, SurfaceNormal, Triangle};
pub use vec3::Vec3;
pub use world::World;
