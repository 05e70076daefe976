//! The settings of a render.

use crate::tracer::RayTracer;
use vstd::prelude::*;

verus! {

/// What is drawn for each pixel.
#[derive(Copy, Clone, Debug, PartialEq, Eq)]
pub enum DrawingMode {
    /// The base colour of whatever the pixel's ray meets.
    Colors,
    /// The surface normal of whatever the pixel's ray meets, as a colour.
    Normals,
    /// The light that arrives along the given number of rays through the
    /// pixel, each followed from bounce to bounce.
    Samples(u32),
}

/// The settings of a render: the drawing mode, the size of the image in
/// pixels, and how many bounces a ray is followed for.
#[derive(Copy, Clone, Debug, PartialEq, Eq)]
pub struct RayTracerConfig {
    pub mode: DrawingMode,
    pub width: u32,
    pub height: u32,
    pub max_depth: u32,
}

impl Default for RayTracerConfig {
    fn default() -> (c: RayTracerConfig)
        ensures
            c == RayTracerConfig::initial(),
    {
        RayTracerConfig { mode: DrawingMode::Samples(3), width: 480, height: 270, max_depth: 5 }
    }
}

impl RayTracerConfig {
    /// The settings to start from: three samples for each pixel of a 480 by 270
    /// image, five bounces.
    pub open spec fn initial() -> RayTracerConfig {
        RayTracerConfig { mode: DrawingMode::Samples(3), width: 480, height: 270, max_depth: 5 }
    }

    /// Whether an image can be rendered with these settings: it has at least
    /// one pixel each way, and a sampled pixel at least one sample.
    pub open spec fn renderable(self) -> bool {
        &&& self.width > 0
        &&& self.height > 0
        &&& (self.mode matches DrawingMode::Samples(n) ==> n > 0)
    }

    /// The settings to start from.
    pub fn new() -> (c: RayTracerConfig)
        ensures
            c == RayTracerConfig::initial(),
    {
        RayTracerConfig { mode: DrawingMode::Samples(3), width: 480, height: 270, max_depth: 5 }
    }

    /// The same settings with another drawing mode.
    pub fn mode(self, mode: DrawingMode) -> (c: RayTracerConfig)
        ensures
            c == (RayTracerConfig { mode, ..self }),
    {
        RayTracerConfig { mode, ..self }
    }

    /// The same settings with another width.
    pub fn width(self, width: u32) -> (c: RayTracerConfig)
        ensures
            c == (RayTracerConfig { width, ..self }),
    {
        RayTracerConfig { width, ..self }
    }

    /// The same settings with another height.
    pub fn height(self, height: u32) -> (c: RayTracerConfig)
        ensures
            c == (RayTracerConfig { height, ..self }),
    {
        RayTracerConfig { height, ..self }
    }

    /// The same settings with another number of bounces.
    pub fn max_depth(self, max_depth: u32) -> (c: RayTracerConfig)
        ensures
            c == (RayTracerConfig { max_depth, ..self }),
    {
        RayTracerConfig { max_depth, ..self }
    }

    /// Whether an image can be rendered with these settings.
    pub fn is_renderable(&self) -> (r: bool)
        ensures
            r == self.renderable(),
    {
        self.width > 0 && self.height > 0 && match self.mode {
            DrawingMode::Samples(n) => n > 0,
            _ => true,
        }
    }

    /// A renderer with these settings and an empty scene.
    pub fn build(self) -> (t: RayTracer)
        ensures
            t.config == self,
            t.world.meshes@.len() == 0,
    {
        RayTracer::new(self)
    }
}

} // verus!
