//! The renderer: the scene and the settings, and every decision of a render
//! that is not arithmetic.

use crate::config::{DrawingMode, RayTracerConfig};
use crate::hit::Hit;
use crate::material::MaterialEnum;
use crate::mesh::Mesh;
use crate::ppm::{
    color_line, header, image, lemma_image_grows_by_lines, push_color, push_header, Rgb,
};
use crate::triangle::SurfaceNormal;
use crate::vec3::Vec3;
use crate::world::World;
use vstd::arithmetic::div_mod::{lemma_fundamental_div_mod, lemma_fundamental_div_mod_converse};
use vstd::prelude::*;

verus! {

/// A renderer: its settings and its scene.
pub struct RayTracer {
    pub config: RayTracerConfig,
    pub world: World,
}

/// What a ray contributes, once it is known what the ray met.
#[derive(Clone, Copy, Debug, PartialEq, Eq)]
pub enum Shade {
    /// Nothing: the ray has used up its bounces.
    Black,
    /// The sky behind the scene.
    Background,
    /// The given base colour.
    Albedo(Vec3),
    /// The given surface normal, as a colour.
    Normal(SurfaceNormal),
    /// Whatever the given material sends on, followed for `depth` bounces more
    /// and multiplied by the material's attenuation; nothing where the
    /// material absorbs the ray.
    Scatter { material: MaterialEnum, depth: u32 },
}

impl DrawingMode {
    /// What a ray with `depth` bounces left contributes in this mode when it
    /// met `hit`.
    pub open spec fn shade(self, hit: Hit, depth: u32) -> Shade {
        match self {
            DrawingMode::Colors => if hit.found() {
                Shade::Albedo(hit.material.albedo())
            } else {
                Shade::Background
            },
            DrawingMode::Normals => if hit.found() {
                Shade::Normal(hit.triangle.surface_normal())
            } else {
                Shade::Background
            },
            DrawingMode::Samples(_) => if depth == 0 {
                Shade::Black
            } else if hit.found() {
                Shade::Scatter { material: hit.material, depth: (depth - 1) as u32 }
            } else {
                Shade::Background
            },
        }
    }
}

impl RayTracerConfig {
    /// The number of pixels of the image.
    pub open spec fn pixel_total(self) -> int {
        self.width * self.height
    }

    /// The column and the row of the pixel that leaves in place `k`: the image
    /// leaves row by row from the top row, `height - 1`, down to row 0, and each
    /// row from column 0 to the right.
    pub open spec fn pixel(self, k: int) -> (u32, u32) {
        ((k % (self.width as int)) as u32, (self.height - 1 - k / (self.width as int)) as u32)
    }

    /// The place in which the pixel at column `x` of row `y` leaves.
    pub open spec fn place(self, x: u32, y: u32) -> int {
        (self.height - 1 - y) * self.width + x
    }
}

/// Every pixel of the image has one place in the order of leaving, and the
/// order visits it there: whatever order the pixels were computed in, putting
/// each at its place gives the rows from top to bottom, each from left to
/// right.
pub proof fn lemma_pixel_place(config: RayTracerConfig, x: u32, y: u32)
    requires
        x < config.width,
        y < config.height,
    ensures
        0 <= config.place(x, y) < config.pixel_total(),
        config.pixel(config.place(x, y)) == (x, y),
{
    let w = config.width as int;
    let row = config.height - 1 - y;
    lemma_fundamental_div_mod_converse(config.place(x, y), w, row, x as int);
    assert(row * w + x < config.height * w) by (nonlinear_arith)
        requires
            0 <= row <= config.height - 1,
            0 <= x < w,
    ;
}

/// Every place of the order holds a pixel of the image, and no other place
/// holds the same.
pub proof fn lemma_place_pixel(config: RayTracerConfig, k: int)
    requires
        0 <= k < config.pixel_total(),
    ensures
        config.pixel(k).0 < config.width,
        config.pixel(k).1 < config.height,
        config.place(config.pixel(k).0, config.pixel(k).1) == k,
{
    let w = config.width as int;
    let h = config.height as int;
    lemma_fundamental_div_mod(k, w);
    let row = k / w;
    assert(row < h) by (nonlinear_arith)
        requires
            w * row + k % w == k,
            0 <= k % w,
            k < w * h,
            w > 0,
    ;
    assert(w * row == row * w) by (nonlinear_arith);
}

impl Default for RayTracer {
    fn default() -> (t: RayTracer)
        ensures
            t.config == RayTracerConfig::initial(),
            t.world.meshes@.len() == 0,
    {
        RayTracer::new(RayTracerConfig::new())
    }
}

impl RayTracer {
    /// A renderer with the given settings and an empty scene.
    pub fn new(config: RayTracerConfig) -> (t: RayTracer)
        ensures
            t.config == config,
            t.world.meshes@.len() == 0,
    {
        RayTracer { config, world: World::new() }
    }

    /// Adds a mesh to the scene.
    pub fn add_mesh(&mut self, mesh: Mesh)
        ensures
            final(self).config == old(self).config,
            final(self).world.meshes@ == old(self).world.meshes@.push(mesh),
    {
        self.world.add(mesh);
    }

    /// The pixels of the image in the order in which they leave: for each,
    /// its column and its row.
    pub fn pixels(&self) -> (order: Vec<(u32, u32)>)
        ensures
            order@.len() == self.config.pixel_total(),
            forall|k: int| 0 <= k < order@.len() ==> order@[k] == self.config.pixel(k),
    {
        let width = self.config.width;
        let height = self.config.height;
        let mut order: Vec<(u32, u32)> = Vec::new();
        let mut row: u32 = 0;
        while row < height
            invariant
                width == self.config.width,
                height == self.config.height,
                row <= height,
                order@.len() == row * width,
                forall|k: int| 0 <= k < order@.len() ==> order@[k] == self.config.pixel(k),
            decreases height - row,
        {
            let y: u32 = height - 1 - row;
            let mut x: u32 = 0;
            while x < width
                invariant
                    width == self.config.width,
                    height == self.config.height,
                    row < height,
                    y == height - 1 - row,
                    x <= width,
                    order@.len() == row * width + x,
                    forall|k: int| 0 <= k < order@.len() ==> order@[k] == self.config.pixel(k),
                decreases width - x,
            {
                proof {
                    lemma_pixel_place(self.config, x, y);
                }
                order.push((x, y));
                x += 1;
            }
            proof {
                assert(row * width + width == (row + 1) * width) by (nonlinear_arith);
            }
            row += 1;
        }
        proof {
            assert(height * width == width * height) by (nonlinear_arith);
        }
        order
    }

    /// Appends the head of the image's stream.
    pub fn write_header(&self, output: &mut Vec<u8>)
        ensures
            final(output)@ == old(output)@ + header(self.config.width, self.config.height),
    {
        push_header(output, self.config.width, self.config.height);
    }

    /// Appends the line of one pixel.
    pub fn write_color(&self, output: &mut Vec<u8>, color: Rgb)
        ensures
            final(output)@ == old(output)@ + color_line(color),
    {
        push_color(output, color);
    }

    /// Appends the stream of the whole image: the head, then the line of each
    /// pixel, in the order of `pixels`.
    pub fn write_image(&self, output: &mut Vec<u8>, pixels: &Vec<Rgb>)
        requires
            pixels@.len() == self.config.pixel_total(),
        ensures
            final(output)@ == old(output)@ + image(
                self.config.width,
                self.config.height,
                pixels@,
            ),
    {
        self.write_header(output);
        let n = pixels.len();
        let mut k: usize = 0;
        while k < n
            invariant
                n == pixels@.len(),
                k <= n,
                output@ == old(output)@ + image(
                    self.config.width,
                    self.config.height,
                    pixels@.take(k as int),
                ),
            decreases n - k,
        {
            self.write_color(output, pixels[k]);
            proof {
                lemma_image_grows_by_lines(
                    self.config.width,
                    self.config.height,
                    pixels@.take(k as int),
                    pixels@[k as int],
                );
                assert(pixels@.take(k as int).push(pixels@[k as int]) =~= pixels@.take(k + 1));
            }
            k += 1;
        }
        proof {
            assert(pixels@.take(n as int) =~= pixels@);
        }
    }

    /// What a ray with `depth` bounces left contributes when it met `hit`. A
    /// sampled ray that scatters goes on with one bounce less, so a path ends
    /// after at most `depth` bounces.
    pub fn ray_color(&self, hit: &Hit, depth: u32) -> (s: Shade)
        ensures
            s == self.config.mode.shade(*hit, depth),
            s matches Shade::Scatter { depth: left, .. } ==> left < depth,
    {
        match self.config.mode {
            DrawingMode::Colors => {
                if hit.is_hit() {
                    Shade::Albedo(hit.material.get_albedo())
                } else {
                    Shade::Background
                }
            },
            DrawingMode::Normals => {
                if hit.is_hit() {
                    Shade::Normal(hit.triangle.shading_normal())
                } else {
                    Shade::Background
                }
            },
            DrawingMode::Samples(_) => {
                if depth == 0 {
                    Shade::Black
                } else if hit.is_hit() {
                    Shade::Scatter { material: hit.material, depth: depth - 1 }
                } else {
                    Shade::Background
                }
            },
        }
    }
}

} // verus!
