//! Surface materials and what they do with a ray.

use crate::ray::Ray;
use crate::scalar::Scalar;
use crate::vec3::Vec3;
use vstd::prelude::*;

verus! {

/// A matte surface: it sends light on in a direction near the normal, whatever
/// the direction it came from.
#[derive(Clone, Copy, Debug, PartialEq, Eq)]
pub struct Diffuse {
    pub albedo: Vec3,
}

/// A mirror-like surface: it reflects about the normal, blurred by `fuzz`
/// (0 for a perfect mirror, up to 1).
#[derive(Clone, Copy, Debug, PartialEq, Eq)]
pub struct Metal {
    pub albedo: Vec3,
    pub fuzz: Scalar,
}

/// The materials a mesh can have.
#[derive(Clone, Copy, Debug, PartialEq, Eq)]
pub enum MaterialEnum {
    Diffuse(Diffuse),
    Metal(Metal),
}

/// The outgoing ray that a material's geometry yields for one hit, before the
/// material has decided whether to send it.
#[derive(Clone, Copy, Debug, PartialEq, Eq)]
pub struct Bounce {
    /// The outgoing ray, from the point that was hit.
    pub ray: Ray,
    /// The dot product of the outgoing direction and the surface normal.
    pub alignment: Scalar,
}

impl Diffuse {
    /// A matte material of the given colour.
    pub fn new(albedo: Vec3) -> (m: Diffuse)
        ensures
            m == (Diffuse { albedo }),
    {
        Diffuse { albedo }
    }
}

impl Metal {
    /// A reflective material of the given colour and blur.
    pub fn new(albedo: Vec3, fuzz: Scalar) -> (m: Metal)
        ensures
            m == (Metal { albedo, fuzz }),
    {
        Metal { albedo, fuzz }
    }
}

impl MaterialEnum {
    /// The base colour of the material.
    pub open spec fn albedo(self) -> Vec3 {
        match self {
            MaterialEnum::Diffuse(d) => d.albedo,
            MaterialEnum::Metal(m) => m.albedo,
        }
    }

    /// What the material answers to a ray: the attenuation and the ray that
    /// goes on, or nothing where the light is absorbed. A matte surface always
    /// scatters. A metal scatters exactly when the outgoing direction leaves the
    /// surface, that is when its alignment with the normal is above 0.
    pub open spec fn scattered(self, bounce: Bounce) -> Option<(Vec3, Ray)> {
        match self {
            MaterialEnum::Diffuse(d) => Some((d.albedo, bounce.ray)),
            MaterialEnum::Metal(m) => if bounce.alignment.positive() {
                Some((m.albedo, bounce.ray))
            } else {
                None
            },
        }
    }

    /// The base colour of the material.
    pub fn get_albedo(&self) -> (c: Vec3)
        ensures
            c == self.albedo(),
    {
        match self {
            MaterialEnum::Diffuse(d) => d.albedo,
            MaterialEnum::Metal(m) => m.albedo,
        }
    }

    /// Decides whether the material sends `bounce` on, and with which
    /// attenuation.
    pub fn scatter(&self, bounce: &Bounce) -> (r: Option<(Vec3, Ray)>)
        ensures
            r == self.scattered(*bounce),
            self is Diffuse ==> r is Some,
            self is Metal ==> (r is Some <==> bounce.alignment.positive()),
    {
        match self {
            MaterialEnum::Diffuse(d) => Some((d.albedo, bounce.ray)),
            MaterialEnum::Metal(m) => {
                if bounce.alignment.is_positive() {
                    Some((m.albedo, bounce.ray))
                } else {
                    None
                }
            },
        }
    }
}

} // verus!
