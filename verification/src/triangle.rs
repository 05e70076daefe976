//! Triangles, and when a ray counts as crossing one.

use crate::hit::Hit;
use crate::scalar::{Scalar, EPSILON_BITS, ONE_BITS, ZERO_BITS};
use crate::vec3::Vec3;
use vstd::prelude::*;

verus! {

/// A triangle of a mesh.
#[derive(Clone, Copy, Debug, PartialEq, Eq)]
pub struct Triangle {
    /// The three corners, wound so that `normal` points outwards.
    pub points: [Vec3; 3],
    /// The normal of the face.
    pub normal: Vec3,
    /// The normals at the three corners.
    pub normals: [Vec3; 3],
    /// Whether shading goes by the corner normals rather than the face normal.
    pub smooth: bool,
}

/// The normal that shading goes by on a triangle.
#[derive(Clone, Copy, Debug, PartialEq, Eq)]
pub enum SurfaceNormal {
    /// The normal of the face, the same at every point.
    Flat(Vec3),
    /// The normals at the three corners, between which the normal at a point
    /// is interpolated by the point's barycentric weights.
    Smooth([Vec3; 3]),
}

/// The numbers of the Moeller-Trumbore test for one ray and one triangle.
///
/// With corners `p0, p1, p2`, edges `e1 = p1 - p0` and `e2 = p2 - p0`, a ray
/// from `o` along `d`, `h = d x e2`, `s = o - p0` and `q = s x e1`:
#[derive(Clone, Copy, Debug, PartialEq, Eq)]
pub struct Crossing {
    /// `e1 . h`: near 0 when the ray runs along the triangle's plane.
    pub determinant: Scalar,
    /// `(s . h) / determinant`, the first barycentric coordinate.
    pub u: Scalar,
    /// `(d . q) / determinant`, the second barycentric coordinate.
    pub v: Scalar,
    /// `u + v`.
    pub sum: Scalar,
    /// `(e2 . q) / determinant`, the distance along the ray.
    pub t: Scalar,
    /// `o + d * t`, the point at that distance.
    pub at: Vec3,
}

impl Crossing {
    /// The ray runs along the plane: the determinant is within the tolerance
    /// of 0.
    pub open spec fn parallel(self) -> bool {
        self.determinant.absolute().precedes(Scalar { bits: EPSILON_BITS })
    }

    /// The point lies within the triangle: `u` in [0, 1], `v` at least 0 and
    /// `u + v` at most 1.
    pub open spec fn inside(self) -> bool {
        let zero = Scalar { bits: ZERO_BITS };
        let one = Scalar { bits: ONE_BITS };
        &&& !self.u.precedes(zero)
        &&& !one.precedes(self.u)
        &&& !self.v.precedes(zero)
        &&& !one.precedes(self.sum)
    }

    /// The point lies ahead of the ray's origin by more than the tolerance.
    pub open spec fn ahead(self) -> bool {
        (Scalar { bits: EPSILON_BITS }).precedes(self.t)
    }

    /// The ray crosses the triangle.
    pub open spec fn counts(self) -> bool {
        !self.parallel() && self.inside() && self.ahead()
    }

    /// Decides whether the ray crosses the triangle.
    pub fn crosses(&self) -> (r: bool)
        ensures
            r == self.counts(),
    {
        let zero = Scalar::from_bits(ZERO_BITS);
        let one = Scalar::from_bits(ONE_BITS);
        let epsilon = Scalar::from_bits(EPSILON_BITS);
        if self.determinant.abs().lt(epsilon) {
            return false;
        }
        if self.u.lt(zero) || self.u.gt(one) {
            return false;
        }
        if self.v.lt(zero) || self.sum.gt(one) {
            return false;
        }
        self.t.gt(epsilon)
    }
}

impl Triangle {
    /// The flat-shaded triangle with the given corners and face normal: every
    /// corner has the normal of the face.
    pub open spec fn flat(p0: Vec3, p1: Vec3, p2: Vec3, normal: Vec3) -> Triangle {
        Triangle { points: [p0, p1, p2], normal, normals: [normal, normal, normal], smooth: false }
    }

    /// The normal that shading goes by: the corner normals of a smooth
    /// triangle, the face normal of any other.
    pub open spec fn surface_normal(self) -> SurfaceNormal {
        if self.smooth {
            SurfaceNormal::Smooth(self.normals)
        } else {
            SurfaceNormal::Flat(self.normal)
        }
    }

    /// What the triangle answers to a ray with the given numbers: the distance,
    /// the point and itself where the ray crosses it, "nothing" where it does
    /// not. The material is left to the mesh.
    pub open spec fn struck(self, crossing: Crossing) -> Hit {
        if crossing.counts() {
            Hit { t: crossing.t, at: crossing.at, triangle: self, material: Hit::none().material }
        } else {
            Hit::none()
        }
    }

    /// A flat-shaded triangle.
    pub fn new(p0: Vec3, p1: Vec3, p2: Vec3, normal: Vec3) -> (t: Triangle)
        ensures
            t == Triangle::flat(p0, p1, p2, normal),
    {
        Triangle { points: [p0, p1, p2], normal, normals: [normal, normal, normal], smooth: false }
    }

    /// The normal that shading goes by.
    pub fn shading_normal(&self) -> (n: SurfaceNormal)
        ensures
            n == self.surface_normal(),
    {
        if self.smooth {
            SurfaceNormal::Smooth(self.normals)
        } else {
            SurfaceNormal::Flat(self.normal)
        }
    }

    /// The answer of the triangle to a ray, from the numbers of the
    /// intersection test.
    pub fn hit(&self, crossing: &Crossing) -> (h: Hit)
        ensures
            h == self.struck(*crossing),
            h.found() <==> crossing.counts(),
            crossing.counts() ==> h.t == crossing.t && h.at == crossing.at && h.triangle == *self,
            crossing.parallel() ==> !h.found(),
    {
        let mut h = Hit::new();
        if crossing.crosses() {
            h.t = crossing.t;
            h.at = crossing.at;
            h.triangle = *self;
        }
        h
    }
}

} // verus!
