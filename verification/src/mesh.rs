//! A mesh: triangles that share one material.

use crate::hit::{
    lemma_nearest_dominates, lemma_nearest_member, lemma_nearest_push, nearest, Hit,
};
use crate::material::{Diffuse, MaterialEnum};
use crate::scalar::{Scalar, HALF_BITS, ONE_BITS};
use crate::triangle::{Crossing, Triangle};
use crate::vec3::Vec3;
use vstd::prelude::*;

verus! {

/// A mesh: its triangles, in order, and the material of all of them.
#[derive(Clone, Debug)]
pub struct Mesh {
    pub triangles: Vec<Triangle>,
    pub material: MaterialEnum,
}

impl Default for Mesh {
    fn default() -> (m: Mesh)
        ensures
            m.triangles@ == Seq::<Triangle>::empty(),
            m.material == Mesh::matte(ONE_BITS),
    {
        Mesh::new()
    }
}

impl Mesh {
    /// The matte material whose three colour channels all have the word
    /// `level`.
    pub open spec fn matte(level: u64) -> MaterialEnum {
        MaterialEnum::Diffuse(Diffuse { albedo: Vec3::uniform(Scalar { bits: level }) })
    }

    /// What each triangle answers to the ray, with the mesh's material: one
    /// answer for each triangle, from its numbers in `crossings`.
    pub open spec fn hits(self, crossings: Seq<Crossing>) -> Seq<Hit> {
        Seq::new(
            self.triangles@.len(),
            |i: int| self.triangles@[i].struck(crossings[i]).with_material(self.material),
        )
    }

    /// What the mesh answers to the ray: the nearest of its triangles' answers.
    pub open spec fn nearest_hit(self, crossings: Seq<Crossing>) -> Hit {
        nearest(self.hits(crossings))
    }

    /// An empty mesh of white matte material.
    pub fn new() -> (m: Mesh)
        ensures
            m.triangles@ == Seq::<Triangle>::empty(),
            m.material == Mesh::matte(ONE_BITS),
    {
        let one = Scalar::from_bits(ONE_BITS);
        Mesh {
            triangles: Vec::new(),
            material: MaterialEnum::Diffuse(Diffuse::new(Vec3::new(one, one, one))),
        }
    }

    /// The mesh of the given triangles, of mid-grey matte material.
    pub fn new_mesh(trigs: Vec<Triangle>) -> (m: Mesh)
        ensures
            m.triangles == trigs,
            m.material == Mesh::matte(HALF_BITS),
    {
        let half = Scalar::from_bits(HALF_BITS);
        Mesh {
            triangles: trigs,
            material: MaterialEnum::Diffuse(Diffuse::new(Vec3::new(half, half, half))),
        }
    }

    /// Appends one triangle.
    pub fn add(&mut self, trig: Triangle)
        ensures
            final(self).triangles@ == old(self).triangles@.push(trig),
            final(self).material == old(self).material,
    {
        self.triangles.push(trig);
    }

    /// The answer of the mesh to a ray: the nearest answer among its triangles,
    /// carrying the mesh's material, or "nothing". `crossings` holds the
    /// numbers of the intersection test for each triangle, in the order of the
    /// triangles.
    pub fn hit(&self, crossings: &Vec<Crossing>) -> (h: Hit)
        requires
            crossings@.len() == self.triangles@.len(),
        ensures
            h == self.nearest_hit(crossings@),
            h == Hit::none() || exists|i: int|
                0 <= i < self.triangles@.len() && h == #[trigger] self.hits(crossings@)[i]
                    && crossings@[i].counts(),
            forall|i: int|
                0 <= i < self.triangles@.len() ==> !(#[trigger] self.hits(crossings@)[i]).nearer_than(
                    h,
                ),
            h.found() <==> exists|i: int|
                0 <= i < self.triangles@.len() && (#[trigger] self.hits(crossings@)[i]).eligible(),
    {
        let mut closest = Hit::new();
        let ghost all = self.hits(crossings@);
        proof {
            lemma_nearest_member(all);
            assert forall|i: int| 0 <= i < all.len() implies !(#[trigger] all[i]).nearer_than(
                nearest(all),
            ) by {
                lemma_nearest_dominates(all, i);
            }
        }
        let n = self.triangles.len();
        let mut k: usize = 0;
        while k < n
            invariant
                n == self.triangles@.len(),
                n == crossings@.len(),
                k <= n,
                all == self.hits(crossings@),
                closest == nearest(all.take(k as int)),
            decreases n - k,
        {
            let hit = self.triangles[k].hit(&crossings[k]);
            proof {
                lemma_nearest_push(all.take(k as int), all[k as int]);
                assert(all.take(k as int).push(all[k as int]) =~= all.take(k + 1));
            }
            if hit.is_nearer_than(&closest) {
                closest = hit;
                closest.material = self.material;
            }
            k += 1;
        }
        proof {
            assert(all.take(n as int) =~= all);
        }
        closest
    }
}

} // verus!
