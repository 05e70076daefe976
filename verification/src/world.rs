//! The scene: every mesh that a ray can meet.

use crate::hit::{
    lemma_nearest_dominates, lemma_nearest_member, lemma_nearest_push, nearest, Hit,
};
use crate::mesh::Mesh;
use crate::triangle::Crossing;
use vstd::prelude::*;

verus! {

/// The meshes of a scene, in the order in which they were added.
pub struct World {
    pub meshes: Vec<Mesh>,
}

/// Over the whole scene, no triangle's answer is nearer than what the scene
/// reports.
pub proof fn lemma_scene_hit_dominates(world: World, crossings: Seq<Vec<Crossing>>, i: int, j: int)
    requires
        world.fits(crossings),
        0 <= i < world.meshes@.len(),
        0 <= j < world.meshes@[i].triangles@.len(),
    ensures
        !world.meshes@[i].hits(crossings[i]@)[j].nearer_than(world.nearest_hit(crossings)),
{
    let of_mesh = world.meshes@[i].hits(crossings[i]@);
    let of_scene = world.hits(crossings);
    // the triangle's answer is no nearer than its mesh's, the mesh's no nearer
    // than the scene's
    lemma_nearest_dominates(of_mesh, j);
    lemma_nearest_member(of_mesh);
    assert(of_scene[i] == nearest(of_mesh));
    lemma_nearest_dominates(of_scene, i);
    lemma_nearest_member(of_scene);
}

/// Where the scene reports a meeting, it is the answer of one of its
/// triangles whose crossing counts, with the material of that triangle's mesh.
pub proof fn lemma_scene_hit_origin(world: World, crossings: Seq<Vec<Crossing>>)
    requires
        world.fits(crossings),
        world.nearest_hit(crossings).found(),
    ensures
        exists|i: int, j: int|
            0 <= i < world.meshes@.len() && 0 <= j < world.meshes@[i].triangles@.len()
                && crossings[i]@[j].counts() && world.nearest_hit(crossings) == (
            #[trigger] world.meshes@[i].triangles@[j].struck(crossings[i]@[j])).with_material(
                world.meshes@[i].material,
            ),
{
    let of_scene = world.hits(crossings);
    lemma_nearest_member(of_scene);
    let i = choose|i: int|
        0 <= i < of_scene.len() && #[trigger] of_scene[i].eligible() && nearest(of_scene)
            == of_scene[i];
    let of_mesh = world.meshes@[i].hits(crossings[i]@);
    assert(of_scene[i] == nearest(of_mesh));
    lemma_nearest_member(of_mesh);
    let j = choose|j: int|
        0 <= j < of_mesh.len() && #[trigger] of_mesh[j].eligible() && nearest(of_mesh)
            == of_mesh[j];
    assert(crossings[i]@[j].counts());
}

impl World {
    /// Whether `crossings` has the shape of the scene: one list for each mesh,
    /// with one entry for each of its triangles.
    pub open spec fn fits(self, crossings: Seq<Vec<Crossing>>) -> bool {
        &&& crossings.len() == self.meshes@.len()
        &&& forall|i: int|
            0 <= i < crossings.len() ==> (#[trigger] crossings[i])@.len()
                == self.meshes@[i].triangles@.len()
    }

    /// What each mesh answers to the ray.
    pub open spec fn hits(self, crossings: Seq<Vec<Crossing>>) -> Seq<Hit> {
        Seq::new(self.meshes@.len(), |i: int| self.meshes@[i].nearest_hit(crossings[i]@))
    }

    /// What the scene answers to the ray: the nearest of its meshes' answers.
    pub open spec fn nearest_hit(self, crossings: Seq<Vec<Crossing>>) -> Hit {
        nearest(self.hits(crossings))
    }

    /// A scene without meshes.
    pub fn new() -> (w: World)
        ensures
            w.meshes@ == Seq::<Mesh>::empty(),
    {
        World { meshes: Vec::new() }
    }

    /// Adds a mesh to the scene.
    pub fn add(&mut self, mesh: Mesh)
        ensures
            final(self).meshes@ == old(self).meshes@.push(mesh),
    {
        self.meshes.push(mesh);
    }

    /// Whether `crossings` has the shape of the scene.
    pub fn accepts(&self, crossings: &Vec<Vec<Crossing>>) -> (r: bool)
        ensures
            r == self.fits(crossings@),
    {
        if crossings.len() != self.meshes.len() {
            return false;
        }
        let n = self.meshes.len();
        let mut i: usize = 0;
        while i < n
            invariant
                n == self.meshes@.len(),
                n == crossings@.len(),
                i <= n,
                forall|j: int|
                    0 <= j < i ==> (#[trigger] crossings@[j])@.len()
                        == self.meshes@[j].triangles@.len(),
            decreases n - i,
        {
            if crossings[i].len() != self.meshes[i].triangles.len() {
                return false;
            }
            i += 1;
        }
        true
    }

    /// The answer of the scene to a ray: the nearest answer among its meshes,
    /// or "nothing"; a scene without meshes answers "nothing" to every ray.
    /// `crossings` holds, for each mesh, the numbers of the intersection test
    /// for each of its triangles.
    pub fn hit(&self, crossings: &Vec<Vec<Crossing>>) -> (h: Hit)
        requires
            self.fits(crossings@),
        ensures
            h == self.nearest_hit(crossings@),
            self.meshes@.len() == 0 ==> !h.found(),
            h == Hit::none() || exists|i: int|
                0 <= i < self.meshes@.len() && h == #[trigger] self.hits(crossings@)[i],
            forall|i: int|
                0 <= i < self.meshes@.len() ==> !(#[trigger] self.hits(crossings@)[i]).nearer_than(
                    h,
                ),
            h.found() <==> exists|i: int|
                0 <= i < self.meshes@.len() && (#[trigger] self.hits(crossings@)[i]).eligible(),
    {
        let mut closest = Hit::new();
        let ghost all = self.hits(crossings@);
        proof {
            lemma_nearest_member(all);
            assert forall|i: int| 0 <= i < all.len() implies !(#[trigger] all[i]).nearer_than(
                nearest(all),
            ) by {
                lemma_nearest_dominates(all, i);
            }
        }
        let n = self.meshes.len();
        let mut k: usize = 0;
        while k < n
            invariant
                n == self.meshes@.len(),
                self.fits(crossings@),
                k <= n,
                all == self.hits(crossings@),
                closest == nearest(all.take(k as int)),
            decreases n - k,
        {
            let hit = self.meshes[k].hit(&crossings[k]);
            proof {
                lemma_nearest_push(all.take(k as int), all[k as int]);
                assert(all.take(k as int).push(all[k as int]) =~= all.take(k + 1));
            }
            if hit.is_nearer_than(&closest) {
                closest = hit;
            }
            k += 1;
        }
        proof {
            assert(all.take(n as int) =~= all);
        }
        closest
    }
}

} // verus!
