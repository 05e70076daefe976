//! What a ray met, and which of several meetings counts.

use crate::material::{Diffuse, MaterialEnum};
use crate::scalar::{Scalar, MINUS_INFINITY_BITS, MINUS_ONE_BITS, ONE_BITS, ZERO_BITS};
use crate::triangle::Triangle;
use crate::vec3::Vec3;
use vstd::prelude::*;

verus! {

/// The answer to "what does this ray meet": a distance along the ray, the
/// point, the triangle and its material. A distance that is not above 0 says
/// that the ray met nothing.
#[derive(Clone, Copy, Debug, PartialEq, Eq)]
pub struct Hit {
    pub t: Scalar,
    pub at: Vec3,
    pub triangle: Triangle,
    pub material: MaterialEnum,
}

impl Hit {
    /// The answer "nothing": distance -1, at a point infinitely far behind
    /// everything, so that any real meeting is nearer.
    pub open spec fn none() -> Hit {
        let zero = Scalar { bits: ZERO_BITS };
        let origin = Vec3::uniform(zero);
        Hit {
            t: Scalar { bits: MINUS_ONE_BITS },
            at: Vec3 { x: zero, y: zero, z: Scalar { bits: MINUS_INFINITY_BITS } },
            triangle: Triangle::flat(origin, origin, origin, origin),
            material: MaterialEnum::Diffuse(
                Diffuse { albedo: Vec3::uniform(Scalar { bits: ONE_BITS }) },
            ),
        }
    }

    /// Whether the ray met something: `t > 0`.
    pub open spec fn found(self) -> bool {
        self.t.positive()
    }

    /// Whether `self` takes the place of `best` in a scan: it is a meeting, and
    /// its point has the larger z. The camera looks down the negative z axis,
    /// so of two points in view the one with the larger z is taken to be the
    /// nearer. That is right only while no surface hides behind another in a
    /// way that reverses this order.
    pub open spec fn nearer_than(self, best: Hit) -> bool {
        self.found() && best.at.z.precedes(self.at.z)
    }

    /// Whether a scan can report `self` at all: it is nearer than nothing.
    pub open spec fn eligible(self) -> bool {
        self.nearer_than(Hit::none())
    }

    /// The same answer with another material.
    pub open spec fn with_material(self, material: MaterialEnum) -> Hit {
        Hit { material, ..self }
    }

    /// The answer "nothing".
    pub fn new() -> (h: Hit)
        ensures
            h == Hit::none(),
            !h.found(),
    {
        let zero = Scalar::from_bits(ZERO_BITS);
        let origin = Vec3::new(zero, zero, zero);
        let one = Scalar::from_bits(ONE_BITS);
        Hit {
            t: Scalar::from_bits(MINUS_ONE_BITS),
            at: Vec3::new(zero, zero, Scalar::from_bits(MINUS_INFINITY_BITS)),
            triangle: Triangle::new(origin, origin, origin, origin),
            material: MaterialEnum::Diffuse(Diffuse::new(Vec3::new(one, one, one))),
        }
    }

    /// Whether the ray met something.
    pub fn is_hit(&self) -> (r: bool)
        ensures
            r == self.found(),
    {
        self.t.is_positive()
    }

    /// Whether `self` takes the place of `best` in a scan.
    pub fn is_nearer_than(&self, best: &Hit) -> (r: bool)
        ensures
            r == self.nearer_than(*best),
    {
        self.t.is_positive() && self.at.z.gt(best.at.z)
    }
}

/// Whether a scan over `hits` reports the one at index `i`: it is eligible,
/// every eligible one before it lies strictly farther, and none after it is
/// nearer. Among the eligible answers with the largest z this is the first.
pub open spec fn is_nearest(hits: Seq<Hit>, i: int) -> bool {
    &&& 0 <= i < hits.len()
    &&& hits[i].eligible()
    &&& forall|j: int|
        0 <= j < i && #[trigger] hits[j].eligible() ==> hits[j].at.z.precedes(hits[i].at.z)
    &&& forall|j: int| i < j < hits.len() ==> !(#[trigger] hits[j]).nearer_than(hits[i])
}

/// What a scan over `hits` reports: the nearest of them, or "nothing" where
/// none is eligible.
pub open spec fn nearest(hits: Seq<Hit>) -> Hit {
    if exists|i: int| is_nearest(hits, i) {
        hits[choose|i: int| is_nearest(hits, i)]
    } else {
        Hit::none()
    }
}

/// A scan reports at most one index.
pub proof fn lemma_nearest_unique(hits: Seq<Hit>, i: int, j: int)
    requires
        is_nearest(hits, i),
        is_nearest(hits, j),
    ensures
        i == j,
{
}

/// A scan reports the answer at the index that `is_nearest` singles out.
pub proof fn lemma_nearest_is(hits: Seq<Hit>, i: int)
    requires
        is_nearest(hits, i),
    ensures
        nearest(hits) == hits[i],
{
    lemma_nearest_unique(hits, i, choose|k: int| is_nearest(hits, k));
}

/// A scan reports an index as soon as one answer is eligible.
pub proof fn lemma_nearest_exists(hits: Seq<Hit>)
    ensures
        (exists|i: int| is_nearest(hits, i)) <==> (exists|j: int|
            0 <= j < hits.len() && #[trigger] hits[j].eligible()),
    decreases hits.len(),
{
    if hits.len() > 0 {
        let front = hits.drop_last();
        let last = hits.last();
        lemma_nearest_exists(front);
        assert(forall|j: int| 0 <= j < front.len() ==> front[j] == hits[j]);
        if exists|i: int| is_nearest(front, i) {
            let i = choose|i: int| is_nearest(front, i);
            if last.nearer_than(front[i]) {
                assert(is_nearest(hits, hits.len() - 1));
            } else {
                assert(is_nearest(hits, i));
            }
        } else if last.eligible() {
            assert(is_nearest(hits, hits.len() - 1));
        }
    }
}

/// What a scan reports is "nothing" or one of the eligible answers it saw, and
/// it is a meeting exactly when some answer is eligible.
pub proof fn lemma_nearest_member(hits: Seq<Hit>)
    ensures
        nearest(hits) == Hit::none() || exists|i: int|
            0 <= i < hits.len() && #[trigger] hits[i].eligible() && nearest(hits) == hits[i],
        nearest(hits).found() <==> exists|j: int|
            0 <= j < hits.len() && #[trigger] hits[j].eligible(),
{
    lemma_nearest_exists(hits);
}

/// Nothing that a scan saw is nearer than what it reports: no meeting among
/// the answers has a larger z.
pub proof fn lemma_nearest_dominates(hits: Seq<Hit>, j: int)
    requires
        0 <= j < hits.len(),
    ensures
        !hits[j].nearer_than(nearest(hits)),
{
    lemma_nearest_exists(hits);
    if exists|i: int| is_nearest(hits, i) {
        let i = choose|i: int| is_nearest(hits, i);
        if hits[j].nearer_than(hits[i]) {
            assert(hits[j].eligible());
        }
    } else if hits[j].nearer_than(Hit::none()) {
        assert(hits[j].eligible());
    }
}

/// Scanning one answer more: it takes the place of the best so far exactly
/// when it is nearer.
pub proof fn lemma_nearest_push(hits: Seq<Hit>, next: Hit)
    ensures
        nearest(hits.push(next)) == if next.nearer_than(nearest(hits)) {
            next
        } else {
            nearest(hits)
        },
{
    let all = hits.push(next);
    let n = hits.len() as int;
    lemma_nearest_exists(hits);
    if exists|i: int| is_nearest(hits, i) {
        let i = choose|i: int| is_nearest(hits, i);
        let k = if next.nearer_than(hits[i]) { n } else { i };
        assert(is_nearest(all, k));
        lemma_nearest_is(all, k);
    } else if next.eligible() {
        assert(is_nearest(all, n));
        lemma_nearest_is(all, n);
    }
}

} // verus!
