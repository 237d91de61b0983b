//! What lies along the ray through one pixel, and which of it the pixel shows.

use vstd::prelude::*;
use crate::color::{over_background, spec_over_background, Color};
use crate::ray::Ray;
use crate::scalar::Scalar;
use crate::sphere::{lemma_nearest_of_narrowed, Hit, Roots};

verus! {

/// What was found along the ray through one pixel: the ray, and for each
/// object of the scene, in the scene's order, the points where the ray's line
/// meets it.
#[derive(Debug)]
pub struct PixelTrace {
    pub ray: Ray,
    pub roots: Vec<Roots>,
}

/// The objects tested one after the other, each against the ray as the
/// objects before it have left it: where the ray hits an object, the hit
/// draws the ray's far end in to itself and becomes the hit to show. The
/// result is the ray after the last object, and the hit to show with the
/// index of its object.
pub open spec fn traverse(ray: Ray, objects: Seq<Roots>) -> (Ray, Option<(int, Hit)>)
    decreases objects.len(),
{
    if objects.len() == 0 {
        (ray, None)
    } else {
        let before = traverse(ray, objects.drop_last());
        match objects.last().spec_nearest(before.0) {
            Some(hit) => (before.0.spec_narrowed(hit.t), Some((objects.len() - 1, hit))),
            None => before,
        }
    }
}

/// The hit that a traversal of `objects` along `ray` ends with, and the index
/// of its object.
pub open spec fn spec_closest(ray: Ray, objects: Seq<Roots>) -> Option<(int, Hit)> {
    traverse(ray, objects).1
}

/// The colour that a traversal of `objects` along `ray` ends with, if it ends
/// with a hit.
pub open spec fn shown_along(ray: Ray, objects: Seq<Roots>) -> Option<Color> {
    match spec_closest(ray, objects) {
        Some(winner) => Some(winner.1.color),
        None => None,
    }
}

/// That `winner` is the nearest hit on the ray: it is the hit of its object
/// on the whole ray, no object has a nearer hit on the whole ray, and the
/// hit of every object before it is strictly further. `None` stands for a
/// ray that hits no object.
pub open spec fn is_nearest(ray: Ray, objects: Seq<Roots>, winner: Option<(int, Hit)>) -> bool {
    match winner {
        None => forall|j: int|
            0 <= j < objects.len() ==> (#[trigger] objects[j]).spec_nearest(ray) is None,
        Some(w) => {
            &&& 0 <= w.0 < objects.len()
            &&& objects[w.0].spec_nearest(ray) == Some(w.1)
            &&& forall|j: int|
                0 <= j < objects.len() ==> ((#[trigger] objects[j]).spec_nearest(ray) matches Some(
                    other,
                ) ==> !other.t.spec_lt(w.1.t))
            &&& forall|j: int|
                0 <= j < w.0 ==> ((#[trigger] objects[j]).spec_nearest(ray) matches Some(other)
                    ==> w.1.t.spec_lt(other.t))
        },
    }
}

/// The ray as the hit `winner` leaves it: drawn in to the hit, or whole where
/// there is none.
pub open spec fn drawn_in(ray: Ray, winner: Option<(int, Hit)>) -> Ray {
    match winner {
        Some(w) => ray.spec_narrowed(w.1.t),
        None => ray,
    }
}

/// A hit and the index of its object, as a traversal names them.
pub open spec fn indexed(winner: Option<(usize, Hit)>) -> Option<(int, Hit)> {
    match winner {
        Some(w) => Some((w.0 as int, w.1)),
        None => None,
    }
}

/// A traversal ends with the nearest hit on the ray, and with the ray drawn
/// in to that hit. Testing each object against the ray as drawn in so far
/// loses nothing: the outcome is stated over the hits on the whole ray.
pub proof fn lemma_traverse_finds_nearest(ray: Ray, objects: Seq<Roots>)
    ensures
        is_nearest(ray, objects, spec_closest(ray, objects)),
        traverse(ray, objects).0 == drawn_in(ray, spec_closest(ray, objects)),
    decreases objects.len(),
{
    if objects.len() > 0 {
        let front = objects.drop_last();
        lemma_traverse_finds_nearest(ray, front);
        assert forall|j: int| 0 <= j < front.len() implies front[j] == objects[j] by {}
        match spec_closest(ray, front) {
            Some(w) => {
                lemma_nearest_of_narrowed(objects.last(), ray, w.1.t);
            },
            None => {},
        }
    }
}

/// Where the hit of one object is strictly nearer than the hit of every
/// other object, that hit is shown, wherever the object stands in the scene.
pub proof fn lemma_nearest_object_is_shown(ray: Ray, objects: Seq<Roots>, i: int)
    requires
        0 <= i < objects.len(),
        objects[i].spec_nearest(ray) is Some,
        forall|j: int|
            0 <= j < objects.len() && j != i ==> ((#[trigger] objects[j]).spec_nearest(
                ray,
            ) matches Some(other) ==> objects[i].spec_nearest(ray)->0.t.spec_lt(other.t)),
    ensures
        spec_closest(ray, objects) == Some((i, objects[i].spec_nearest(ray)->0)),
        shown_along(ray, objects) == Some(objects[i].spec_nearest(ray)->0.color),
{
    lemma_traverse_finds_nearest(ray, objects);
}

/// Of two objects that the ray hits, the nearer one is shown, whichever of
/// them comes first in the scene.
pub proof fn lemma_nearer_of_two_is_shown(ray: Ray, near: Roots, far: Roots)
    requires
        near.spec_nearest(ray) is Some,
        far.spec_nearest(ray) is Some,
        near.spec_nearest(ray)->0.t.spec_lt(far.spec_nearest(ray)->0.t),
    ensures
        shown_along(ray, seq![near, far]) == Some(near.spec_nearest(ray)->0.color),
        shown_along(ray, seq![far, near]) == Some(near.spec_nearest(ray)->0.color),
{
    lemma_nearest_object_is_shown(ray, seq![near, far], 0);
    lemma_nearest_object_is_shown(ray, seq![far, near], 1);
}

/// The parameter of the hit that a traversal of `objects` along `ray` ends
/// with, if it ends with a hit.
pub open spec fn shown_at(ray: Ray, objects: Seq<Roots>) -> Option<Scalar> {
    match spec_closest(ray, objects) {
        Some(winner) => Some(winner.1.t),
        None => None,
    }
}

/// The order of the objects in a scene does not change how far away the
/// shown hit is: two scenes of the same objects, in any order, either both
/// show nothing or show hits at one distance. Which colour is shown can
/// depend on the order only among objects that are hit at that one distance.
pub proof fn lemma_order_of_objects_keeps_distance(ray: Ray, one: Seq<Roots>, other: Seq<Roots>)
    requires
        one.to_multiset() == other.to_multiset(),
    ensures
        shown_at(ray, one) is None <==> shown_at(ray, other) is None,
        shown_at(ray, one) matches Some(t) ==> shown_at(ray, other) matches Some(u) && t.key()
            == u.key(),
{
    lemma_traverse_finds_nearest(ray, one);
    lemma_traverse_finds_nearest(ray, other);
    one.to_multiset_ensures();
    other.to_multiset_ensures();
    assert forall|j: int| 0 <= j < one.len() implies other.contains(#[trigger] one[j]) by {
        assert(one.contains(one[j]));
        assert(one.to_multiset().count(one[j]) > 0);
        assert(other.to_multiset().count(one[j]) > 0);
    }
    assert forall|j: int| 0 <= j < other.len() implies one.contains(#[trigger] other[j]) by {
        assert(other.contains(other[j]));
        assert(other.to_multiset().count(other[j]) > 0);
        assert(one.to_multiset().count(other[j]) > 0);
    }
    if let Some(w) = spec_closest(ray, one) {
        let j = choose|j: int| 0 <= j < other.len() && other[j] == one[w.0];
        assert(other[j].spec_nearest(ray) == Some(w.1));
    }
    if let Some(w) = spec_closest(ray, other) {
        let j = choose|j: int| 0 <= j < one.len() && one[j] == other[w.0];
        assert(one[j].spec_nearest(ray) == Some(w.1));
    }
}

impl PixelTrace {
    /// The colour of the nearest hit on the ray, if the ray hits anything.
    pub open spec fn spec_shown(self) -> Option<Color> {
        shown_along(self.ray, self.roots@)
    }

    /// The colour of the pixel at `(x, y)` that this trace belongs to: the
    /// colour of the nearest hit on the ray, or the background where the ray
    /// hits nothing.
    pub open spec fn spec_color(self, x: int, y: int) -> Color {
        spec_over_background(self.spec_shown(), x, y)
    }

    /// The trace of a ray with what was found along it.
    pub fn new(ray: Ray, roots: Vec<Roots>) -> (trace: PixelTrace)
        ensures
            trace.ray == ray,
            trace.roots == roots,
    {
        PixelTrace { ray, roots }
    }

    /// The nearest hit on the ray and the index of its object, if the ray
    /// hits anything.
    ///
    /// The objects are taken in order. Each is tested against the ray as the
    /// objects before it have left it, and a hit draws the far end of the ray
    /// in to itself, so that only a strictly nearer hit can follow it.
    pub fn closest_hit(&self) -> (winner: Option<(usize, Hit)>)
        ensures
            spec_closest(self.ray, self.roots@) == indexed(winner),
            is_nearest(self.ray, self.roots@, spec_closest(self.ray, self.roots@)),
    {
        let mut ray: Ray = self.ray;
        let mut winner: Option<(usize, Hit)> = None;
        let mut i: usize = 0;
        while i < self.roots.len()
            invariant
                0 <= i <= self.roots@.len(),
                traverse(self.ray, self.roots@.take(i as int)) == (ray, indexed(winner)),
            decreases self.roots@.len() - i,
        {
            proof {
                assert(self.roots@.take(i + 1).drop_last() == self.roots@.take(i as int));
            }
            match self.roots[i].nearest(&ray) {
                Some(hit) => {
                    ray.narrow(hit.t);
                    winner = Some((i, hit));
                },
                None => {},
            }
            i += 1;
        }
        proof {
            assert(self.roots@.take(i as int) == self.roots@);
            lemma_traverse_finds_nearest(self.ray, self.roots@);
        }
        winner
    }

    /// The colour of the nearest hit on the ray, if the ray hits anything.
    pub fn shown(&self) -> (c: Option<Color>)
        ensures
            c == self.spec_shown(),
    {
        match self.closest_hit() {
            Some(w) => Some(w.1.color),
            None => None,
        }
    }

    /// The colour of the pixel at `(x, y)` that this trace belongs to.
    pub fn color(&self, x: u32, y: u32) -> (c: Color)
        ensures
            c == self.spec_color(x as int, y as int),
    {
        over_background(self.shown(), x, y)
    }
}

} // verus!
