use vstd::prelude::*;

verus! {

/// The nearest point at which a ray meets something: the key of its distance
/// along the ray, and the index of the object in the scene's list.
#[derive(Clone, Copy, Debug, PartialEq, Eq, Structural)]
pub struct Intersection {
    pub distance: i64,
    pub object: usize,
}

impl Intersection {
    pub fn new(distance: i64, object: usize) -> (intersection: Intersection)
        ensures
            intersection.distance == distance,
            intersection.object == object,
    {
        Intersection { distance, object }
    }
}

/// Chooses between the two points at which a ray's line crosses a sphere,
/// given the keys of their distances. With both behind the ray's origin there
/// is no hit; with one behind, the origin is inside the sphere and the other
/// is hit; else the nearer one is hit.
pub fn nearest_root(t0: i64, t1: i64) -> (root: Option<i64>)
    ensures
        root is None <==> t0 < 0 && t1 < 0,
        root matches Some(t) ==> {
            &&& t >= 0
            &&& t == t0 || t == t1
            &&& t0 >= 0 ==> t <= t0
            &&& t1 >= 0 ==> t <= t1
        },
{
    if t0 < 0 && t1 < 0 {
        None
    } else if t0 < 0 {
        Some(t1)
    } else if t1 < 0 {
        Some(t0)
    } else if t0 < t1 {
        Some(t0)
    } else {
        Some(t1)
    }
}

/// Whether `hit` is the nearest of the hits: it is one of them, none is
/// nearer, and of several that are equally near it is the first.
pub open spec fn is_nearest(hits: Seq<Option<i64>>, hit: Intersection) -> bool {
    &&& hit.object < hits.len()
    &&& hits[hit.object as int] == Some(hit.distance)
    &&& forall|i: int|
        0 <= i < hits.len() && hits[i] is Some ==> hit.distance <= (#[trigger] hits[i])->0
    &&& forall|i: int|
        0 <= i < hit.object && hits[i] is Some ==> hit.distance < (#[trigger] hits[i])->0
}

/// Finds the nearest hit of a ray. `hits` holds, for each object of the
/// scene in order, the key of the distance at which the ray meets it, or
/// nothing where it does not. There is no hit when no object is met.
pub fn trace(hits: &Vec<Option<i64>>) -> (nearest: Option<Intersection>)
    ensures
        nearest is None <==> forall|i: int| 0 <= i < hits.len() ==> (#[trigger] hits[i]) is None,
        nearest matches Some(hit) ==> is_nearest(hits@, hit),
{
    let mut nearest: Option<Intersection> = None;
    let mut index: usize = 0;
    while index < hits.len()
        invariant
            index <= hits.len(),
            nearest is None <==> forall|i: int| 0 <= i < index ==> (#[trigger] hits[i]) is None,
            nearest matches Some(hit) ==> is_nearest(hits@.take(index as int), hit),
        decreases hits.len() - index,
    {
        let candidate = hits[index];
        match candidate {
            Some(distance) => {
                let closer = match nearest {
                    Some(hit) => distance < hit.distance,
                    None => true,
                };
                if closer {
                    nearest = Some(Intersection::new(distance, index));
                }
            },
            None => {},
        }
        index = index + 1;
    }
    assert(hits@.take(index as int) =~= hits@);
    nearest
}

/// There is at most one nearest hit.
pub proof fn lemma_nearest_is_unique(
    hits: Seq<Option<i64>>,
    one: Intersection,
    other: Intersection,
)
    requires
        is_nearest(hits, one),
        is_nearest(hits, other),
    ensures
        one == other,
{
}

} // verus!
