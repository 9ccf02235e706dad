//! What a scene decides around the geometry: which intersections a ray has
//! with all of its primitives, whether a point lies in shadow, and how deep
//! reflection and refraction may still recurse.

use crate::intersections::{is_hit_index, sorted, with_t, Intersection, Intersections};
use vstd::prelude::*;

verus! {

/// The intersections found primitive by primitive, strung together in the
/// order of the primitives; a primitive that was missed adds nothing.
pub open spec fn gathered(per_object: Seq<Option<Vec<Intersection>>>) -> Seq<Intersection>
    decreases per_object.len(),
{
    if per_object.len() == 0 {
        Seq::empty()
    } else {
        let before = gathered(per_object.drop_last());
        match per_object.last() {
            Some(found) => before + found@,
            None => before,
        }
    }
}

/// The intersections of a ray with a whole scene, nearest first, from what
/// each primitive reported for it.
///
/// Intersections at the same distance stay in the order of the primitives
/// that reported them.
pub fn intersect_world(per_object: &Vec<Option<Vec<Intersection>>>) -> (xs: Intersections)
    ensures
        sorted(xs@),
        forall|t: i64| #[trigger] with_t(xs@, t) == with_t(gathered(per_object@), t),
        xs@.to_multiset() == gathered(per_object@).to_multiset(),
        xs@.len() == gathered(per_object@).len(),
{
    let mut all: Vec<Intersection> = Vec::new();
    let mut k: usize = 0;
    assert(per_object@.take(0) =~= Seq::<Option<Vec<Intersection>>>::empty());
    while k < per_object.len()
        invariant
            k <= per_object.len(),
            all@ == gathered(per_object@.take(k as int)),
        decreases per_object.len() - k,
    {
        let ghost before = all@;
        proof {
            let next = per_object@.take(k + 1);
            assert(next.drop_last() =~= per_object@.take(k as int));
            assert(next.last() == per_object@[k as int]);
        }
        match &per_object[k] {
            Some(found) => {
                let mut j: usize = 0;
                while j < found.len()
                    invariant
                        j <= found.len(),
                        all@ == before + found@.take(j as int),
                    decreases found.len() - j,
                {
                    all.push(found[j]);
                    assert(found@.take(j + 1) =~= found@.take(j as int).push(found@[j as int]));
                    assert(all@ =~= before + found@.take(j + 1));
                    j += 1;
                }
                assert(found@.take(j as int) =~= found@);
            },
            None => {},
        }
        k += 1;
    }
    assert(per_object@.take(k as int) =~= per_object@);
    Intersections::new(all)
}

/// Whether something stands between a point and the light: `xs` are the
/// intersections of the ray from the point towards the light, `distance` is
/// how far away the light is. The point is shadowed if and only if the ray
/// hits something strictly nearer than the light.
pub fn is_shadowed(xs: &Intersections, distance: i64) -> (shadowed: bool)
    ensures
        shadowed == exists|k: int| is_hit_index(xs@, k) && xs@[k].t < distance,
{
    match xs.hit() {
        Some(intersection) => intersection.t < distance,
        None => false,
    }
}

/// The depth left to a ray after `bounces` reflections or refractions of a
/// ray that started with `remaining`, or `None` if the depth runs out
/// before.
pub open spec fn depth_after(remaining: usize, bounces: nat) -> Option<usize>
    decreases bounces,
{
    if bounces == 0 {
        Some(remaining)
    } else {
        match depth_after(remaining, (bounces - 1) as nat) {
            Some(depth) => if depth == 0 {
                None
            } else {
                Some((depth - 1) as usize)
            },
            None => None,
        }
    }
}

/// Every bounce uses up one level of depth, so a ray that starts with
/// `remaining` is followed through `remaining` bounces and no further,
/// however the surfaces it meets reflect and refract: rays between facing
/// mirrors end as well.
pub proof fn lemma_depth_runs_out(remaining: usize, bounces: nat)
    ensures
        depth_after(remaining, bounces) == if bounces <= remaining {
            Some((remaining - bounces) as usize)
        } else {
            None::<usize>
        },
    decreases bounces,
{
    if bounces > 0 {
        lemma_depth_runs_out(remaining, (bounces - 1) as nat);
    }
}

/// The depth left for the ray reflected at a hit, or `None` where the
/// reflected colour is black without a ray being cast: when no depth is
/// left, `remaining == 0`, or when the surface does not reflect.
pub fn reflected_depth(remaining: usize, reflective: bool) -> (depth: Option<usize>)
    ensures
        depth == if remaining == 0 || !reflective {
            None
        } else {
            Some((remaining - 1) as usize)
        },
        reflective ==> depth == depth_after(remaining, 1),
{
    proof {
        reveal_with_fuel(depth_after, 2);
    }
    if remaining == 0 || !reflective {
        None
    } else {
        Some(remaining - 1)
    }
}

/// The depth left for the ray refracted at a hit, or `None` where the
/// refracted colour is black without a ray being cast: when the surface is
/// opaque, when no depth is left, `remaining == 0`, or when the light is
/// reflected back into the medium it comes from (total internal reflection).
pub fn refracted_depth(remaining: usize, transparent: bool, totally_reflected: bool) -> (depth:
    Option<usize>)
    ensures
        depth == if !transparent || remaining == 0 || totally_reflected {
            None
        } else {
            Some((remaining - 1) as usize)
        },
        transparent && !totally_reflected ==> depth == depth_after(remaining, 1),
{
    proof {
        reveal_with_fuel(depth_after, 2);
    }
    if !transparent || remaining == 0 || totally_reflected {
        None
    } else {
        Some(remaining - 1)
    }
}

} // verus!
