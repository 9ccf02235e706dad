//! Which media meet at a hit.
//!
//! Transparent primitives may be nested or overlap. Walking the sorted
//! intersections of a ray from the nearest, and keeping the primitives the
//! ray is currently inside of on a stack, tells for every intersection what
//! the ray leaves and what it enters there.

use crate::intersections::{Intersection, Intersections};
use crate::shapes::id::ShapeId;
use vstd::prelude::*;

verus! {

/// What fills the space on one side of a surface.
#[derive(Debug, Clone, Copy, PartialEq, Eq, Structural)]
pub enum Medium {
    /// Empty space, of refractive index one.
    Vacuum,
    /// The inside of a primitive, with the refractive index of its material.
    Inside(ShapeId),
}

/// The discrete part of the snapshot taken at a hit before shading.
#[derive(Debug, Clone, Copy, PartialEq, Eq, Structural)]
pub struct ComputedIntersection {
    pub t: i64,
    pub object: ShapeId,
    /// The medium the ray leaves; `None` if the hit is not among the
    /// intersections it was computed against.
    pub n1: Option<Medium>,
    /// The medium the ray enters; `None` exactly when `n1` is.
    pub n2: Option<Medium>,
}

impl ComputedIntersection {
    /// A snapshot of the hit at distance `t` on `object`, where the ray
    /// leaves `n1` and enters `n2`.
    pub fn new(t: i64, object: ShapeId, n1: Option<Medium>, n2: Option<Medium>) -> (comps: Self)
        ensures
            comps.t == t,
            comps.object == object,
            comps.n1 == n1,
            comps.n2 == n2,
    {
        Self { t, object, n1, n2 }
    }
}

/// How the share of the light that a surface reflects is found.
#[derive(Debug, Clone, Copy, PartialEq, Eq, Structural)]
pub enum Reflectance {
    /// All light is reflected: the share is exactly one.
    Total,
    /// Schlick's polynomial in the cosine of the angle of the refracted ray.
    FromRefractedAngle,
    /// Schlick's polynomial in the cosine of the angle of the incoming ray.
    FromIncomingAngle,
}

/// `k` is the first index of `s` that holds `x`.
pub open spec fn is_first_occurrence(s: Seq<Intersection>, x: Intersection, k: int) -> bool {
    &&& 0 <= k < s.len()
    &&& s[k] == x
    &&& forall|j: int| 0 <= j < k ==> s[j] != x
}

/// The test that a primitive is not `object`.
pub open spec fn other_than(object: ShapeId) -> spec_fn(ShapeId) -> bool {
    |o: ShapeId| o != object
}

/// `stack` without `object`.
pub open spec fn without(stack: Seq<ShapeId>, object: ShapeId) -> Seq<ShapeId> {
    stack.filter(other_than(object))
}

/// Crossing a surface of `object`: the ray leaves it if it was inside, and
/// enters it otherwise.
pub open spec fn toggle(stack: Seq<ShapeId>, object: ShapeId) -> Seq<ShapeId> {
    if stack.contains(object) {
        without(stack, object)
    } else {
        stack.push(object)
    }
}

/// The primitives the ray is inside of after crossing the first `n` entries
/// of `s`, in the order in which it entered them.
pub open spec fn containers(s: Seq<Intersection>, n: nat) -> Seq<ShapeId>
    decreases n,
{
    if n == 0 || n > s.len() {
        Seq::empty()
    } else {
        toggle(containers(s, (n - 1) as nat), s[n - 1].object)
    }
}

/// The medium the ray is in: the inside of the primitive it entered last,
/// or empty space if it is inside of none.
pub open spec fn medium(stack: Seq<ShapeId>) -> Medium {
    if stack.len() == 0 {
        Medium::Vacuum
    } else {
        Medium::Inside(stack.last())
    }
}

/// Removing `object` from a stack commutes with pushing onto it.
proof fn lemma_without_push(stack: Seq<ShapeId>, top: ShapeId, object: ShapeId)
    ensures
        without(stack.push(top), object) == if top != object {
            without(stack, object).push(top)
        } else {
            without(stack, object)
        },
{
    stack.lemma_filter_push(top, other_than(object));
}

/// How often the ray crosses a surface of `object` among the first `n`
/// entries of `s`.
pub open spec fn crossings(s: Seq<Intersection>, n: nat, object: ShapeId) -> nat
    decreases n,
{
    if n == 0 || n > s.len() {
        0
    } else if s[n - 1].object == object {
        crossings(s, (n - 1) as nat, object) + 1
    } else {
        crossings(s, (n - 1) as nat, object)
    }
}

/// What is left of a stack without `object` is what was on it other than
/// `object`, and nothing is on it twice that was not before.
proof fn lemma_without(stack: Seq<ShapeId>, object: ShapeId)
    ensures
        forall|o: ShapeId| #[trigger]
            without(stack, object).contains(o) <==> stack.contains(o) && o != object,
        stack.no_duplicates() ==> without(stack, object).no_duplicates(),
    decreases stack.len(),
{
    if stack.len() == 0 {
        stack.lemma_filter_len(other_than(object));
        assert forall|o: ShapeId| #[trigger]
            without(stack, object).contains(o) <==> stack.contains(o) && o != object by {}
    } else {
        let below = stack.drop_last();
        let top = stack.last();
        assert(below.push(top) =~= stack);
        lemma_without(below, object);
        lemma_without_push(below, top, object);
        assert forall|o: ShapeId| #[trigger]
            without(stack, object).contains(o) <==> stack.contains(o) && o != object by {
            if stack.contains(o) && o != object {
                let i = choose|i: int| 0 <= i < stack.len() && stack[i] == o;
                if i < below.len() {
                    assert(below[i] == o);
                    assert(without(below, object).contains(o));
                    let j = choose|j: int|
                        0 <= j < without(below, object).len() && without(below, object)[j] == o;
                    assert(without(stack, object)[j] == o);
                } else {
                    assert(without(stack, object).last() == o);
                }
            }
            if without(stack, object).contains(o) {
                let j = choose|j: int|
                    0 <= j < without(stack, object).len() && without(stack, object)[j] == o;
                if j < without(below, object).len() {
                    assert(without(below, object)[j] == o);
                    assert(without(below, object).contains(o));
                    let i = choose|i: int| 0 <= i < below.len() && below[i] == o;
                    assert(stack[i] == o);
                } else {
                    assert(o == top);
                    assert(stack[stack.len() - 1] == o);
                }
            }
        }
        if stack.no_duplicates() {
            assert(below.no_duplicates());
            if top != object {
                assert(!below.contains(top)) by {
                    if below.contains(top) {
                        let i = choose|i: int| 0 <= i < below.len() && below[i] == top;
                        assert(stack[i] == stack[stack.len() - 1]);
                    }
                }
                assert(!without(below, object).contains(top));
            }
        }
    }
}

/// The stack never holds a primitive twice, and it holds exactly the
/// primitives whose surfaces the ray has crossed an odd number of times.
pub proof fn lemma_containers_hold_the_entered(s: Seq<Intersection>, n: nat, object: ShapeId)
    requires
        n <= s.len(),
    ensures
        containers(s, n).no_duplicates(),
        containers(s, n).contains(object) <==> crossings(s, n, object) % 2 == 1,
    decreases n,
{
    if n > 0 {
        let before = containers(s, (n - 1) as nat);
        let crossed = s[n - 1].object;
        lemma_containers_hold_the_entered(s, (n - 1) as nat, object);
        lemma_containers_hold_the_entered(s, (n - 1) as nat, crossed);
        lemma_without(before, crossed);
        if before.contains(crossed) {
            assert(without(before, crossed).contains(object) <==> before.contains(object) && object
                != crossed);
        } else {
            let after = before.push(crossed);
            assert(after.contains(object) <==> before.contains(object) || object == crossed) by {
                if before.contains(object) {
                    let i = choose|i: int| 0 <= i < before.len() && before[i] == object;
                    assert(after[i] == object);
                }
                if object == crossed {
                    assert(after[after.len() - 1] == object);
                }
            }
        }
    }
}

/// How the share of reflected light is found at a surface where light
/// passes from a medium of refractive index n1 into one of index n2.
///
/// `to_thinner` says that n1 is greater than n2, and `beyond_critical` that
/// the squared sine of the refracted angle would exceed one. Where both
/// hold, the light is totally reflected.
pub fn schlick(to_thinner: bool, beyond_critical: bool) -> (reflectance: Reflectance)
    ensures
        reflectance == if to_thinner && beyond_critical {
            Reflectance::Total
        } else if to_thinner {
            Reflectance::FromRefractedAngle
        } else {
            Reflectance::FromIncomingAngle
        },
{
    if to_thinner {
        if beyond_critical {
            return Reflectance::Total;
        }
        Reflectance::FromRefractedAngle
    } else {
        Reflectance::FromIncomingAngle
    }
}

/// Whether `object` is on `stack`.
fn contains_id(stack: &Vec<ShapeId>, object: ShapeId) -> (found: bool)
    ensures
        found == stack@.contains(object),
{
    let mut k: usize = 0;
    while k < stack.len()
        invariant
            k <= stack.len(),
            forall|j: int| 0 <= j < k ==> stack@[j] != object,
        decreases stack.len() - k,
    {
        if stack[k] == object {
            return true;
        }
        k += 1;
    }
    false
}

/// Takes `object` off `stack` if it is on it, and puts it on top otherwise.
fn toggle_container(stack: Vec<ShapeId>, object: ShapeId) -> (next: Vec<ShapeId>)
    ensures
        next@ == toggle(stack@, object),
{
    if contains_id(&stack, object) {
        let mut kept: Vec<ShapeId> = Vec::new();
        let mut k: usize = 0;
        assert(stack@.take(0) =~= Seq::<ShapeId>::empty());
        while k < stack.len()
            invariant
                k <= stack.len(),
                kept@ == without(stack@.take(k as int), object),
            decreases stack.len() - k,
        {
            proof {
                assert(stack@.take(k + 1) =~= stack@.take(k as int).push(stack@[k as int]));
                lemma_without_push(stack@.take(k as int), stack@[k as int], object);
            }
            if stack[k] != object {
                kept.push(stack[k]);
            }
            k += 1;
        }
        assert(stack@.take(k as int) =~= stack@);
        kept
    } else {
        let mut next = stack;
        next.push(object);
        next
    }
}

/// The medium the ray is in when it is inside the primitives on `stack`.
fn top_medium(stack: &Vec<ShapeId>) -> (m: Medium)
    ensures
        m == medium(stack@),
{
    if stack.len() == 0 {
        Medium::Vacuum
    } else {
        Medium::Inside(stack[stack.len() - 1])
    }
}

impl Intersection {
    /// Works out which media meet at this intersection, given every
    /// intersection `xs` of the same ray.
    ///
    /// The ray starts in empty space and crosses the entries of `xs` nearest
    /// first; at each it leaves the primitive if it was inside it and enters
    /// it otherwise. `n1` is the medium it is in when it arrives at the first
    /// entry equal to `self`, `n2` the one it is in once it has crossed it.
    pub fn prepare_computations(&self, xs: &Intersections) -> (comps: ComputedIntersection)
        ensures
            comps.t == self.t,
            comps.object == self.object,
            forall|k: int| #[trigger]
                is_first_occurrence(xs@, *self, k) ==> {
                    &&& comps.n1 == Some(medium(containers(xs@, k as nat)))
                    &&& comps.n2 == Some(medium(containers(xs@, (k + 1) as nat)))
                },
            !xs@.contains(*self) ==> comps.n1.is_none() && comps.n2.is_none(),
    {
        let items = xs.data();
        let mut stack: Vec<ShapeId> = Vec::new();
        let mut k: usize = 0;
        while k < items.len()
            invariant
                items@ == xs@,
                k <= items.len(),
                stack@ == containers(xs@, k as nat),
                forall|j: int| 0 <= j < k ==> xs@[j] != *self,
            decreases items.len() - k,
        {
            let i = items[k];
            if i == *self {
                let n1 = top_medium(&stack);
                stack = toggle_container(stack, i.object);
                let n2 = top_medium(&stack);
                assert(is_first_occurrence(xs@, *self, k as int));
                return ComputedIntersection::new(self.t, self.object, Some(n1), Some(n2));
            }
            stack = toggle_container(stack, i.object);
            k += 1;
        }
        ComputedIntersection::new(self.t, self.object, None, None)
    }
}

} // verus!
