//! The selection steps of the axis-aligned unit cube.
//!
//! A ray is inside the cube while it is between each of the three pairs of
//! opposite faces (the slabs). The arithmetic that finds where the ray
//! crosses a face is not done here; what is done here is choosing among the
//! crossings, which only compares them. All values are order keys.

use vstd::prelude::*;

verus! {

/// One of the three coordinate axes.
#[derive(Debug, Clone, Copy, PartialEq, Eq, Structural)]
pub enum Axis {
    X,
    Y,
    Z,
}

/// The larger of two keys.
pub open spec fn max2(a: i64, b: i64) -> i64 {
    if a >= b {
        a
    } else {
        b
    }
}

/// The smaller of two keys.
pub open spec fn min2(a: i64, b: i64) -> i64 {
    if a <= b {
        a
    } else {
        b
    }
}

/// Where the ray is inside all three slabs at once: from the last entry to
/// the first exit, if the entry does not come after the exit.
pub open spec fn overlap(x: (i64, i64), y: (i64, i64), z: (i64, i64)) -> Option<(i64, i64)> {
    let entry = max2(max2(x.0, y.0), z.0);
    let exit = min2(min2(x.1, y.1), z.1);
    if entry > exit {
        None
    } else {
        Some((entry, exit))
    }
}

/// The axis along which a point of the surface is farthest from the centre,
/// from the absolute values of its coordinates; the earlier axis among equals.
pub open spec fn farthest(x: i64, y: i64, z: i64) -> Axis {
    if x >= y && x >= z {
        Axis::X
    } else if y >= z {
        Axis::Y
    } else {
        Axis::Z
    }
}

/// The two crossings of one slab in the order the ray meets them.
pub fn check_axis(first: i64, second: i64) -> (crossings: (i64, i64))
    ensures
        crossings == (min2(first, second), max2(first, second)),
{
    if first > second {
        (second, first)
    } else {
        (first, second)
    }
}

/// The two intersections of a ray with the cube, given where it enters and
/// leaves each slab, or `None` if it misses the cube.
pub fn local_intersect(x: (i64, i64), y: (i64, i64), z: (i64, i64)) -> (hits: Option<(i64, i64)>)
    ensures
        hits == overlap(x, y, z),
{
    let mut entry = x.0;
    if y.0 > entry {
        entry = y.0;
    }
    if z.0 > entry {
        entry = z.0;
    }
    let mut exit = x.1;
    if y.1 < exit {
        exit = y.1;
    }
    if z.1 < exit {
        exit = z.1;
    }
    if entry > exit {
        None
    } else {
        Some((entry, exit))
    }
}

/// The axis of the face that a point of the cube's surface lies on, given
/// the absolute values of its coordinates: the normal there points along it.
pub fn local_normal_at(x: i64, y: i64, z: i64) -> (axis: Axis)
    ensures
        axis == farthest(x, y, z),
{
    let mut largest = x;
    if y > largest {
        largest = y;
    }
    if z > largest {
        largest = z;
    }
    if largest == x {
        Axis::X
    } else if largest == y {
        Axis::Y
    } else {
        Axis::Z
    }
}

/// The interval that `local_intersect` returns lies inside every slab, and
/// no larger interval does.
pub proof fn lemma_overlap_is_tightest(x: (i64, i64), y: (i64, i64), z: (i64, i64), t: i64)
    ensures
        match overlap(x, y, z) {
            Some((entry, exit)) => (entry <= t <= exit) <==> (x.0 <= t <= x.1 && y.0 <= t <= y.1
                && z.0 <= t <= z.1),
            None => !(x.0 <= t <= x.1 && y.0 <= t <= y.1 && z.0 <= t <= z.1),
        },
{
}

} // verus!
