//! The selection steps of the cylinder and of the double cone around the
//! y axis, both possibly truncated and capped.
//!
//! Solving for where a ray crosses the infinite wall or the plane of a cap
//! is arithmetic and is not done here. What is done here is deciding which
//! of those crossings belong to the truncated, capped solid, and in what
//! order they are reported. Distances and heights are order keys.

use vstd::prelude::*;

verus! {

/// A place where the ray crosses the infinite wall: how far along the ray,
/// and at what height.
#[derive(Debug, Clone, Copy, PartialEq, Eq, Structural)]
pub struct Crossing {
    pub t: i64,
    pub y: i64,
}

/// A place where the ray crosses the plane of a cap: how far along the ray,
/// and whether within the radius that the solid has there.
#[derive(Debug, Clone, Copy, PartialEq, Eq, Structural)]
pub struct CapCrossing {
    pub t: i64,
    pub within: bool,
}

/// The part of the surface that a point lies on.
#[derive(Debug, Clone, Copy, PartialEq, Eq, Structural)]
pub enum Face {
    /// The upper cap, whose normal points up.
    Top,
    /// The lower cap, whose normal points down.
    Bottom,
    /// The wall.
    Side,
}

/// The distances of the wall crossings that lie strictly between the two
/// ends of the solid, in the order of the crossings.
pub open spec fn wall_hits(walls: Seq<Crossing>, minimum: i64, maximum: i64) -> Seq<i64>
    decreases walls.len(),
{
    if walls.len() == 0 {
        Seq::empty()
    } else {
        let before = wall_hits(walls.drop_last(), minimum, maximum);
        if minimum < walls.last().y < maximum {
            before.push(walls.last().t)
        } else {
            before
        }
    }
}

/// The distances of the cap crossings that lie within the cap, in the order
/// of the crossings.
pub open spec fn cap_hits(caps: Seq<CapCrossing>) -> Seq<i64>
    decreases caps.len(),
{
    if caps.len() == 0 {
        Seq::empty()
    } else {
        let before = cap_hits(caps.drop_last());
        if caps.last().within {
            before.push(caps.last().t)
        } else {
            before
        }
    }
}

/// Everything the ray hits: the wall first, then the caps.
pub open spec fn all_hits(
    walls: Seq<Crossing>,
    minimum: i64,
    maximum: i64,
    caps: Seq<CapCrossing>,
) -> Seq<i64> {
    wall_hits(walls, minimum, maximum) + cap_hits(caps)
}

/// The part of the surface that a point lies on: a cap if the point is
/// within the radius and at or beyond the height `top` or `bottom`, which
/// lie a little inside the two ends; the upper cap where both apply.
pub open spec fn face_at(within: bool, y: i64, top: i64, bottom: i64) -> Face {
    if within && y >= top {
        Face::Top
    } else if within && y <= bottom {
        Face::Bottom
    } else {
        Face::Side
    }
}

/// Two wall crossings in the order the ray meets them; crossings at the same
/// distance stay as they are.
pub fn order(first: Crossing, second: Crossing) -> (crossings: (Crossing, Crossing))
    ensures
        crossings == if first.t > second.t {
            (second, first)
        } else {
            (first, second)
        },
{
    if first.t > second.t {
        (second, first)
    } else {
        (first, second)
    }
}

/// The distances at which a ray hits the solid between `minimum` and
/// `maximum`, given where it crosses the infinite wall and the planes of the
/// caps; `None` if it hits nothing.
///
/// For an open solid, or a ray that runs level, `caps` is empty.
pub fn local_intersect(
    walls: &Vec<Crossing>,
    minimum: i64,
    maximum: i64,
    caps: &Vec<CapCrossing>,
) -> (hits: Option<Vec<i64>>)
    ensures
        match hits {
            Some(found) => found@.len() > 0 && found@ == all_hits(walls@, minimum, maximum, caps@),
            None => all_hits(walls@, minimum, maximum, caps@).len() == 0,
        },
{
    let mut xs: Vec<i64> = Vec::new();
    let mut k: usize = 0;
    assert(walls@.take(0) =~= Seq::<Crossing>::empty());
    while k < walls.len()
        invariant
            k <= walls.len(),
            xs@ == wall_hits(walls@.take(k as int), minimum, maximum),
        decreases walls.len() - k,
    {
        proof {
            let next = walls@.take(k + 1);
            assert(next.drop_last() =~= walls@.take(k as int));
            assert(next.last() == walls@[k as int]);
        }
        if minimum < walls[k].y && walls[k].y < maximum {
            xs.push(walls[k].t);
        }
        k += 1;
    }
    assert(walls@.take(k as int) =~= walls@);
    let ghost on_wall = xs@;
    let mut j: usize = 0;
    assert(caps@.take(0) =~= Seq::<CapCrossing>::empty());
    assert(xs@ =~= on_wall + cap_hits(caps@.take(0)));
    while j < caps.len()
        invariant
            j <= caps.len(),
            xs@ == on_wall + cap_hits(caps@.take(j as int)),
        decreases caps.len() - j,
    {
        proof {
            let next = caps@.take(j + 1);
            assert(next.drop_last() =~= caps@.take(j as int));
            assert(next.last() == caps@[j as int]);
        }
        if caps[j].within {
            xs.push(caps[j].t);
            assert(xs@ =~= on_wall + cap_hits(caps@.take(j + 1)));
        }
        j += 1;
    }
    assert(caps@.take(j as int) =~= caps@);
    if xs.len() == 0 {
        None
    } else {
        Some(xs)
    }
}

/// The part of the surface that a point lies on, which decides its normal.
pub fn local_normal_at(within: bool, y: i64, top: i64, bottom: i64) -> (face: Face)
    ensures
        face == face_at(within, y, top, bottom),
{
    if within && y >= top {
        Face::Top
    } else if within && y <= bottom {
        Face::Bottom
    } else {
        Face::Side
    }
}

} // verus!
