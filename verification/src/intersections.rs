//! Candidate hits of a ray: ordering them and selecting the visible one.

use crate::shapes::id::ShapeId;
use vstd::prelude::*;

verus! {

/// One place where a ray meets a primitive.
#[derive(Debug, Clone, Copy, PartialEq, Eq, Structural)]
pub struct Intersection {
    /// Signed distance along the ray, as an order key: positive in front of
    /// the ray's origin, zero at it, negative behind it.
    pub t: i64,
    /// The primitive that was met.
    pub object: ShapeId,
}

/// The intersections of one ray, ordered by distance.
///
/// Every value of this type is non-decreasing in `t`: it can only be made
/// by ordering, and nothing changes it afterwards. `data` hands the order
/// out to whoever needs to rely on it.
#[derive(Debug)]
pub struct Intersections {
    data: Vec<Intersection>,
}

/// `s` is non-decreasing in `t`.
pub open spec fn sorted(s: Seq<Intersection>) -> bool {
    forall|i: int, j: int| 0 <= i <= j < s.len() ==> s[i].t <= s[j].t
}

/// The test that an intersection lies at distance `t`.
pub open spec fn at_distance(t: i64) -> spec_fn(Intersection) -> bool {
    |x: Intersection| x.t == t
}

/// The intersections of `s` at distance `t`, in the order they have in `s`.
pub open spec fn with_t(s: Seq<Intersection>, t: i64) -> Seq<Intersection> {
    s.filter(at_distance(t))
}

/// `k` is the first index of `s` that lies in front of the ray's origin.
pub open spec fn is_hit_index(s: Seq<Intersection>, k: int) -> bool {
    &&& 0 <= k < s.len()
    &&& s[k].t > 0
    &&& forall|j: int| 0 <= j < k ==> s[j].t <= 0
}

/// Inserting `x` behind every entry that is not farther than it keeps the
/// order within each distance.
proof fn lemma_insert_keeps_blocks(s: Seq<Intersection>, p: int, x: Intersection, t: i64)
    requires
        0 <= p <= s.len(),
        forall|j: int| p <= j < s.len() ==> s[j].t > x.t,
    ensures
        with_t(s.insert(p, x), t) == if t == x.t {
            with_t(s, t).push(x)
        } else {
            with_t(s, t)
        },
{
    let pred = at_distance(t);
    let head = s.subrange(0, p);
    let tail = s.subrange(p, s.len() as int);
    assert(s =~= head + tail);
    assert(s.insert(p, x) =~= head.push(x) + tail);
    Seq::filter_distributes_over_add(head, tail, pred);
    Seq::filter_distributes_over_add(head.push(x), tail, pred);
    head.lemma_filter_push(x, pred);
    if t == x.t {
        assert forall|i: int| 0 <= i < tail.len() implies !pred(#[trigger] tail[i]) by {
            assert(tail[i] == s[p + i]);
        }
        tail.lemma_all_neg_filter_empty(pred);
        assert(tail.filter(pred) =~= Seq::<Intersection>::empty());
        assert(with_t(s, t) =~= head.filter(pred));
        assert(with_t(s.insert(p, x), t) =~= head.filter(pred).push(x));
    }
}

/// In a sorted sequence the hit is the nearest intersection in front of the
/// ray's origin: no intersection with a positive distance is nearer.
pub proof fn lemma_hit_is_nearest(s: Seq<Intersection>, k: int)
    requires
        sorted(s),
        is_hit_index(s, k),
    ensures
        forall|j: int| 0 <= j < s.len() && s[j].t > 0 ==> s[k].t <= #[trigger] s[j].t,
{
    assert forall|j: int| 0 <= j < s.len() && s[j].t > 0 implies s[k].t <= #[trigger] s[j].t by {
        if j < k {
            assert(s[j].t <= 0);
        }
    }
}

/// Up to any intersection in front of the ray's origin there is a first one.
proof fn lemma_first_in_front(s: Seq<Intersection>, j: int) -> (k: int)
    requires
        0 <= j < s.len(),
        s[j].t > 0,
    ensures
        0 <= k <= j,
        is_hit_index(s, k),
    decreases j,
{
    if exists|i: int| 0 <= i < j && s[i].t > 0 {
        let i = choose|i: int| 0 <= i < j && s[i].t > 0;
        lemma_first_in_front(s, i)
    } else {
        j
    }
}

/// A sequence has a hit if and only if one of its intersections lies in
/// front of the ray's origin: where all lie at it or behind it, nothing is
/// hit.
pub proof fn lemma_hit_exists(s: Seq<Intersection>)
    ensures
        (exists|k: int| is_hit_index(s, k)) <==> (exists|j: int| 0 <= j < s.len() && s[j].t > 0),
{
    if exists|j: int| 0 <= j < s.len() && s[j].t > 0 {
        let j = choose|j: int| 0 <= j < s.len() && s[j].t > 0;
        let k = lemma_first_in_front(s, j);
        assert(is_hit_index(s, k));
    }
    if exists|k: int| is_hit_index(s, k) {
        let k = choose|k: int| is_hit_index(s, k);
        assert(0 <= k < s.len() && s[k].t > 0);
    }
}

/// The last intersection of a sequence is the last of those at its
/// distance, and the rest keeps every other distance as it was.
proof fn lemma_blocks_drop_last(s: Seq<Intersection>, t: i64)
    requires
        s.len() > 0,
    ensures
        with_t(s, t) == if s.last().t == t {
            with_t(s.drop_last(), t).push(s.last())
        } else {
            with_t(s.drop_last(), t)
        },
{
    assert(s.drop_last().push(s.last()) =~= s);
    s.drop_last().lemma_filter_push(s.last(), at_distance(t));
}

/// Ordering by distance while keeping the order within each distance leaves
/// no choice: two sorted sequences that hold the same intersections in the
/// same order at every distance are the same sequence.
pub proof fn lemma_sorting_is_unique(a: Seq<Intersection>, b: Seq<Intersection>)
    requires
        sorted(a),
        sorted(b),
        forall|t: i64| #[trigger] with_t(a, t) == with_t(b, t),
    ensures
        a == b,
    decreases a.len(),
{
    if a.len() == 0 {
        if b.len() > 0 {
            lemma_blocks_drop_last(b, b.last().t);
            assert(with_t(a, b.last().t).len() == 0) by {
                a.lemma_filter_len(at_distance(b.last().t));
            }
        }
        assert(a =~= b);
    } else {
        let x = a.last();
        lemma_blocks_drop_last(a, x.t);
        assert(with_t(b, x.t).last() == x);
        if b.len() == 0 {
            b.lemma_filter_len(at_distance(x.t));
        }
        let y = b.last();
        lemma_blocks_drop_last(b, y.t);
        assert(with_t(a, y.t).last() == y);
        // each of `x` and `y` occurs in the other sequence, which ends in the
        // farther of the two
        with_t(b, x.t).lemma_index_contains(with_t(b, x.t).len() - 1);
        b.lemma_filter_contains_rev(at_distance(x.t), x);
        with_t(a, y.t).lemma_index_contains(with_t(a, y.t).len() - 1);
        a.lemma_filter_contains_rev(at_distance(y.t), y);
        assert(x.t == y.t);
        assert(x == y);
        assert forall|t: i64| #[trigger]
            with_t(a.drop_last(), t) == with_t(b.drop_last(), t) by {
            lemma_blocks_drop_last(a, t);
            lemma_blocks_drop_last(b, t);
            if t == x.t {
                assert(with_t(a.drop_last(), t) =~= with_t(a, t).drop_last());
                assert(with_t(b.drop_last(), t) =~= with_t(b, t).drop_last());
            }
        }
        lemma_sorting_is_unique(a.drop_last(), b.drop_last());
        assert(a =~= a.drop_last().push(x));
        assert(b =~= b.drop_last().push(y));
    }
}

/// Puts `x` into the sorted `v`, behind the entries that are not farther.
fn insert_sorted(v: &mut Vec<Intersection>, x: Intersection)
    requires
        sorted(old(v)@),
    ensures
        sorted(final(v)@),
        final(v)@.len() == old(v)@.len() + 1,
        final(v)@.to_multiset() == old(v)@.to_multiset().insert(x),
        forall|t: i64| #[trigger]
            with_t(final(v)@, t) == if t == x.t {
                with_t(old(v)@, t).push(x)
            } else {
                with_t(old(v)@, t)
            },
{
    let mut p: usize = v.len();
    while p > 0 && v[p - 1].t > x.t
        invariant
            v@ == old(v)@,
            p <= v.len(),
            forall|j: int| p <= j < v.len() ==> v[j].t > x.t,
        decreases p,
    {
        p -= 1;
    }
    proof {
        let s = v@;
        assert forall|t: i64| #[trigger]
            with_t(s.insert(p as int, x), t) == if t == x.t {
                with_t(s, t).push(x)
            } else {
                with_t(s, t)
            } by {
            lemma_insert_keeps_blocks(s, p as int, x, t);
        }
        vstd::seq_lib::to_multiset_insert(s, p as int, x);
    }
    v.insert(p, x);
}

impl View for Intersections {
    type V = Seq<Intersection>;

    /// The intersections, nearest first.
    closed spec fn view(&self) -> Seq<Intersection> {
        self.data@
    }
}

impl Intersection {
    /// An intersection at distance `t` with `object`.
    pub fn new(t: i64, object: ShapeId) -> (i: Self)
        ensures
            i.t == t,
            i.object == object,
    {
        Self { t, object }
    }
}

impl Intersections {
    #[verifier::type_invariant]
    spec fn ordered(self) -> bool {
        sorted(self.data@)
    }

    /// Orders `intersections` by distance. Intersections at the same
    /// distance keep the order in which they were given.
    pub fn new(intersections: Vec<Intersection>) -> (xs: Self)
        ensures
            sorted(xs@),
            forall|t: i64| #[trigger] with_t(xs@, t) == with_t(intersections@, t),
            xs@.to_multiset() == intersections@.to_multiset(),
            xs@.len() == intersections@.len(),
    {
        let mut data: Vec<Intersection> = Vec::new();
        let mut k: usize = 0;
        assert(intersections@.take(0) =~= data@);
        while k < intersections.len()
            invariant
                k <= intersections.len(),
                sorted(data@),
                data@.len() == k,
                data@.to_multiset() == intersections@.take(k as int).to_multiset(),
                forall|t: i64| #[trigger]
                    with_t(data@, t) == with_t(intersections@.take(k as int), t),
            decreases intersections.len() - k,
        {
            let x = intersections[k];
            proof {
                let before = intersections@.take(k as int);
                assert(intersections@.take(k + 1) =~= before.push(x));
                vstd::seq_lib::to_multiset_build(before, x);
                assert forall|t: i64| #[trigger]
                    with_t(before.push(x), t) == if t == x.t {
                        with_t(before, t).push(x)
                    } else {
                        with_t(before, t)
                    } by {
                    before.lemma_filter_push(x, at_distance(t));
                }
            }
            insert_sorted(&mut data, x);
            k += 1;
        }
        assert(intersections@.take(k as int) =~= intersections@);
        Self { data }
    }

    /// The intersections, nearest first.
    pub fn data(&self) -> (items: &[Intersection])
        ensures
            items@ == self@,
            sorted(items@),
    {
        proof {
            use_type_invariant(self);
        }
        self.data.as_slice()
    }

    /// How many intersections there are.
    pub fn len(&self) -> (n: usize)
        ensures
            n == self@.len(),
    {
        self.data.len()
    }

    /// The visible intersection: the nearest one in front of the ray's
    /// origin, and among several at that distance the first.
    pub fn hit(&self) -> (found: Option<&Intersection>)
        ensures
            match found {
                Some(i) => {
                    &&& exists|k: int| is_hit_index(self@, k) && self@[k] == *i
                    &&& forall|j: int|
                        0 <= j < self@.len() && self@[j].t > 0 ==> i.t <= #[trigger] self@[j].t
                },
                None => forall|j: int| 0 <= j < self@.len() ==> self@[j].t <= 0,
            },
    {
        proof {
            use_type_invariant(self);
        }
        let mut k: usize = 0;
        while k < self.data.len()
            invariant
                k <= self.data.len(),
                sorted(self.data@),
                forall|j: int| 0 <= j < k ==> self.data@[j].t <= 0,
            decreases self.data.len() - k,
        {
            if self.data[k].t > 0 {
                proof {
                    lemma_hit_is_nearest(self@, k as int);
                }
                return Some(&self.data[k]);
            }
            k += 1;
        }
        None
    }
}

impl Default for Intersections {
    /// No intersections.
    fn default() -> (xs: Self)
        ensures
            xs@ == Seq::<Intersection>::empty(),
    {
        Self { data: Vec::new() }
    }
}

impl core::ops::Index<usize> for Intersections {
    type Output = Intersection;

    /// The intersection at position `index`, counted from the nearest.
    fn index(&self, index: usize) -> (item: &Intersection)
        ensures
            *item == self@[index as int],
    {
        &self.data[index]
    }
}

impl vstd::std_specs::core::IndexSpecImpl<usize> for Intersections {
    open spec fn index_req(&self, index: &usize) -> bool {
        *index < self@.len()
    }
}

} // verus!
