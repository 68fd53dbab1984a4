use crate::double::{finite_value, scaled_value, Double};
use crate::samples::{increases_at, valid_knots};
use vstd::prelude::*;

verus! {

/// Where a query falls relative to the knots of a curve.
#[derive(Clone, Copy, Debug, PartialEq, Eq, Structural)]
pub enum Segment {
    /// At or before the first knot: the curve extends left along a line.
    Before,
    /// At or after the last knot: the curve extends right along a line.
    After,
    /// Strictly between the first and the last knot, in the interval that
    /// starts at the knot with this index.
    Within(usize),
}

/// `r` is where the query `x` falls among `knots`.
pub open spec fn segment_fits(knots: Seq<Double>, x: Double, r: Segment) -> bool {
    let first = scaled_value(knots[0]);
    let last = scaled_value(knots[knots.len() - 1]);
    let v = scaled_value(x);
    match r {
        Segment::Before => v <= first,
        Segment::After => first < v && last <= v,
        Segment::Within(i) => {
            &&& first < v
            &&& v < last
            &&& i + 1 < knots.len()
            &&& scaled_value(knots[i as int]) <= v
            &&& v < scaled_value(knots[i + 1])
        },
    }
}

/// Finds where `x` falls among `knots`, by binary search between the first
/// and the last knot.
pub fn locate(knots: &Vec<Double>, x: Double) -> (r: Segment)
    requires
        valid_knots(knots@),
        finite_value(x),
    ensures
        segment_fits(knots@, x, r),
{
    let n = knots.len();
    if x.at_most(&knots[0]) {
        return Segment::Before;
    }
    if knots[n - 1].at_most(&x) {
        return Segment::After;
    }
    let mut lo: usize = 0;
    let mut hi: usize = n - 1;
    while lo + 1 < hi
        invariant
            lo < hi < n,
            n == knots@.len(),
            valid_knots(knots@),
            finite_value(x),
            scaled_value(knots@[0]) < scaled_value(x) < scaled_value(knots@[n - 1]),
            scaled_value(knots@[lo as int]) <= scaled_value(x),
            scaled_value(x) < scaled_value(knots@[hi as int]),
        decreases hi - lo,
    {
        let mid = lo + (hi - lo) / 2;
        if knots[mid].at_most(&x) {
            lo = mid;
        } else {
            hi = mid;
        }
    }
    Segment::Within(lo)
}

/// Knots that increase at each step increase between any two positions.
pub proof fn lemma_knots_ordered(knots: Seq<Double>, a: int, b: int)
    requires
        valid_knots(knots),
        0 <= a < b < knots.len(),
    ensures
        scaled_value(knots[a]) < scaled_value(knots[b]),
    decreases b - a,
{
    assert(increases_at(knots, a));
    if a + 1 < b {
        lemma_knots_ordered(knots, a + 1, b);
    }
}

/// A query at a knot falls on the interval that starts at that knot; at the
/// first knot it falls before the intervals, at the last knot after them.
pub proof fn lemma_knot_segment(knots: Seq<Double>, i: int, r: Segment)
    requires
        valid_knots(knots),
        0 <= i < knots.len(),
        segment_fits(knots, knots[i], r),
    ensures
        i == 0 ==> r == Segment::Before,
        i == knots.len() - 1 ==> r == Segment::After,
        0 < i < knots.len() - 1 ==> r == Segment::Within(i as usize),
{
    let n = knots.len() as int;
    lemma_knots_ordered(knots, 0, n - 1);
    if 0 < i {
        lemma_knots_ordered(knots, 0, i);
    }
    if i < n - 1 {
        lemma_knots_ordered(knots, i, n - 1);
    }
    if let Segment::Within(j) = r {
        if (j as int) + 1 < i {
            lemma_knots_ordered(knots, j + 1, i);
        }
        if i < j {
            lemma_knots_ordered(knots, i, j as int);
        }
    }
}

/// The position of a segment from left to right: before the knots, the
/// interval starting at each knot, after the knots.
pub open spec fn segment_rank(knot_count: int, r: Segment) -> int {
    match r {
        Segment::Before => -1,
        Segment::Within(i) => i as int,
        Segment::After => knot_count,
    }
}

/// A query that is not less than another falls on the same segment or on one
/// further right.
pub proof fn lemma_segment_order(knots: Seq<Double>, x1: Double, x2: Double, r1: Segment, r2: Segment)
    requires
        valid_knots(knots),
        segment_fits(knots, x1, r1),
        segment_fits(knots, x2, r2),
        scaled_value(x1) <= scaled_value(x2),
    ensures
        segment_rank(knots.len() as int, r1) <= segment_rank(knots.len() as int, r2),
{
    let n = knots.len() as int;
    lemma_knots_ordered(knots, 0, n - 1);
    if let Segment::Within(i) = r1 {
        if let Segment::Within(j) = r2 {
            if (j as int) + 1 < i {
                lemma_knots_ordered(knots, j + 1, i as int);
            }
        }
    }
}

} // verus!
