use crate::double::{finite_value, scaled_value, Double};
use vstd::prelude::*;

verus! {

/// Why a sequence of knots and values cannot make a curve.
#[derive(Clone, Copy, Debug, PartialEq, Eq, Structural)]
pub enum CurveError {
    /// Fewer than two knots.
    InsufficientPoints,
    /// The knots and the values differ in length.
    LengthMismatch,
    /// A knot or a value is an infinity or a NaN.
    NonFiniteInput,
    /// The knot after this index is not greater than the knot at it.
    NonMonotonicKnots(usize),
    /// The value after this index is not greater than the value at it.
    NonMonotonicValues(usize),
}

/// Every element is a finite double.
pub open spec fn all_finite(s: Seq<Double>) -> bool {
    forall|i: int| 0 <= i < s.len() ==> finite_value(#[trigger] s[i])
}

/// The element after index `i` is greater than the element at `i`.
pub open spec fn increases_at(s: Seq<Double>, i: int) -> bool {
    scaled_value(s[i]) < scaled_value(s[i + 1])
}

/// Each element is less than the next.
pub open spec fn strictly_increasing(s: Seq<Double>) -> bool {
    forall|i: int| 0 <= i < s.len() - 1 ==> #[trigger] increases_at(s, i)
}

/// Knots and values both increase at every index below `i`.
pub open spec fn increasing_before(knots: Seq<Double>, values: Seq<Double>, i: int) -> bool {
    &&& forall|j: int| 0 <= j < i ==> #[trigger] increases_at(knots, j)
    &&& forall|j: int| 0 <= j < i ==> #[trigger] increases_at(values, j)
}

/// At least two knots, as many values as knots, all of them finite.
pub open spec fn sized_and_finite(knots: Seq<Double>, values: Seq<Double>) -> bool {
    &&& knots.len() >= 2
    &&& values.len() == knots.len()
    &&& all_finite(knots)
    &&& all_finite(values)
}

/// Samples that a curve can be built on.
pub open spec fn valid_samples(knots: Seq<Double>, values: Seq<Double>) -> bool {
    &&& sized_and_finite(knots, values)
    &&& strictly_increasing(knots)
    &&& strictly_increasing(values)
}

/// Knots that a curve can be evaluated over.
pub open spec fn valid_knots(knots: Seq<Double>) -> bool {
    &&& knots.len() >= 2
    &&& all_finite(knots)
    &&& strictly_increasing(knots)
}

/// Checks the samples of a curve: the length checks first, then finiteness,
/// then, index by index, that the knots and then the values increase.
pub fn check_samples(knots: &Vec<Double>, values: &Vec<Double>) -> (r: Result<(), CurveError>)
    ensures
        r is Ok <==> valid_samples(knots@, values@),
        match r {
            Ok(_) => true,
            Err(CurveError::InsufficientPoints) => knots@.len() < 2,
            Err(CurveError::LengthMismatch) => knots@.len() >= 2 && values@.len() != knots@.len(),
            Err(CurveError::NonFiniteInput) => {
                &&& knots@.len() >= 2
                &&& values@.len() == knots@.len()
                &&& !(all_finite(knots@) && all_finite(values@))
            },
            Err(CurveError::NonMonotonicKnots(i)) => {
                &&& sized_and_finite(knots@, values@)
                &&& i + 1 < knots@.len()
                &&& increasing_before(knots@, values@, i as int)
                &&& !increases_at(knots@, i as int)
            },
            Err(CurveError::NonMonotonicValues(i)) => {
                &&& sized_and_finite(knots@, values@)
                &&& i + 1 < knots@.len()
                &&& increasing_before(knots@, values@, i as int)
                &&& increases_at(knots@, i as int)
                &&& !increases_at(values@, i as int)
            },
        },
{
    let n = knots.len();
    if n < 2 {
        return Err(CurveError::InsufficientPoints);
    }
    if values.len() != n {
        return Err(CurveError::LengthMismatch);
    }
    let mut i: usize = 0;
    while i < n
        invariant
            i <= n,
            n >= 2,
            n == knots@.len(),
            n == values@.len(),
            forall|j: int| 0 <= j < i ==> finite_value(#[trigger] knots@[j]),
            forall|j: int| 0 <= j < i ==> finite_value(#[trigger] values@[j]),
        decreases n - i,
    {
        if !knots[i].is_finite() || !values[i].is_finite() {
            assert(!finite_value(knots@[i as int]) || !finite_value(values@[i as int]));
            return Err(CurveError::NonFiniteInput);
        }
        i += 1;
    }
    let mut i: usize = 0;
    while i + 1 < n
        invariant
            i + 1 <= n,
            n >= 2,
            n == knots@.len(),
            n == values@.len(),
            sized_and_finite(knots@, values@),
            increasing_before(knots@, values@, i as int),
        decreases n - i,
    {
        if !knots[i].less_than(&knots[i + 1]) {
            assert(!increases_at(knots@, i as int));
            return Err(CurveError::NonMonotonicKnots(i));
        }
        if !values[i].less_than(&values[i + 1]) {
            assert(!increases_at(values@, i as int));
            return Err(CurveError::NonMonotonicValues(i));
        }
        i += 1;
    }
    Ok(())
}

} // verus!
