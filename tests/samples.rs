use frissonic_formulae::{check_samples, locate, CurveError, Double, Segment};

fn d(x: f64) -> Double {
    Double::from_bits(x.to_bits())
}

fn ds(xs: &[f64]) -> Vec<Double> {
    xs.iter().map(|&x| d(x)).collect()
}

#[test]
fn finiteness_of_special_values() {
    assert!(d(0.0).is_finite());
    assert!(d(-0.0).is_finite());
    assert!(d(f64::MAX).is_finite());
    assert!(d(f64::MIN).is_finite());
    assert!(d(f64::MIN_POSITIVE / 4.0).is_finite());
    assert!(!d(f64::INFINITY).is_finite());
    assert!(!d(f64::NEG_INFINITY).is_finite());
    assert!(!d(f64::NAN).is_finite());
    assert!(!d(-f64::NAN).is_finite());
}

#[test]
fn comparison_follows_the_numbers() {
    let xs = [
        f64::MIN,
        -1.0e10,
        -2.5,
        -1.0,
        -f64::MIN_POSITIVE,
        -1.0e-320,
        0.0,
        1.0e-320,
        f64::MIN_POSITIVE,
        0.5,
        1.0,
        1.76,
        2.1,
        3.0e300,
        f64::MAX,
    ];
    for a in xs.iter() {
        for b in xs.iter() {
            assert_eq!(d(*a).less_than(&d(*b)), a < b, "{} < {}", a, b);
            assert_eq!(d(*a).at_most(&d(*b)), a <= b, "{} <= {}", a, b);
        }
    }
}

#[test]
fn signed_zeros_are_equal() {
    assert!(!d(-0.0).less_than(&d(0.0)));
    assert!(!d(0.0).less_than(&d(-0.0)));
    assert!(d(-0.0).at_most(&d(0.0)));
    assert!(d(0.0).at_most(&d(-0.0)));
}

#[test]
fn valid_samples_are_accepted() {
    let t = ds(&[0.0, 1.0, 2.0, 2.1, 4.0, 5.0]);
    let y = ds(&[0.0, 0.5, 0.75, 1.76, 3.0, 4.0]);
    assert_eq!(check_samples(&t, &y), Ok(()));
    assert_eq!(check_samples(&ds(&[0.0, 1.0]), &ds(&[0.0, 1.0])), Ok(()));
}

#[test]
fn too_few_points() {
    assert_eq!(check_samples(&ds(&[]), &ds(&[])), Err(CurveError::InsufficientPoints));
    assert_eq!(check_samples(&ds(&[1.0]), &ds(&[1.0])), Err(CurveError::InsufficientPoints));
    assert_eq!(
        check_samples(&ds(&[1.0]), &ds(&[1.0, 2.0])),
        Err(CurveError::InsufficientPoints)
    );
}

#[test]
fn mismatched_lengths() {
    assert_eq!(
        check_samples(&ds(&[0.0, 1.0]), &ds(&[0.0, 0.5, 1.0])),
        Err(CurveError::LengthMismatch)
    );
    assert_eq!(
        check_samples(&ds(&[0.0, 1.0, 2.0]), &ds(&[0.0, 1.0])),
        Err(CurveError::LengthMismatch)
    );
}

#[test]
fn non_finite_entries() {
    assert_eq!(
        check_samples(&ds(&[0.0, f64::NAN, 2.0]), &ds(&[0.0, 1.0, 2.0])),
        Err(CurveError::NonFiniteInput)
    );
    assert_eq!(
        check_samples(&ds(&[0.0, 1.0, 2.0]), &ds(&[0.0, 1.0, f64::INFINITY])),
        Err(CurveError::NonFiniteInput)
    );
    // a non-finite entry is reported even after a decrease
    assert_eq!(
        check_samples(&ds(&[3.0, 1.0, f64::NEG_INFINITY]), &ds(&[0.0, 1.0, 2.0])),
        Err(CurveError::NonFiniteInput)
    );
}

#[test]
fn repeated_or_decreasing_knots() {
    assert_eq!(
        check_samples(&ds(&[0.0, 1.0, 1.0, 2.0]), &ds(&[0.0, 1.0, 2.0, 3.0])),
        Err(CurveError::NonMonotonicKnots(1))
    );
    assert_eq!(
        check_samples(&ds(&[0.0, 1.0, 2.0, 1.5]), &ds(&[0.0, 1.0, 2.0, 3.0])),
        Err(CurveError::NonMonotonicKnots(2))
    );
    assert_eq!(
        check_samples(&ds(&[-0.0, 0.0]), &ds(&[0.0, 1.0])),
        Err(CurveError::NonMonotonicKnots(0))
    );
}

#[test]
fn repeated_or_decreasing_values() {
    assert_eq!(
        check_samples(&ds(&[0.0, 1.0, 2.0]), &ds(&[0.0, 0.0, 1.0])),
        Err(CurveError::NonMonotonicValues(0))
    );
    assert_eq!(
        check_samples(&ds(&[0.0, 1.0, 2.0, 3.0]), &ds(&[0.0, 1.0, 2.0, -4.0])),
        Err(CurveError::NonMonotonicValues(2))
    );
}

#[test]
fn earliest_index_decides() {
    // values fail at 0, knots only at 1
    assert_eq!(
        check_samples(&ds(&[0.0, 1.0, 0.5]), &ds(&[0.0, 0.0, 1.0])),
        Err(CurveError::NonMonotonicValues(0))
    );
    // both fail at 1: the knots are reported
    assert_eq!(
        check_samples(&ds(&[0.0, 1.0, 1.0]), &ds(&[0.0, 1.0, 1.0])),
        Err(CurveError::NonMonotonicKnots(1))
    );
}

#[test]
fn queries_at_knots() {
    let t = ds(&[0.0, 1.0, 2.0, 2.1, 4.0, 5.0]);
    assert_eq!(locate(&t, d(0.0)), Segment::Before);
    assert_eq!(locate(&t, d(1.0)), Segment::Within(1));
    assert_eq!(locate(&t, d(2.0)), Segment::Within(2));
    assert_eq!(locate(&t, d(2.1)), Segment::Within(3));
    assert_eq!(locate(&t, d(4.0)), Segment::Within(4));
    assert_eq!(locate(&t, d(5.0)), Segment::After);
}

#[test]
fn queries_between_and_outside_knots() {
    let t = ds(&[0.0, 1.0, 2.0, 2.1, 4.0, 5.0]);
    assert_eq!(locate(&t, d(-1.0)), Segment::Before);
    assert_eq!(locate(&t, d(-0.0)), Segment::Before);
    assert_eq!(locate(&t, d(0.25)), Segment::Within(0));
    assert_eq!(locate(&t, d(2.05)), Segment::Within(2));
    assert_eq!(locate(&t, d(3.9)), Segment::Within(3));
    assert_eq!(locate(&t, d(4.999)), Segment::Within(4));
    assert_eq!(locate(&t, d(7.5)), Segment::After);
}

#[test]
fn two_knots_extend_both_ways() {
    let t = ds(&[0.0, 1.0]);
    assert_eq!(locate(&t, d(-5.0)), Segment::Before);
    assert_eq!(locate(&t, d(10.0)), Segment::After);
    assert_eq!(locate(&t, d(0.5)), Segment::Within(0));
}

#[test]
fn segments_follow_query_order() {
    let t = ds(&[0.0, 1.0, 2.0, 2.1, 4.0, 5.0]);
    let rank = |s: Segment| -> i64 {
        match s {
            Segment::Before => -1,
            Segment::Within(i) => i as i64,
            Segment::After => 6,
        }
    };
    let mut last: i64 = -2;
    for k in 0..60u32 {
        let x = -0.5 + 6.0 * (k as f64) / 59.0;
        let r = rank(locate(&t, d(x)));
        assert!(r >= last);
        last = r;
    }
}
