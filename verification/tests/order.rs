use spiderbot::scalar::Scalar;

fn s(x: f32) -> Scalar {
    Scalar::from_bits(x.to_bits())
}

#[test]
fn order_is_strict_transitive_and_total() {
    let numbers = [f32::NEG_INFINITY, -2.5, -0.0, 1.0e-45, 0.085, 1.0, f32::MAX, f32::INFINITY];
    for (i, a) in numbers.iter().enumerate() {
        for (j, b) in numbers.iter().enumerate() {
            assert_eq!(s(*a).lt(s(*b)), i < j);
            assert_eq!(s(*a).le(s(*b)), i <= j);
            assert_eq!(s(*b).negated().lt(s(*a).negated()), i < j);
        }
        assert!(!s(*a).lt(Scalar::nan()) && !Scalar::nan().le(s(*a)));
    }
    assert!(s(-0.0).le(s(0.0)) && s(0.0).le(s(-0.0)));
}

#[test]
fn bounds_hold() {
    let (low, high) = (s(0.18), s(1.30));
    assert_eq!(s(0.1).clamp(low, high), low);
    assert_eq!(s(2.0).clamp(low, high), high);
    assert_eq!(s(0.5).clamp(low, high), s(0.5));
    assert!(Scalar::nan().clamp(low, high).is_nan());
    assert_eq!(Scalar::nan().max(low), low);
    assert_eq!(Scalar::nan().min(low), low);
}

#[test]
fn sums_and_products_commute() {
    assert_eq!(s(0.1).plus(s(0.7)), s(0.7).plus(s(0.1)));
    assert_eq!(s(0.1).times(s(-0.7)), s(-0.7).times(s(0.1)));
    assert_eq!(s(0.1).negated().times(s(0.7)), s(0.1).times(s(0.7)).negated());
    assert_eq!(s(0.3).times(Scalar::ratio(1, 1)), s(0.3));
}

#[test]
fn only_opposite_infinities_have_no_sum() {
    let inf = s(f32::INFINITY);
    assert_eq!(inf.plus(inf), inf);
    assert!(inf.minus(inf).is_nan());
    assert!(inf.plus(inf.negated()).is_nan());
    assert_eq!(inf.minus(inf.negated()), inf);
    assert_eq!(Scalar::ratio(58, 1).plus(s(f32::MAX)), s(f32::MAX));
    assert_eq!(Scalar::ratio(58, 1).plus(inf.negated()), inf.negated());
    assert!(inf.times(s(0.0)).is_nan());
    assert_eq!(inf.negated().times(Scalar::ratio(55, 100)), inf.negated());
}

#[test]
fn reciprocals_of_large_numbers_are_small() {
    let one = Scalar::ratio(1, 1);
    assert_eq!(one.over(one), one);
    assert_eq!(one.over(s(50.0)), s(0.02));
    assert_eq!(one.over(s(f32::INFINITY)), s(0.0));
}

#[test]
fn fractions_are_ordered_as_they_are_rounded() {
    assert!(Scalar::ratio(1, 3).le(Scalar::ratio(2, 6)));
    assert_eq!(Scalar::ratio(1, 3), Scalar::ratio(2, 6));
    assert!(Scalar::ratio(1, 3).lt(Scalar::ratio(1, 2)));
    assert_eq!(Scalar::ratio(u32::MAX, 1), s(4_294_967_296.0));
    assert_ne!(Scalar::ratio(1, u32::MAX), s(0.0));
}
