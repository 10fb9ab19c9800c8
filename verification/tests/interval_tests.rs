use raytracer::{Fx, Interval};

#[test]
fn test_contains() {
    let interval = Interval { min: Fx::from_int(-1), max: Fx::from_int(1) };
    assert_eq!(interval.contains(Fx::from_ratio(-1, 2)), true);
    assert_eq!(interval.contains(Fx::from_ratio(-3, 2)), false);
}

#[test]
fn test_surrounds() {
    let interval = Interval { min: Fx::from_int(-1), max: Fx::from_int(1) };
    assert_eq!(interval.surrounds(Fx::from_ratio(-1, 2)), true);
    assert_eq!(interval.surrounds(Fx::from_int(-1)), false);
}

#[test]
fn surrounds_excludes_both_ends_exactly() {
    let interval = Interval::new(Fx::from_int(2), Fx::from_int(5));
    assert!(!interval.surrounds(Fx::from_int(2)));
    assert!(!interval.surrounds(Fx::from_int(5)));
    assert!(interval.surrounds(Fx::from_int(3)));
    assert!(interval.contains(Fx::from_int(2)));
    assert!(interval.contains(Fx::from_int(5)));
}

#[test]
fn clamp_saturates_into_range() {
    let interval = Interval::new(Fx::zero(), Fx::from_ratio(999, 1000));
    assert_eq!(interval.clamp(Fx::from_int(2)), Fx::from_ratio(999, 1000));
    assert_eq!(interval.clamp(Fx::from_int(-1)), Fx::zero());
    assert_eq!(interval.clamp(Fx::from_ratio(1, 2)), Fx::from_ratio(1, 2));
}

#[test]
fn empty_contains_nothing_universe_everything() {
    let empty = Interval::empty();
    assert!(!empty.contains(Fx::zero()));
    let universe = Interval::universe();
    assert!(universe.contains(Fx::from_int(-1000000)));
    assert!(universe.contains(Fx::from_int(1000000)));
}
