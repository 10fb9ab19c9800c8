use raytracer::{Fx, Rng, Vec3};

#[test]
fn len_success() {
    assert_eq!(Fx::from_int(5), Vec3::from_ints(4, 3, 0).len());
}

#[test]
fn unit_success() {
    // The squared length of (6, 5, 7) is 110, whose square root is not
    // representable exactly, so the unit vector's length is one only up
    // to the verified tolerance of two hundred millionths.
    let len = Vec3::from_ints(6, 5, 7).unit_vector().len();
    assert!((len - Fx::from_int(1)).abs().le(Fx { raw: 200 }));
    assert_eq!(len.raw, 999998);
}

#[test]
fn add_success() {
    assert_eq!(
        Vec3::from_ints(3, 3, 3),
        Vec3::from_ints(2, 2, 2) + Vec3::from_ints(1, 1, 1)
    );
}

#[test]
fn add_assign_success() {
    let mut vec = Vec3::from_ints(2, 2, 2);
    vec.add_assign(Vec3::from_ints(1, 1, 1));
    assert_eq!(Vec3::from_ints(3, 3, 3), vec);
}

#[test]
fn sub_success() {
    assert_eq!(
        Vec3::from_ints(3, 3, 3),
        Vec3::from_ints(6, 5, 4) - Vec3::from_ints(3, 2, 1)
    );
}

#[test]
fn mul_success() {
    assert_eq!(
        Vec3::from_ints(18, 15, 12),
        Vec3::from_ints(6, 5, 4) * Fx::from_int(3)
    );
}

#[test]
fn mul_left_success() {
    assert_eq!(
        Vec3::from_ints(18, 15, 12),
        Fx::from_int(3) * Vec3::from_ints(6, 5, 4)
    );
}

#[test]
fn mul_assign_success() {
    let mut vec = Vec3::from_ints(1, 2, 3);
    vec.mul_assign(Fx::from_int(4));
    assert_eq!(Vec3::from_ints(4, 8, 12), vec);
}

#[test]
fn div_success() {
    assert_eq!(
        Vec3::from_ints(2, 3, 4),
        Vec3::from_ints(6, 9, 12) / Fx::from_int(3)
    );
}

#[test]
fn div_assign_success() {
    let mut vec = Vec3::from_ints(5, 10, 15);
    vec.div_assign(Fx::from_int(5));
    assert_eq!(Vec3::from_ints(1, 2, 3), vec);
}

#[test]
fn dot_success() {
    assert_eq!(
        Fx::from_int(147),
        Vec3::from_ints(7, 7, 7).dot(&Vec3::from_ints(7, 7, 7))
    );
}

#[test]
fn cross_success() {
    assert_eq!(
        Vec3::from_ints(-3, 6, -3),
        Vec3::from_ints(4, 5, 6).cross(&Vec3::from_ints(7, 8, 9))
    );
}

#[test]
fn cross_swaps_to_negation() {
    let a = Vec3::from_ints(2, -7, 11);
    let b = Vec3::from_ints(-3, 5, 13);
    assert_eq!(a.cross(&b), b.cross(&a).negate());
    assert_eq!(a.cross(&b), -b.cross(&a));
}

#[test]
fn dot_is_symmetric() {
    let a = Vec3::from_ints(2, -7, 11);
    let b = Vec3::from_ints(-3, 5, 13);
    assert_eq!(a.dot(&b), b.dot(&a));
}

#[test]
fn unit_vector_length_near_one() {
    for v in [
        Vec3::from_ints(1, 0, 0),
        Vec3::from_ints(3, 4, 0),
        Vec3::from_ints(-17, 23, 41),
        Vec3::from_ints(1000, -999, 998),
    ] {
        let len = v.unit_vector().len();
        assert!((len - Fx::from_int(1)).abs().le(Fx { raw: 200 }), "length raw was {}", len.raw);
    }
}

#[test]
fn arithmetic_saturates_at_the_extremes() {
    // Where floating point would overflow to an infinity, the scalar
    // saturates at its greatest representable magnitude, symmetrically.
    let top = Fx::max_value();
    assert_eq!(top + Fx::from_int(1), top);
    assert_eq!(top * top, top);
    assert_eq!(Fx::min_value(), -top);
    assert_eq!(Fx::min_value() - Fx::from_int(1), Fx::min_value());
}

#[test]
fn reflect_mirrors_about_normal() {
    // Reflecting (1, -1, 0) about the upward unit normal flips the
    // vertical component exactly.
    let v = Vec3::from_ints(1, -1, 0);
    let n = Vec3::from_ints(0, 1, 0);
    assert_eq!(Vec3::reflect(&v, &n), Vec3::from_ints(1, 1, 0));
}

#[test]
fn near_zero_only_for_the_zero_vector() {
    assert!(Vec3::zero().near_zero());
    assert!(!Vec3 { x: Fx { raw: 1 }, y: Fx { raw: 0 }, z: Fx { raw: 0 } }.near_zero());
}

#[test]
fn random_unit_vector_is_normalized() {
    let mut rng = Rng::from_seed(12345);
    for _ in 0..8 {
        let v = Vec3::random_unit_vector(&mut rng);
        let len = v.len();
        assert!((len - Fx::from_int(1)).abs().le(Fx { raw: 200 }));
    }
}

#[test]
fn random_on_hemisphere_faces_the_normal() {
    let n = Vec3::from_ints(0, 0, 1);
    let mut rng = Rng::from_seed(99);
    for _ in 0..8 {
        let v = Vec3::random_on_hemisphere(&n, &mut rng);
        assert!(v.dot(&n).ge(Fx::zero()));
    }
}
