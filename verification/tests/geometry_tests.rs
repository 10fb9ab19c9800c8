use raytracer::{Fx, Hittable, HittableList, Interval, Lambertian, Material, Ray, Sphere, Vec3};

fn gray() -> Material {
    Material::Lambertian(Lambertian { albedo: Vec3::from_ints(1, 1, 1) })
}

fn search_range() -> Interval {
    Interval::new(Fx::from_ratio(1, 1000), Fx::max_value())
}

#[test]
fn head_on_hit_at_distance_minus_radius() {
    // A ray from the origin aimed straight at a sphere of radius 1
    // centered two units away hits at t = 2 - 1 = 1 exactly, and the
    // normal points straight back with front_face set.
    let sphere = Sphere { center: Vec3::from_ints(0, 0, -2), radius: Fx::from_int(1), material: 0 };
    let ray = Ray { orig: Vec3::zero(), dir: Vec3::from_ints(0, 0, -1) };
    let record = sphere.hit(&ray, &search_range()).expect("the ray aims at the center");
    assert_eq!(record.t, Fx::from_int(1));
    assert!(record.front_face);
    assert_eq!(record.normal, Vec3::from_ints(0, 0, 1));
    assert_eq!(record.point, Vec3::from_ints(0, 0, -1));
}

#[test]
fn half_radius_head_on_hit() {
    // Radius 0.5 at distance 1: the hit lies at t = 0.5.
    let sphere = Sphere {
        center: Vec3::from_ints(0, 0, -1),
        radius: Fx::from_ratio(1, 2),
        material: 0,
    };
    let ray = Ray { orig: Vec3::zero(), dir: Vec3::from_ints(0, 0, -1) };
    let record = sphere.hit(&ray, &search_range()).expect("the ray aims at the center");
    assert_eq!(record.t, Fx::from_ratio(1, 2));
    assert!(record.front_face);
    assert_eq!(record.normal, Vec3::from_ints(0, 0, 1));
}

#[test]
fn miss_returns_no_hit() {
    // The sphere sits far off the ray's line: the discriminant is
    // negative and no hit is reported.
    let sphere = Sphere { center: Vec3::from_ints(10, 0, 0), radius: Fx::from_int(1), material: 0 };
    let ray = Ray { orig: Vec3::zero(), dir: Vec3::from_ints(0, 0, -1) };
    assert!(sphere.hit(&ray, &search_range()).is_none());
}

#[test]
fn root_on_boundary_is_rejected() {
    // Searching over (0.001, 1) rejects a hit at exactly t = 1.
    let sphere = Sphere { center: Vec3::from_ints(0, 0, -2), radius: Fx::from_int(1), material: 0 };
    let ray = Ray { orig: Vec3::zero(), dir: Vec3::from_ints(0, 0, -1) };
    let tight = Interval::new(Fx::from_ratio(1, 1000), Fx::from_int(1));
    // The farther root t = 3 is also outside the range, so nothing is hit.
    assert!(sphere.hit(&ray, &tight).is_none());
}

#[test]
fn nearest_of_two_overlapping_spheres_wins() {
    // Two overlapping spheres on the same axis: the search must report
    // the strictly smaller t (here 1, not 2), in either insertion order.
    let near = Sphere { center: Vec3::from_ints(0, 0, -2), radius: Fx::from_int(1), material: 0 };
    let far = Sphere { center: Vec3::from_ints(0, 0, -3), radius: Fx::from_int(1), material: 0 };
    let ray = Ray { orig: Vec3::zero(), dir: Vec3::from_ints(0, 0, -1) };

    let mut world = HittableList::new();
    world.add_material(gray());
    world.add(Hittable::Sphere(near));
    world.add(Hittable::Sphere(far));
    let record = world.hit(&ray, &search_range()).expect("both spheres lie ahead");
    assert_eq!(record.t, Fx::from_int(1));

    let mut reversed = HittableList::new();
    reversed.add_material(gray());
    reversed.add(Hittable::Sphere(far));
    reversed.add(Hittable::Sphere(near));
    let record = reversed.hit(&ray, &search_range()).expect("both spheres lie ahead");
    assert_eq!(record.t, Fx::from_int(1));
}

#[test]
fn small_sphere_occludes_the_ground() {
    // A small sphere in front of a large ground sphere: along a ray
    // that meets both, the small sphere's t is strictly smaller and the
    // scene reports it, never the ground's.
    let small = Sphere {
        center: Vec3::from_ints(0, 0, -1),
        radius: Fx::from_ratio(1, 2),
        material: 0,
    };
    let ground = Sphere {
        center: Vec3 { x: Fx::zero(), y: Fx::from_ratio(-201, 2), z: Fx::from_int(-1) },
        radius: Fx::from_int(100),
        material: 0,
    };
    let ray = Ray {
        orig: Vec3::zero(),
        dir: Vec3 { x: Fx::zero(), y: Fx::from_ratio(-3, 10), z: Fx::from_int(-1) },
    };

    let t_small = small.hit(&ray, &search_range()).expect("the small sphere lies ahead").t;
    let t_ground = ground.hit(&ray, &search_range()).expect("the ground lies ahead").t;
    assert!(t_small.raw < t_ground.raw);
    assert_eq!(t_small.raw, 525504);
    assert_eq!(t_ground.raw, 1674244);

    let mut world = HittableList::new();
    world.add_material(gray());
    world.add(Hittable::Sphere(ground));
    world.add(Hittable::Sphere(small));
    let record = world.hit(&ray, &search_range()).expect("both surfaces lie ahead");
    assert_eq!(record.t, t_small);
}

#[test]
fn degenerate_direction_hits_nothing() {
    // A direction too short to be representable carries no line to
    // intersect: the sphere reports a miss rather than dividing by a
    // zero quadratic coefficient.
    let sphere = Sphere { center: Vec3::from_ints(0, 0, -2), radius: Fx::from_int(1), material: 0 };
    let ray = Ray { orig: Vec3::zero(), dir: Vec3::zero() };
    assert!(sphere.hit(&ray, &search_range()).is_none());
}

#[test]
fn clear_empties_the_scene() {
    let mut world = HittableList::new();
    world.add_material(gray());
    world.add(Hittable::Sphere(Sphere {
        center: Vec3::from_ints(0, 0, -2),
        radius: Fx::from_int(1),
        material: 0,
    }));
    let ray = Ray { orig: Vec3::zero(), dir: Vec3::from_ints(0, 0, -1) };
    assert!(world.hit(&ray, &search_range()).is_some());
    world.clear();
    assert!(world.hit(&ray, &search_range()).is_none());
}
