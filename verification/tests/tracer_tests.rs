use raytracer::{
    Camera, Fx, HitRecord, Hittable, HittableList, Interval, Lambertian, Material, Metal, Ray,
    Rng, Sphere, Vec3,
};

fn one_sphere_world() -> HittableList {
    let mut world = HittableList::new();
    let mat = world.add_material(Material::Lambertian(Lambertian {
        albedo: Vec3 { x: Fx::from_ratio(1, 2), y: Fx::from_ratio(1, 2), z: Fx::from_ratio(1, 2) },
    }));
    world.add(Hittable::Sphere(Sphere {
        center: Vec3::from_ints(0, 0, -1),
        radius: Fx::from_ratio(1, 2),
        material: mat,
    }));
    world
}

fn sample_record(normal: Vec3) -> HitRecord {
    HitRecord {
        point: Vec3::from_ints(0, 0, -1),
        normal,
        material: 0,
        t: Fx::from_int(1),
        front_face: true,
    }
}

#[test]
fn depth_zero_is_black() {
    let world = one_sphere_world();
    let mut rng = Rng::from_seed(7);
    let ray = Ray { orig: Vec3::zero(), dir: Vec3::from_ints(0, 0, -1) };
    let color = Camera::ray_color(&ray, 0, &world, &mut rng);
    assert_eq!(color, Vec3::zero());
}

#[test]
fn lambertian_always_scatters() {
    let material = Lambertian { albedo: Vec3::from_ints(1, 1, 1) };
    let ray = Ray { orig: Vec3::zero(), dir: Vec3::from_ints(0, 0, -1) };
    let record = sample_record(Vec3::from_ints(0, 0, 1));
    let mut rng = Rng::from_seed(1);
    for _ in 0..16 {
        assert!(material.scatter(&ray, &record, &mut rng).is_some());
    }
}

#[test]
fn metal_reflects_off_the_surface() {
    let material = Metal::new(Vec3::from_ints(1, 1, 1), Fx::zero());
    let ray = Ray { orig: Vec3::zero(), dir: Vec3::from_ints(0, 0, -1) };
    let record = sample_record(Vec3::from_ints(0, 0, 1));
    let mut rng = Rng::from_seed(1);
    let (attenuation, scattered) =
        material.scatter(&ray, &record, &mut rng).expect("the reflection leaves the surface");
    assert_eq!(attenuation, Vec3::from_ints(1, 1, 1));
    assert_eq!(scattered.dir, Vec3::from_ints(0, 0, 1));
}

#[test]
fn metal_absorbs_reflections_into_the_surface() {
    // With the normal along the incoming direction the mirrored ray
    // points into the surface, so a fuzzless metal absorbs it.
    let material = Metal::new(Vec3::from_ints(1, 1, 1), Fx::zero());
    let ray = Ray { orig: Vec3::zero(), dir: Vec3::from_ints(0, 0, -1) };
    let record = sample_record(Vec3::from_ints(0, 0, -1));
    let mut rng = Rng::from_seed(1);
    assert!(material.scatter(&ray, &record, &mut rng).is_none());
}

#[test]
fn metal_fuzz_is_clamped() {
    let wild = Metal::new(Vec3::from_ints(1, 1, 1), Fx::from_int(7));
    assert_eq!(wild.fuzz, Fx::from_int(1));
    let negative = Metal::new(Vec3::from_ints(1, 1, 1), Fx::from_int(-2));
    assert_eq!(negative.fuzz, Fx::zero());
}

#[test]
fn initialize_derives_the_viewport() {
    let mut camera = Camera::new(Fx::from_ratio(16, 9), 400);
    assert_eq!(camera.samples_per_pixel, 100);
    assert_eq!(camera.max_depth, 50);
    camera.initialize();
    assert_eq!(camera.image_height, 225);
    // 1 / 100 samples.
    assert_eq!(camera.pixel_samples_scale, Fx::from_ratio(1, 100));
    assert_eq!(camera.camera_center, Vec3::zero());
}

#[test]
fn image_height_rounds_to_nearest() {
    // 200 / 3 = 66.67: the height rounds up to 67, not down to 66.
    let mut camera = Camera::new(Fx::from_int(3), 200);
    camera.initialize();
    assert_eq!(camera.image_height, 67);
}

#[test]
fn center_pixel_hits_and_edge_pixel_sees_the_sky() {
    let world = one_sphere_world();
    let mut camera = Camera::new(Fx::from_ratio(16, 9), 400);
    camera.samples_per_pixel = 1;
    camera.max_depth = 4;
    camera.initialize();

    let range = Interval::new(Fx::from_ratio(1, 1000), Fx::max_value());

    // The ray through the image center (jitter fixed to zero) meets the
    // sphere.
    let center_ray = camera.ray_through_pixel(200, 112, Vec3::zero());
    assert!(world.hit(&center_ray, &range).is_some());

    // A ray through the far left column misses everything, and its
    // color is exactly the analytic sky gradient for its direction.
    let edge_ray = camera.ray_through_pixel(0, 112, Vec3::zero());
    assert!(world.hit(&edge_ray, &range).is_none());

    let unit = edge_ray.dir.unit_vector();
    let coeff = Fx::from_ratio(1, 2) * (unit.y + Fx::from_int(1));
    let white = Vec3::from_ints(1, 1, 1);
    let blue = Vec3 { x: Fx::from_ratio(1, 2), y: Fx::from_ratio(7, 10), z: Fx::from_int(1) };
    let expected = (Fx::from_int(1) - coeff) * white + coeff * blue;

    let mut rng = Rng::from_seed(5);
    let color = Camera::ray_color(&edge_ray, 4, &world, &mut rng);
    assert_eq!(color, expected);

    // The center ray gathers scattered light instead of the gradient.
    let center_unit = center_ray.dir.unit_vector();
    let center_coeff = Fx::from_ratio(1, 2) * (center_unit.y + Fx::from_int(1));
    let center_sky = (Fx::from_int(1) - center_coeff) * white + center_coeff * blue;
    let center_color = Camera::ray_color(&center_ray, 4, &world, &mut rng);
    assert_ne!(center_color, center_sky);
}

#[test]
fn full_intensity_quantizes_to_255() {
    let rgb = Camera::color_to_rgb8(Vec3::from_ints(1, 1, 1));
    assert_eq!((rgb.r, rgb.g, rgb.b), (255, 255, 255));
}

#[test]
fn black_quantizes_to_0() {
    let rgb = Camera::color_to_rgb8(Vec3::zero());
    assert_eq!((rgb.r, rgb.g, rgb.b), (0, 0, 0));
}

#[test]
fn quarter_intensity_gamma_encodes_to_128() {
    // Gamma-2 encoding takes 0.25 to 0.5, and 256 * 0.5 = 128.
    let rgb = Camera::color_to_rgb8(Vec3 {
        x: Fx::from_ratio(1, 4),
        y: Fx::from_ratio(1, 4),
        z: Fx::from_ratio(1, 4),
    });
    assert_eq!((rgb.r, rgb.g, rgb.b), (128, 128, 128));
}

#[test]
fn linear_to_gamma_is_the_square_root() {
    assert_eq!(Camera::linear_to_gamma(Fx::from_int(4)), Fx::from_int(2));
    assert_eq!(Camera::linear_to_gamma(Fx::from_int(-3)), Fx::zero());
    assert_eq!(Camera::linear_to_gamma(Fx::zero()), Fx::zero());
}

#[test]
fn generator_is_deterministic_and_in_range() {
    let mut a = Rng::from_seed(42);
    let mut b = Rng::from_seed(42);
    for _ in 0..32 {
        let x = a.next_unit();
        assert_eq!(x, b.next_unit());
        assert!(x.ge(Fx::zero()) && x.lt(Fx::from_int(1)));
    }
    let mut c = Rng::from_seed(43);
    let mut d = Rng::from_seed(42);
    assert_ne!(c.next_unit(), d.next_unit());
}

#[test]
fn render_covers_every_pixel_and_repeats_with_the_seed() {
    let world = one_sphere_world();
    let mut camera = Camera::new(Fx::from_int(1), 4);
    camera.samples_per_pixel = 2;
    camera.max_depth = 3;
    camera.initialize();
    assert_eq!(camera.image_height, 4);

    let mut rng = Rng::from_seed(2024);
    let pixels = camera.render(&world, &mut rng);
    assert_eq!(pixels.len(), 16);

    let mut rng_again = Rng::from_seed(2024);
    let pixels_again = camera.render(&world, &mut rng_again);
    assert_eq!(pixels, pixels_again);
}
