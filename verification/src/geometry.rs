//! Surfaces, intersection records, and the scene's nearest-hit search.

use crate::fixed::{fadd, fdiv, fmul, fneg, fsqrt, fsub, fx_new, Fx, FX_SCALE};
use crate::interval::{ssurrounds, Interval};
use crate::material::Material;
use crate::ray::{ray_at, Ray};
use crate::vec3::{sdot, slen_sq, vdiv, vneg, vsub, Point3, Vec3};
use vstd::prelude::*;

verus! {

/// What a successful intersection test reports: the hit point, the unit
/// normal oriented against the incoming ray, the parameter `t`, which
/// side of the surface the ray arrived from, and the index of the hit
/// surface's material in the scene's material arena.
#[derive(Debug, Clone, Copy, PartialEq, Eq, Structural)]
pub struct HitRecord {
    pub point: Point3,
    pub normal: Vec3,
    pub material: usize,
    pub t: Fx,
    pub front_face: bool,
}

impl HitRecord {
    /// Store the outward normal flipped to oppose the incoming ray, and
    /// remember which side the ray arrived from.  `outward_normal` is
    /// expected to have unit length.
    pub fn set_face_normal(&mut self, ray: &Ray, outward_normal: &Vec3)
        ensures
            final(self).front_face == (sdot(ray.dir, *outward_normal) < 0),
            final(self).normal == if sdot(ray.dir, *outward_normal) < 0 {
                *outward_normal
            } else {
                vneg(*outward_normal)
            },
            final(self).point == old(self).point,
            final(self).material == old(self).material,
            final(self).t == old(self).t,
    {
        self.front_face = ray.dir.dot(outward_normal).lt(Fx::zero());
        self.normal = if self.front_face {
            *outward_normal
        } else {
            outward_normal.negate()
        };
    }
}

/// A sphere, with its material named by index into the scene's arena.
#[derive(Debug, Clone, Copy, PartialEq, Eq, Structural)]
pub struct Sphere {
    pub center: Point3,
    pub radius: Fx,
    pub material: usize,
}

/// Quadratic coefficient `a = dir . dir` of the sphere equation.
pub open spec fn sphere_a(r: Ray) -> int {
    slen_sq(r.dir)
}

/// Half the linear coefficient, `(orig - center) . dir`.
pub open spec fn sphere_half_b(s: Sphere, r: Ray) -> int {
    sdot(vsub(r.orig, s.center), r.dir)
}

/// Constant coefficient `|orig - center|^2 - radius^2`.
pub open spec fn sphere_c(s: Sphere, r: Ray) -> int {
    fsub(slen_sq(vsub(r.orig, s.center)), fmul(s.radius@, s.radius@))
}

/// Discriminant of the quadratic, `half_b^2 - a * c`.
pub open spec fn sphere_disc(s: Sphere, r: Ray) -> int {
    fsub(fmul(sphere_half_b(s, r), sphere_half_b(s, r)), fmul(sphere_a(r), sphere_c(s, r)))
}

/// The nearer root `(-half_b - sqrt(disc)) / a`.
pub open spec fn sphere_root0(s: Sphere, r: Ray) -> int {
    fdiv(fsub(fneg(sphere_half_b(s, r)), fsqrt(sphere_disc(s, r))), sphere_a(r))
}

/// The farther root `(-half_b + sqrt(disc)) / a`.
pub open spec fn sphere_root1(s: Sphere, r: Ray) -> int {
    fdiv(fadd(fneg(sphere_half_b(s, r)), fsqrt(sphere_disc(s, r))), sphere_a(r))
}

/// The parameter at which a ray first meets a sphere strictly inside the
/// search range: the nearer root is tried first, then the farther one.
/// A negative discriminant means a miss; a direction or radius too short
/// to be representable is degenerate and is treated as a miss.
pub open spec fn sphere_hit_t(s: Sphere, r: Ray, i: Interval) -> Option<int> {
    if sphere_disc(s, r) < 0 {
        None
    } else if sphere_a(r) == 0 || s.radius@ == 0 {
        None
    } else if ssurrounds(i, sphere_root0(s, r)) {
        Some(sphere_root0(s, r))
    } else if ssurrounds(i, sphere_root1(s, r)) {
        Some(sphere_root1(s, r))
    } else {
        None
    }
}

/// The outward unit normal at the point the ray reaches at `t`.
pub open spec fn sphere_outward_normal(s: Sphere, r: Ray, t: int) -> Vec3 {
    vdiv(vsub(ray_at(r, t), s.center), s.radius@)
}

/// The record reported for a hit at parameter `t`.
pub open spec fn sphere_record(s: Sphere, r: Ray, t: int) -> HitRecord {
    let p = ray_at(r, t);
    let outward = sphere_outward_normal(s, r, t);
    let ff = sdot(r.dir, outward) < 0;
    HitRecord {
        point: p,
        normal: if ff {
            outward
        } else {
            vneg(outward)
        },
        material: s.material,
        t: fx_new(t),
        front_face: ff,
    }
}

/// The full result of testing a ray against a sphere.
pub open spec fn sphere_hit(s: Sphere, r: Ray, i: Interval) -> Option<HitRecord> {
    match sphere_hit_t(s, r, i) {
        Some(t) => Some(sphere_record(s, r, t)),
        None => None,
    }
}

impl Sphere {
    /// Test a ray against this sphere over the given parameter range.
    pub fn hit(&self, ray: &Ray, ray_t: &Interval) -> (res: Option<HitRecord>)
        ensures
            res == sphere_hit(*self, *ray, *ray_t),
    {
        let oc = ray.orig - self.center;
        let a = ray.dir.len_squared();
        let half_b = oc.dot(&ray.dir);
        let c = oc.len_squared() - self.radius * self.radius;

        let discriminant = half_b * half_b - a * c;
        if discriminant.raw < 0 {
            return None;
        }
        if a.raw == 0 || self.radius.raw == 0 {
            return None;
        }
        let sqrtd = discriminant.sqrt();

        let mut root = (half_b.negate() - sqrtd) / a;
        if !ray_t.surrounds(root) {
            root = (half_b.negate() + sqrtd) / a;
            if !ray_t.surrounds(root) {
                return None;
            }
        }

        let point = ray.at(root);
        let outward_normal = (point - self.center) / self.radius;
        let mut record = HitRecord {
            point,
            normal: outward_normal,
            material: self.material,
            t: root,
            front_face: false,
        };
        record.set_face_normal(ray, &outward_normal);

        Some(record)
    }
}

/// Any surface a ray can meet; the one variant so far is the sphere.
#[derive(Debug, Clone, Copy, PartialEq, Eq, Structural)]
pub enum Hittable {
    Sphere(Sphere),
}

/// The result of testing a ray against any surface.
pub open spec fn hittable_hit(h: Hittable, r: Ray, i: Interval) -> Option<HitRecord> {
    match h {
        Hittable::Sphere(s) => sphere_hit(s, r, i),
    }
}

/// The material index a surface refers to.
pub open spec fn hittable_material(h: Hittable) -> int {
    match h {
        Hittable::Sphere(s) => s.material as int,
    }
}

impl Hittable {
    /// Test a ray against this surface over the given parameter range.
    pub fn hit(&self, ray: &Ray, ray_t: &Interval) -> (res: Option<HitRecord>)
        ensures
            res == hittable_hit(*self, *ray, *ray_t),
    {
        match self {
            Hittable::Sphere(s) => s.hit(ray, ray_t),
        }
    }
}

/// An ordered collection of surfaces together with the arena of the
/// materials they refer to by index.
pub struct HittableList {
    pub objects: Vec<Hittable>,
    pub materials: Vec<Material>,
}

/// Every surface's material index points into the arena.
pub open spec fn scene_wf(w: HittableList) -> bool {
    forall|k: int|
        0 <= k < w.objects@.len() ==> #[trigger] hittable_material(w.objects@[k]) < w.materials@.len()
}

/// The nearest hit among the first `n` surfaces: each surface is tested
/// against the range shrunk to the closest hit found so far, so a later
/// hit survives only by lying strictly nearer.
pub open spec fn scene_hit_upto(objs: Seq<Hittable>, r: Ray, i: Interval, n: int) -> Option<
    HitRecord,
>
    decreases n,
{
    if n <= 0 {
        None
    } else {
        let prev = scene_hit_upto(objs, r, i, n - 1);
        let bound = match prev {
            Some(rec) => rec.t@,
            None => i.max@,
        };
        match hittable_hit(objs[n - 1], r, Interval { min: i.min, max: fx_new(bound) }) {
            Some(rec) => Some(rec),
            None => prev,
        }
    }
}

/// The nearest hit in the whole scene.
pub open spec fn scene_hit(w: HittableList, r: Ray, i: Interval) -> Option<HitRecord> {
    scene_hit_upto(w.objects@, r, i, w.objects@.len() as int)
}

impl HittableList {
    /// An empty scene.
    pub fn new() -> (r: HittableList)
        ensures
            r.objects@.len() == 0,
            r.materials@.len() == 0,
    {
        HittableList { objects: Vec::new(), materials: Vec::new() }
    }

    /// Remove every surface (the material arena is kept, as surfaces
    /// added later may refer to it).
    pub fn clear(&mut self)
        ensures
            final(self).objects@.len() == 0,
            final(self).materials == old(self).materials,
    {
        self.objects.clear();
    }

    /// Append a surface.
    pub fn add(&mut self, object: Hittable)
        ensures
            final(self).objects@ == old(self).objects@.push(object),
            final(self).materials == old(self).materials,
    {
        self.objects.push(object);
    }

    /// Place a material in the arena and return its index.
    pub fn add_material(&mut self, material: Material) -> (idx: usize)
        ensures
            final(self).materials@ == old(self).materials@.push(material),
            final(self).objects == old(self).objects,
            idx as int == old(self).materials@.len(),
    {
        let idx = self.materials.len();
        self.materials.push(material);
        idx
    }

    /// The nearest hit of a ray in the scene, searched over the given
    /// parameter range.
    pub fn hit(&self, ray: &Ray, ray_t: &Interval) -> (res: Option<HitRecord>)
        ensures
            res == scene_hit(*self, *ray, *ray_t),
    {
        let mut closest_so_far = ray_t.max;
        let mut result: Option<HitRecord> = None;

        let n = self.objects.len();
        let mut idx: usize = 0;
        while idx < n
            invariant
                n == self.objects@.len(),
                idx <= n,
                result == scene_hit_upto(self.objects@, *ray, *ray_t, idx as int),
                closest_so_far@ == match result {
                    Some(rec) => rec.t@,
                    None => ray_t.max@,
                },
            decreases n - idx,
        {
            let object = &self.objects[idx];
            if let Some(record) = object.hit(
                ray,
                &Interval { min: ray_t.min, max: closest_so_far },
            ) {
                closest_so_far = record.t;
                result = Some(record);
            }
            idx += 1;
        }

        result
    }
}

/// A ray with a negative discriminant against a sphere misses it, over
/// every search range.
pub proof fn lemma_sphere_miss(s: Sphere, r: Ray, i: Interval)
    requires
        sphere_disc(s, r) < 0,
    ensures
        sphere_hit(s, r, i) is None,
{
}

/// The nearer root never exceeds the farther one.
pub proof fn lemma_sphere_roots_ordered(s: Sphere, r: Ray)
    requires
        sphere_disc(s, r) >= 0,
        sphere_a(r) > 0,
    ensures
        sphere_root0(s, r) <= sphere_root1(s, r),
{
    let hb = sphere_half_b(s, r);
    let disc = sphere_disc(s, r);
    crate::fixed::lemma_sqrt_floor(disc * (crate::fixed::FX_SCALE as int));
    crate::fixed::lemma_fdiv_monotonic(
        crate::fixed::fsub(fneg(hb), fsqrt(disc)),
        fadd(fneg(hb), fsqrt(disc)),
        sphere_a(r),
    );
}

/// Over a scene of two spheres that a ray would each hit inside the
/// search range at distinct parameters, the nearest-hit search reports
/// the hit with the strictly smaller parameter, never the farther one.
pub proof fn lemma_scene_hit_two_spheres(
    w: HittableList,
    r: Ray,
    i: Interval,
    s1: Sphere,
    s2: Sphere,
    t1: int,
    t2: int,
)
    requires
        w.objects@ == seq![Hittable::Sphere(s1), Hittable::Sphere(s2)],
        sphere_hit_t(s1, r, i) == Some(t1),
        sphere_hit_t(s2, r, i) == Some(t2),
        t1 != t2,
    ensures
        scene_hit(w, r, i) is Some,
        (scene_hit(w, r, i)->0).t@ == if t1 < t2 {
            t1
        } else {
            t2
        },
{
    crate::vec3::lemma_len_sq_nonneg(r.dir);
    lemma_sphere_roots_ordered(s2, r);
    assert(w.objects@.len() == 2);
    assert(w.objects@[0] == Hittable::Sphere(s1));
    assert(w.objects@[1] == Hittable::Sphere(s2));

    let i1 = Interval { min: i.min, max: fx_new(i.max@) };
    assert(i1 == i);
    assert(scene_hit_upto(w.objects@, r, i, 0) is None);
    let first = scene_hit_upto(w.objects@, r, i, 1);
    assert(first == hittable_hit(w.objects@[0], r, i1));
    assert(first == sphere_hit(s1, r, i));
    let rec1 = sphere_record(s1, r, t1);
    assert(first == Some(rec1));
    assert(rec1.t@ == t1);

    let shrunk = Interval { min: i.min, max: fx_new(t1) };
    assert(ssurrounds(i, t1));
    assert(ssurrounds(i, t2));
    let r0 = sphere_root0(s2, r);
    let r1 = sphere_root1(s2, r);
    if t1 < t2 {
        // The second sphere's candidates all sit at or beyond its
        // selected parameter, which is farther than the first hit, so
        // the shrunk range rejects them.
        if ssurrounds(i, r0) {
            assert(t2 == r0);
            assert(!ssurrounds(shrunk, r0));
            assert(!ssurrounds(shrunk, r1));
        } else {
            assert(t2 == r1);
            assert(!ssurrounds(shrunk, r0));
            assert(!ssurrounds(shrunk, r1));
        }
        assert(sphere_hit_t(s2, r, shrunk) is None);
        assert(scene_hit(w, r, i) == Some(rec1));
    } else {
        // The second sphere's hit is strictly nearer, so it survives
        // the shrunk range and replaces the first.
        if ssurrounds(i, r0) {
            assert(t2 == r0);
            assert(ssurrounds(shrunk, r0));
            assert(sphere_hit_t(s2, r, shrunk) == Some(t2));
        } else {
            assert(t2 == r1);
            assert(r0 <= i.min@ || r0 >= i.max@);
            if r0 >= i.max@ {
                assert(r1 >= r0 >= i.max@);
                assert(!ssurrounds(i, r1));
                assert(false);
            }
            assert(!ssurrounds(shrunk, r0));
            assert(ssurrounds(shrunk, r1));
            assert(sphere_hit_t(s2, r, shrunk) == Some(t2));
        }
        let rec2 = sphere_record(s2, r, t2);
        assert(scene_hit(w, r, i) == Some(rec2));
        assert(rec2.t@ == t2);
    }
}

/// A ray aimed straight at a sphere's center from outside hits it at
/// parameter `d - r`, the distance to the center less the radius, with
/// the returned normal pointing straight back at the ray and
/// `front_face` set.  Stated along an axis, for distances and radii
/// whose squares are representable exactly, where no truncation occurs.
pub proof fn lemma_sphere_head_on_hit(s: Sphere, ry: Ray, i: Interval, d: int, radius: int)
    requires
        ry.orig == (Vec3 { x: fx_new(0), y: fx_new(0), z: fx_new(0) }),
        ry.dir == (Vec3 { x: fx_new(0), y: fx_new(0), z: fx_new(-(FX_SCALE as int)) }),
        s.center == (Vec3 { x: fx_new(0), y: fx_new(0), z: fx_new(-d) }),
        s.radius@ == radius,
        0 < radius < d <= 1000000000000,
        (d * d) % (FX_SCALE as int) == 0,
        (radius * radius) % (FX_SCALE as int) == 0,
        ssurrounds(i, d - radius),
    ensures
        sphere_hit_t(s, ry, i) == Some(d - radius),
        sphere_hit(s, ry, i) is Some,
        (sphere_hit(s, ry, i)->0).t@ == d - radius,
        (sphere_hit(s, ry, i)->0).front_face,
        (sphere_hit(s, ry, i)->0).normal == (Vec3 {
            x: fx_new(0),
            y: fx_new(0),
            z: fx_new(FX_SCALE as int),
        }),
{
    let sc = FX_SCALE as int;
    let kd = (d * d) / sc;
    let kr = (radius * radius) / sc;
    vstd::arithmetic::div_mod::lemma_fundamental_div_mod(d * d, sc);
    vstd::arithmetic::div_mod::lemma_fundamental_div_mod(radius * radius, sc);
    assert(d * d == sc * kd);
    assert(radius * radius == sc * kr);
    assert(0 <= d * d <= 1000000000000000000000000int) by (nonlinear_arith)
        requires
            0 < d <= 1000000000000,
    ;
    assert(0 <= radius * radius <= 1000000000000000000000000int) by (nonlinear_arith)
        requires
            0 < radius <= 1000000000000,
    ;
    assert(0 <= kd <= 1000000000000000000int) by (nonlinear_arith)
        requires
            d * d == sc * kd,
            0 <= d * d <= 1000000000000000000000000int,
            sc == 1000000,
    ;
    assert(0 <= kr <= 1000000000000000000int) by (nonlinear_arith)
        requires
            radius * radius == sc * kr,
            0 <= radius * radius <= 1000000000000000000000000int,
            sc == 1000000,
    ;

    // The quadratic's coefficients, computed without truncation.
    let oc = vsub(ry.orig, s.center);
    assert(oc.z@ == fsub(0, fneg(d) as int));
    assert(oc == (Vec3 { x: fx_new(0), y: fx_new(0), z: fx_new(d) }));
    crate::fixed::lemma_tdiv_exact(-(sc), sc);
    assert(fmul(-(sc), -(sc)) == sc) by {
        assert((-(sc)) * (-(sc)) == sc * sc) by (nonlinear_arith);
        crate::fixed::lemma_tdiv_exact(sc, sc);
    }
    assert(fmul(0, 0) == 0) by {
        crate::fixed::lemma_tdiv_exact(0, sc);
    }
    assert(sphere_a(ry) == sc);
    assert(fmul(d, -(sc)) == -d) by {
        assert(d * (-(sc)) == (-d) * sc) by (nonlinear_arith);
        crate::fixed::lemma_tdiv_exact(-d, sc);
    }
    assert(sphere_half_b(s, ry) == -d);
    assert(fmul(d, d) == kd) by {
        crate::fixed::lemma_tdiv_exact(kd, sc);
        assert(d * d == kd * sc) by (nonlinear_arith)
            requires
                d * d == sc * kd,
        ;
    }
    assert(fmul(radius, radius) == kr) by {
        crate::fixed::lemma_tdiv_exact(kr, sc);
        assert(radius * radius == kr * sc) by (nonlinear_arith)
            requires
                radius * radius == sc * kr,
        ;
    }
    assert(slen_sq(oc) == kd);
    assert(sphere_c(s, ry) == kd - kr);
    assert(fmul(-d, -d) == kd) by {
        assert((-d) * (-d) == d * d) by (nonlinear_arith);
        crate::fixed::lemma_tdiv_exact(kd, sc);
        assert(d * d == kd * sc) by (nonlinear_arith)
            requires
                d * d == sc * kd,
        ;
    }
    assert(fmul(sc, kd - kr) == kd - kr) by {
        assert(sc * (kd - kr) == (kd - kr) * sc) by (nonlinear_arith);
        crate::fixed::lemma_tdiv_exact(kd - kr, sc);
    }
    assert(sphere_disc(s, ry) == kr);

    // The discriminant's square root is exactly the radius.
    assert(fsqrt(kr) == radius) by {
        assert(kr * sc == radius * radius) by (nonlinear_arith)
            requires
                radius * radius == sc * kr,
        ;
        assert(radius * radius < (radius + 1) * (radius + 1)) by (nonlinear_arith)
            requires
                radius > 0,
        ;
        crate::fixed::lemma_sqrt_floor_unique(radius * radius, radius);
    }

    // The nearer root is exactly d - radius.
    assert(sphere_root0(s, ry) == d - radius) by {
        assert(fneg(-d) == d);
        assert(fsub(d, radius) == d - radius);
        assert((d - radius) * sc == (d - radius) * sc);
        crate::fixed::lemma_tdiv_exact(d - radius, sc);
        assert(fdiv(d - radius, sc) == d - radius);
    }
    assert(sphere_hit_t(s, ry, i) == Some(d - radius));

    // The reported point, outward normal and orientation.
    let t = d - radius;
    let p = ray_at(ry, t);
    assert(fmul(-(sc), t) == -t) by {
        assert((-(sc)) * t == (-t) * sc) by (nonlinear_arith);
        crate::fixed::lemma_tdiv_exact(-t, sc);
    }
    assert(fmul(0, t) == 0) by {
        assert(0 * t == 0 * sc) by (nonlinear_arith);
        crate::fixed::lemma_tdiv_exact(0, sc);
    }
    assert(p == (Vec3 { x: fx_new(0), y: fx_new(0), z: fx_new(-t) }));
    let outward = sphere_outward_normal(s, ry, t);
    assert(fsub(-t as int, fneg(d) as int) == radius);
    assert(fdiv(radius, radius) == sc) by {
        assert(radius * sc == sc * radius) by (nonlinear_arith);
        crate::fixed::lemma_tdiv_exact(sc, radius);
        assert(sc * radius == sc * radius);
    }
    assert(fdiv(0, radius) == 0) by {
        crate::fixed::lemma_tdiv_exact(0, radius);
        assert(0 * radius == 0) by (nonlinear_arith);
    }
    assert(outward == (Vec3 { x: fx_new(0), y: fx_new(0), z: fx_new(sc) }));
    assert(fmul(-(sc), sc) == -(sc)) by {
        assert((-(sc)) * sc == (-(sc)) * sc);
        crate::fixed::lemma_tdiv_exact(-(sc), sc);
    }
    assert(sdot(ry.dir, outward) == -(sc));
    assert(sdot(ry.dir, outward) < 0);
}

/// A hit reported by a well-formed scene carries a material index that
/// points into the arena.
pub proof fn lemma_scene_hit_material_in_range(w: HittableList, r: Ray, i: Interval)
    requires
        scene_wf(w),
        scene_hit(w, r, i) is Some,
    ensures
        (scene_hit(w, r, i)->0).material < w.materials@.len(),
{
    lemma_scene_hit_upto_material_in_range(w, r, i, w.objects@.len() as int);
}

/// Induction behind `lemma_scene_hit_material_in_range`.
proof fn lemma_scene_hit_upto_material_in_range(w: HittableList, r: Ray, i: Interval, n: int)
    requires
        scene_wf(w),
        n <= w.objects@.len(),
        scene_hit_upto(w.objects@, r, i, n) is Some,
    ensures
        (scene_hit_upto(w.objects@, r, i, n)->0).material < w.materials@.len(),
    decreases n,
{
    if n > 0 {
        let prev = scene_hit_upto(w.objects@, r, i, n - 1);
        if prev is Some {
            lemma_scene_hit_upto_material_in_range(w, r, i, n - 1);
        }
        let h = w.objects@[n - 1];
        assert(hittable_material(h) < w.materials@.len());
        match h {
            Hittable::Sphere(s) => {
                assert(hittable_material(h) == s.material as int);
            },
        }
    }
}

} // verus!
