//! Materials: how a surface scatters an incoming ray, if at all.

use crate::fixed::Fx;
use crate::geometry::HitRecord;
use crate::interval::Interval;
use crate::ray::Ray;
use crate::rng::Rng;
use crate::vec3::{
    sdot, slen, snear_zero, sreflect, srandom_unit_vector, sunit, vadd, vneg, vscale, Color, Vec3,
};
use vstd::prelude::*;

verus! {

/// A diffuse surface: scattering picks a random direction biased around
/// the normal, and the fixed albedo attenuates the light.
#[derive(Debug, Clone, Copy, PartialEq, Eq, Structural)]
pub struct Lambertian {
    pub albedo: Color,
}

/// A reflective surface: scattering mirrors the incoming ray, blurred by
/// a fuzz radius in `[0, 1]`.
#[derive(Debug, Clone, Copy, PartialEq, Eq, Structural)]
pub struct Metal {
    pub albedo: Color,
    pub fuzz: Fx,
}

/// Any material; scattering dispatches on the variant.
#[derive(Debug, Clone, Copy, PartialEq, Eq, Structural)]
pub enum Material {
    Lambertian(Lambertian),
    Metal(Metal),
}

/// Diffuse scattering: the normal plus a random unit vector, falling
/// back to the normal itself when the sum degenerates to zero.  The
/// scattered ray starts at the hit point; the attenuation is the albedo.
pub open spec fn lambertian_scatter(albedo: Color, rec: HitRecord, s: u64) -> ((Color, Ray), u64) {
    let (ruv, s2) = srandom_unit_vector(s);
    let d = vadd(rec.normal, ruv);
    let dir = if snear_zero(d) {
        rec.normal
    } else {
        d
    };
    ((albedo, Ray { orig: rec.point, dir }), s2)
}

/// The direction a metal scatters into: the incoming direction mirrored
/// about the normal, normalized, then perturbed by `fuzz` times a random
/// unit vector.  A degenerate (unrepresentably short) reflection skips
/// the normalization.
pub open spec fn metal_dir(incoming: Vec3, normal: Vec3, fuzz: int, s: u64) -> (Vec3, u64) {
    let refl = sreflect(incoming, normal);
    let base = if slen(refl) == 0 {
        refl
    } else {
        sunit(refl)
    };
    let (ruv, s2) = srandom_unit_vector(s);
    (vadd(base, vscale(ruv, fuzz)), s2)
}

/// Metal scattering: the perturbed reflection survives only if it leaves
/// the surface (positive dot product with the normal); otherwise the ray
/// is absorbed.
pub open spec fn metal_scatter(m: Metal, ray: Ray, rec: HitRecord, s: u64) -> (
    Option<(Color, Ray)>,
    u64,
) {
    let (dir, s2) = metal_dir(ray.dir, rec.normal, m.fuzz@, s);
    if sdot(dir, rec.normal) > 0 {
        (Some((m.albedo, Ray { orig: rec.point, dir })), s2)
    } else {
        (None, s2)
    }
}

/// Scattering for any material.
pub open spec fn material_scatter(m: Material, ray: Ray, rec: HitRecord, s: u64) -> (
    Option<(Color, Ray)>,
    u64,
) {
    match m {
        Material::Lambertian(l) => {
            let (out, s2) = lambertian_scatter(l.albedo, rec, s);
            (Some(out), s2)
        },
        Material::Metal(mt) => metal_scatter(mt, ray, rec, s),
    }
}

/// A diffuse surface always scatters: its result is never absorption,
/// whatever the generator state.
pub proof fn lemma_lambertian_always_scatters(m: Material, ray: Ray, rec: HitRecord, s: u64)
    requires
        m is Lambertian,
    ensures
        material_scatter(m, ray, rec, s).0 is Some,
{
}

/// A metal absorbs the ray exactly when the perturbed reflection fails
/// to leave the surface: its scatter is `None` if and only if the
/// computed direction has a non-positive dot product with the normal.
pub proof fn lemma_metal_absorbs_iff(m: Metal, ray: Ray, rec: HitRecord, s: u64)
    ensures
        (metal_scatter(m, ray, rec, s).0 is None) <==> sdot(
            metal_dir(ray.dir, rec.normal, m.fuzz@, s).0,
            rec.normal,
        ) <= 0,
{
}

impl Metal {
    /// A metal with the given albedo; the fuzz radius is clamped into
    /// `[0, 1]`.
    pub fn new(albedo: Color, fuzz: Fx) -> (r: Metal)
        ensures
            r.albedo == albedo,
            r.fuzz@ == crate::interval::sclamp(
                (Interval {
                    min: crate::fixed::fx_new(0),
                    max: crate::fixed::fx_new(crate::fixed::FX_SCALE as int),
                }),
                fuzz@,
            ),
    {
        Metal { albedo, fuzz: Interval::new(Fx::zero(), Fx::one()).clamp(fuzz) }
    }
}

impl Lambertian {
    /// Diffuse scattering always succeeds.
    pub fn scatter(&self, _ray: &Ray, record: &HitRecord, rng: &mut Rng) -> (res: Option<
        (Color, Ray),
    >)
        ensures
            res == Some(lambertian_scatter(self.albedo, *record, old(rng)@).0),
            final(rng)@ == lambertian_scatter(self.albedo, *record, old(rng)@).1,
    {
        let mut scatter_direction = record.normal + Vec3::random_unit_vector(rng);

        // Catch degenerate scatter direction
        if scatter_direction.near_zero() {
            scatter_direction = record.normal;
        }

        let scattered = Ray { orig: record.point, dir: scatter_direction };
        let attenuation = self.albedo;
        Some((attenuation, scattered))
    }
}

impl Metal {
    /// Specular scattering; the ray is absorbed when the perturbed
    /// reflection points into the surface.
    pub fn scatter(&self, ray: &Ray, record: &HitRecord, rng: &mut Rng) -> (res: Option<
        (Color, Ray),
    >)
        ensures
            res == metal_scatter(*self, *ray, *record, old(rng)@).0,
            final(rng)@ == metal_scatter(*self, *ray, *record, old(rng)@).1,
    {
        let reflected = Vec3::reflect(&ray.dir, &record.normal);
        let base = if reflected.len().raw == 0 {
            reflected
        } else {
            reflected.unit_vector()
        };
        let dir = base + self.fuzz * Vec3::random_unit_vector(rng);
        let scattered = Ray { orig: record.point, dir };
        let attenuation = self.albedo;
        if scattered.dir.dot(&record.normal).gt(Fx::zero()) {
            Some((attenuation, scattered))
        } else {
            None
        }
    }
}

impl Material {
    /// Scattering for any material: diffuse surfaces always scatter,
    /// metals may absorb.
    pub fn scatter(&self, ray: &Ray, record: &HitRecord, rng: &mut Rng) -> (res: Option<
        (Color, Ray),
    >)
        ensures
            res == material_scatter(*self, *ray, *record, old(rng)@).0,
            final(rng)@ == material_scatter(*self, *ray, *record, old(rng)@).1,
    {
        match self {
            Material::Lambertian(l) => l.scatter(ray, record, rng),
            Material::Metal(m) => m.scatter(ray, record, rng),
        }
    }
}

} // verus!
