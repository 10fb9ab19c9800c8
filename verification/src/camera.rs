//! The camera: viewport derivation, per-pixel ray generation, the
//! recursive shader, and gamma-corrected 8-bit output.

use crate::fixed::{fadd, fdiv, fmul, fneg, fsub, fsqrt, fx_max, fx_new, sat, tdiv, Fx, FX_SCALE};
use crate::geometry::{scene_hit, scene_wf, HittableList};
use crate::interval::{sclamp, Interval};
use crate::material::material_scatter;
use crate::ray::Ray;
use crate::rng::{rng_next, unit_from, Rng};
use crate::vec3::{vadd, vmul, vscale, vsub, Color, Point3, Vec3};
use vstd::arithmetic::div_mod::{
    lemma_div_is_ordered, lemma_div_pos_is_pos, lemma_fundamental_div_mod_converse,
};
use vstd::arithmetic::mul::{lemma_mul_inequality, lemma_mul_nonnegative};
use vstd::prelude::*;

verus! {

/// One output pixel: three 8-bit channels.
#[derive(Debug, Clone, Copy, PartialEq, Eq, Structural)]
pub struct Rgb {
    pub r: u8,
    pub g: u8,
    pub b: u8,
}

/// The camera configuration and its derived viewport state.  The derived
/// fields are computed once by `initialize` and must not change during a
/// render.
#[derive(Debug, Clone, Copy, PartialEq, Eq, Structural)]
pub struct Camera {
    pub aspect_ratio: Fx,
    pub image_width: u32,
    pub image_height: u32,
    pub camera_center: Point3,
    pub pixel00_loc: Point3,
    pub pixel_delta_u: Vec3,
    pub pixel_delta_v: Vec3,
    pub samples_per_pixel: u32,
    pub pixel_samples_scale: Fx,
    pub max_depth: u32,
}

/// The color black.
pub open spec fn vblack() -> Vec3 {
    Vec3 { x: fx_new(0), y: fx_new(0), z: fx_new(0) }
}

/// Gamma-2 encoding of one linear channel: its square root, with
/// non-positive values mapped to zero.
pub open spec fn sgamma(c: int) -> int {
    if c > 0 {
        fsqrt(c)
    } else {
        0
    }
}

/// The clamp range applied before quantization; its upper end 0.999
/// keeps channel 256 from ever being produced.
pub open spec fn sintensity() -> Interval {
    Interval { min: fx_new(0), max: fx_new(999000) }
}

/// One linear channel quantized to `0..=255`: gamma-encode, clamp into
/// `[0, 0.999]`, scale by 256 and truncate.
pub open spec fn schannel(c: int) -> int {
    tdiv(fmul(sat(256 * (FX_SCALE as int)), sclamp(sintensity(), sgamma(c))), FX_SCALE as int)
}

/// A linear color quantized to three 8-bit channels.
pub open spec fn scolor_rgb8(c: Color) -> Rgb {
    Rgb { r: schannel(c.x@) as u8, g: schannel(c.y@) as u8, b: schannel(c.z@) as u8 }
}

/// The derived image height: the width divided by the aspect ratio,
/// rounded to the nearest integer (half a unit is added before the
/// truncating division), saturated into `1..=u32::MAX`.
pub open spec fn sheight(width: u32, aspect_ratio: int) -> int {
    let q = tdiv(
        fadd(fdiv(sat((width as int) * (FX_SCALE as int)), aspect_ratio), 500000),
        FX_SCALE as int,
    );
    if q < 1 {
        1
    } else if q > (u32::MAX as int) {
        u32::MAX as int
    } else {
        q
    }
}

/// Everything `initialize` derives from the configuration: the image
/// height, the averaging scale, and the viewport's pixel grid.
pub open spec fn scamera_init(c: Camera) -> Camera {
    let h = sheight(c.image_width, c.aspect_ratio@);
    let scale = fdiv(FX_SCALE as int, sat((c.samples_per_pixel as int) * (FX_SCALE as int)));
    let center = vblack();
    let focal = fx_new(FX_SCALE as int);
    let vh = fx_new(sat(2 * (FX_SCALE as int)));
    let wfx = fx_new(sat((c.image_width as int) * (FX_SCALE as int)));
    let hfx = fx_new(sat(h * (FX_SCALE as int)));
    let vw = fx_new(fmul(vh@, fdiv(wfx@, hfx@)));
    let viewport_u = Vec3 { x: vw, y: fx_new(0), z: fx_new(0) };
    let viewport_v = Vec3 { x: fx_new(0), y: fx_new(fneg(vh@)), z: fx_new(0) };
    let pdu = crate::vec3::vdiv(viewport_u, wfx@);
    let pdv = crate::vec3::vdiv(viewport_v, hfx@);
    let two = fx_new(sat(2 * (FX_SCALE as int)));
    let upper_left = vsub(
        vsub(vsub(center, Vec3 { x: fx_new(0), y: fx_new(0), z: focal }), crate::vec3::vdiv(viewport_u, two@)),
        crate::vec3::vdiv(viewport_v, two@),
    );
    let p00 = vadd(upper_left, vscale(vadd(pdu, pdv), 500000));
    Camera {
        image_height: h as u32,
        camera_center: center,
        pixel00_loc: p00,
        pixel_delta_u: pdu,
        pixel_delta_v: pdv,
        pixel_samples_scale: fx_new(scale),
        ..c
    }
}

/// A jitter offset drawn for one sample: uniform in `[-0.5, 0.5)^2`,
/// with the generator state that follows it.
pub open spec fn ssample_square(s: u64) -> (Vec3, u64) {
    let s1 = rng_next(s);
    let s2 = rng_next(s1);
    (
        Vec3 {
            x: fx_new(fsub(unit_from(s1), 500000)),
            y: fx_new(fsub(unit_from(s2), 500000)),
            z: fx_new(0),
        },
        s2,
    )
}

/// The ray from the camera center through the pixel `(x, y)` displaced
/// by `offset` within the pixel footprint.
pub open spec fn sray_through(c: Camera, x: u32, y: u32, offset: Vec3) -> Ray {
    let px = vadd(
        vadd(
            c.pixel00_loc,
            vscale(c.pixel_delta_u, fadd(sat((x as int) * (FX_SCALE as int)), offset.x@)),
        ),
        vscale(c.pixel_delta_v, fadd(sat((y as int) * (FX_SCALE as int)), offset.y@)),
    );
    Ray { orig: c.camera_center, dir: vsub(px, c.camera_center) }
}

/// A jittered ray through pixel `(x, y)`, with the generator state that
/// follows the draw.
pub open spec fn sget_ray(c: Camera, x: u32, y: u32, s: u64) -> (Ray, u64) {
    let (off, s2) = ssample_square(s);
    (sray_through(c, x, y, off), s2)
}

/// The sky gradient seen by a ray that hits nothing: white at the
/// horizon blending to sky blue at the zenith.  A degenerate direction
/// carries no color and yields black.
pub open spec fn ssky(r: Ray) -> Color {
    if crate::vec3::slen(r.dir) == 0 {
        vblack()
    } else {
        let u = crate::vec3::sunit(r.dir);
        let coeff = fmul(500000, fadd(u.y@, FX_SCALE as int));
        vadd(
            vscale(
                Vec3 {
                    x: fx_new(FX_SCALE as int),
                    y: fx_new(FX_SCALE as int),
                    z: fx_new(FX_SCALE as int),
                },
                fsub(FX_SCALE as int, coeff),
            ),
            vscale(Vec3 { x: fx_new(500000), y: fx_new(700000), z: fx_new(FX_SCALE as int) }, coeff),
        )
    }
}

/// The search range for shading: the floor 0.001 is the shadow-acne
/// epsilon, the ceiling is unbounded.
pub open spec fn sshade_interval() -> Interval {
    Interval { min: fx_new(1000), max: fx_new(fx_max()) }
}

/// The color a ray gathers: black once the bounce budget is spent; on a
/// hit, the scattered ray's color tinted by the attenuation (or black if
/// absorbed); on a miss, the sky gradient.
pub open spec fn sray_color(w: HittableList, r: Ray, depth: u32, s: u64) -> (Color, u64)
    decreases depth,
{
    if depth == 0 {
        (vblack(), s)
    } else {
        match scene_hit(w, r, sshade_interval()) {
            Some(rec) => {
                let (scat, s2) = material_scatter(w.materials@[rec.material as int], r, rec, s);
                match scat {
                    Some(pair) => {
                        let (col, s3) = sray_color(w, pair.1, (depth - 1) as u32, s2);
                        (vmul(pair.0, col), s3)
                    },
                    None => (vblack(), s2),
                }
            },
            None => (ssky(r), s),
        }
    }
}

/// The sum of `n` jittered shading samples for pixel `(x, y)`, with the
/// generator state that follows them.
pub open spec fn spixel_samples(c: Camera, w: HittableList, x: u32, y: u32, n: nat, s: u64) -> (
    Color,
    u64,
)
    decreases n,
{
    if n == 0 {
        (vblack(), s)
    } else {
        let (prev, s1) = spixel_samples(c, w, x, y, (n - 1) as nat, s);
        let (ray, s2) = sget_ray(c, x, y, s1);
        let (col, s3) = sray_color(w, ray, c.max_depth, s2);
        (vadd(prev, col), s3)
    }
}

/// One finished pixel: the sample sum averaged and quantized.
pub open spec fn srender_pixel(c: Camera, w: HittableList, x: u32, y: u32, s: u64) -> (Rgb, u64) {
    let (sum, s2) = spixel_samples(c, w, x, y, c.samples_per_pixel as nat, s);
    (scolor_rgb8(vscale(sum, c.pixel_samples_scale@)), s2)
}

/// The first `n` pixels of the image in row-major order (top row first,
/// left to right), with the generator state that follows them.
pub open spec fn srender_upto(c: Camera, w: HittableList, n: nat, s: u64) -> (Seq<Rgb>, u64)
    decreases n,
{
    if n == 0 {
        (Seq::empty(), s)
    } else {
        let (prev, s1) = srender_upto(c, w, (n - 1) as nat, s);
        let x = (((n - 1) as nat) % (c.image_width as nat)) as u32;
        let y = (((n - 1) as nat) / (c.image_width as nat)) as u32;
        let (px, s2) = srender_pixel(c, w, x, y, s1);
        (prev.push(px), s2)
    }
}

/// The whole image.
pub open spec fn srender(c: Camera, w: HittableList, s: u64) -> (Seq<Rgb>, u64) {
    srender_upto(c, w, (c.image_height as nat) * (c.image_width as nat), s)
}

/// Every quantized channel lies in `0..=255`.
pub proof fn lemma_schannel_bounds(c: int)
    ensures
        0 <= schannel(c) <= 255,
{
    let g = sgamma(c);
    if c > 0 {
        crate::fixed::lemma_sqrt_floor(c * (FX_SCALE as int));
    }
    assert(g >= 0);
    let cl = sclamp(sintensity(), g);
    assert(0 <= cl <= 999000);
    let f = sat(256 * (FX_SCALE as int));
    assert(f == 256000000);
    lemma_mul_nonnegative(f, cl);
    lemma_mul_inequality(cl, 999000, f);
    assert(f * cl == cl * f) by (nonlinear_arith);
    assert(f * 999000 == 999000 * f) by (nonlinear_arith);
    assert(0 <= f * cl <= 255744000000000);
    lemma_div_pos_is_pos(f * cl, FX_SCALE as int);
    lemma_div_is_ordered(f * cl, 255744000000000, FX_SCALE as int);
    lemma_fundamental_div_mod_converse(255744000000000, 1000000, 255744000, 0);
    let m = fmul(f, cl);
    assert(m == (f * cl) / (FX_SCALE as int));
    assert(0 <= m <= 255744000);
    lemma_div_pos_is_pos(m, FX_SCALE as int);
    lemma_div_is_ordered(m, 255744000, FX_SCALE as int);
    lemma_fundamental_div_mod_converse(255744000, 1000000, 255, 744000);
    assert(schannel(c) == m / (FX_SCALE as int));
}

/// A full-intensity linear channel (1.0) quantizes to 255, not 256.
pub proof fn lemma_channel_of_one_is_255()
    ensures
        schannel(FX_SCALE as int) == 255,
{
    crate::fixed::lemma_sqrt_floor_unique(1000000000000int, 1000000int);
    assert(sgamma(FX_SCALE as int) == 1000000);
    assert(sclamp(sintensity(), 1000000) == 999000);
    lemma_fundamental_div_mod_converse(255744000000000int, 1000000int, 255744000int, 0int);
    assert(fmul(256000000, 999000) == 255744000) by {
        assert(256000000 * 999000 == 255744000000000int) by (nonlinear_arith);
    }
    lemma_fundamental_div_mod_converse(255744000int, 1000000int, 255int, 744000int);
}

/// A zero linear channel quantizes to 0.
pub proof fn lemma_channel_of_zero_is_0()
    ensures
        schannel(0) == 0,
{
    assert(sgamma(0) == 0);
    assert(sclamp(sintensity(), 0) == 0);
    lemma_fundamental_div_mod_converse(0int, 1000000int, 0int, 0int);
    assert(fmul(256000000, 0) == 0) by {
        assert(256000000 * 0 == 0int) by (nonlinear_arith);
    }
}

impl Camera {
    /// A camera for the requested aspect ratio and image width, with the
    /// default sampling and bounce budgets; `initialize` derives the
    /// rest.
    pub fn new(aspect_ratio: Fx, image_width: u32) -> (r: Camera)
        ensures
            r.aspect_ratio == aspect_ratio,
            r.image_width == image_width,
            r.samples_per_pixel == 100,
            r.max_depth == 50,
            r.image_height == 0,
            r.camera_center == vblack(),
            r.pixel00_loc == vblack(),
            r.pixel_delta_u == vblack(),
            r.pixel_delta_v == vblack(),
            r.pixel_samples_scale@ == 0,
    {
        Camera {
            aspect_ratio,
            image_width,
            image_height: 0,
            camera_center: Vec3::zero(),
            pixel00_loc: Vec3::zero(),
            pixel_delta_u: Vec3::zero(),
            pixel_delta_v: Vec3::zero(),
            samples_per_pixel: 100,
            pixel_samples_scale: Fx::zero(),
            max_depth: 50,
        }
    }

    /// Gamma-2 encoding of one linear channel.
    pub fn linear_to_gamma(linear_component: Fx) -> (r: Fx)
        ensures
            r@ == sgamma(linear_component@),
    {
        if linear_component.raw > 0 {
            linear_component.sqrt()
        } else {
            Fx::zero()
        }
    }

    /// Quantize a linear color to three 8-bit channels: gamma-encode,
    /// clamp into `[0, 0.999]`, scale by 256 and truncate, so a channel
    /// of 1.0 maps to 255 and one of 0.0 to 0.
    pub fn color_to_rgb8(color: Color) -> (r: Rgb)
        ensures
            r == scolor_rgb8(color),
    {
        let intensity = Interval::new(Fx::zero(), Fx { raw: 999000 });
        let f256 = Fx::from_int(256);
        proof {
            lemma_schannel_bounds(color.x@);
            lemma_schannel_bounds(color.y@);
            lemma_schannel_bounds(color.z@);
        }
        let ir = (f256 * intensity.clamp(Self::linear_to_gamma(color.x))).to_int();
        let ig = (f256 * intensity.clamp(Self::linear_to_gamma(color.y))).to_int();
        let ib = (f256 * intensity.clamp(Self::linear_to_gamma(color.z))).to_int();
        Rgb { r: ir as u8, g: ig as u8, b: ib as u8 }
    }

    /// Derive the viewport state: the integer image height (the width
    /// over the aspect ratio, rounded to the nearest integer and kept at
    /// least one), the sample averaging scale, and the pixel grid of a
    /// viewport two world units tall at focal distance one, scaled by
    /// the actual integer pixel aspect ratio.
    pub fn initialize(&mut self)
        requires
            old(self).aspect_ratio@ > 0,
            old(self).image_width >= 1,
            old(self).samples_per_pixel >= 1,
        ensures
            *final(self) == scamera_init(*old(self)),
    {
        let wfx = Fx::from_int(self.image_width as i64);
        let h_raw = (wfx / self.aspect_ratio + Fx { raw: 500000 }).to_int();
        self.image_height = if h_raw < 1 {
            1u32
        } else if h_raw > u32::MAX as i64 {
            u32::MAX
        } else {
            h_raw as u32
        };

        self.pixel_samples_scale = Fx::one() / Fx::from_int(self.samples_per_pixel as i64);

        self.camera_center = Vec3::zero();

        // The focal length is the distance between the camera center and
        // the viewport plane.
        let focal_length = Fx::one();

        // Viewport height is fixed; the width uses the actual integer
        // image dimensions, whose ratio may differ from the requested
        // aspect ratio after rounding.
        let viewport_height = Fx::from_int(2);
        let hfx = Fx::from_int(self.image_height as i64);
        let viewport_width = viewport_height * (wfx / hfx);

        // Horizontal and vertical viewport edge vectors.
        let viewport_u = Vec3 { x: viewport_width, y: Fx::zero(), z: Fx::zero() };
        let viewport_v = Vec3 { x: Fx::zero(), y: viewport_height.negate(), z: Fx::zero() };

        // Delta vectors from pixel to pixel.
        self.pixel_delta_u = viewport_u / wfx;
        self.pixel_delta_v = viewport_v / hfx;

        let two = Fx::from_int(2);
        let viewport_upper_left = self.camera_center - Vec3 {
            x: Fx::zero(),
            y: Fx::zero(),
            z: focal_length,
        } - viewport_u / two - viewport_v / two;
        self.pixel00_loc = viewport_upper_left + Fx { raw: 500000 } * (self.pixel_delta_u
            + self.pixel_delta_v);
    }

    /// The jitter offset for one sample: uniform in `[-0.5, 0.5)^2`.
    pub fn sample_square(rng: &mut Rng) -> (r: Vec3)
        ensures
            r == ssample_square(old(rng)@).0,
            final(rng)@ == ssample_square(old(rng)@).1,
    {
        let half = Fx { raw: 500000 };
        let x = rng.next_unit() - half;
        let y = rng.next_unit() - half;
        Vec3 { x, y, z: Fx::zero() }
    }

    /// The ray from the camera center through pixel `(x, y)` displaced
    /// by `offset` within the pixel footprint.
    pub fn ray_through_pixel(&self, x: u32, y: u32, offset: Vec3) -> (r: Ray)
        ensures
            r == sray_through(*self, x, y, offset),
    {
        let pixel_sample = self.pixel00_loc + (Fx::from_int(x as i64) + offset.x)
            * self.pixel_delta_u + (Fx::from_int(y as i64) + offset.y) * self.pixel_delta_v;

        let ray_origin = self.camera_center;
        let ray_direction = pixel_sample - ray_origin;

        Ray { orig: ray_origin, dir: ray_direction }
    }

    /// A jittered ray through pixel `(x, y)`.
    pub fn get_ray_from_pixel_position(&self, x: u32, y: u32, rng: &mut Rng) -> (r: Ray)
        ensures
            r == sget_ray(*self, x, y, old(rng)@).0,
            final(rng)@ == sget_ray(*self, x, y, old(rng)@).1,
    {
        let offset = Self::sample_square(rng);
        self.ray_through_pixel(x, y, offset)
    }

    /// The color a ray gathers from the scene, bouncing at most `depth`
    /// times.  With the bounce budget spent the result is black, whatever
    /// the scene holds.
    pub fn ray_color(ray: &Ray, depth: u32, world: &HittableList, rng: &mut Rng) -> (r: Color)
        requires
            scene_wf(*world),
        ensures
            r == sray_color(*world, *ray, depth, old(rng)@).0,
            final(rng)@ == sray_color(*world, *ray, depth, old(rng)@).1,
            depth == 0 ==> r == vblack(),
        decreases depth,
    {
        // When too many collisions occur, no more light is gathered.
        if depth == 0 {
            return Vec3::zero();
        }

        let shade = Interval { min: Fx { raw: 1000 }, max: Fx::max_value() };
        if let Some(record) = world.hit(ray, &shade) {
            proof {
                crate::geometry::lemma_scene_hit_material_in_range(*world, *ray, shade);
            }
            let material = &world.materials[record.material];
            if let Some((attenuation, scattered)) = material.scatter(ray, &record, rng) {
                return attenuation * Self::ray_color(&scattered, depth - 1, world, rng);
            } else {
                return Vec3::zero();
            }
        }

        if ray.dir.len().raw == 0 {
            return Vec3::zero();
        }
        let unit_direction = ray.dir.unit_vector();
        let coeff = Fx { raw: 500000 } * (unit_direction.y + Fx::one());
        (Fx::one() - coeff) * Color { x: Fx::one(), y: Fx::one(), z: Fx::one() } + coeff * Color {
            x: Fx { raw: 500000 },
            y: Fx { raw: 700000 },
            z: Fx::one(),
        }
    }

    /// Render the scene: every pixel in row-major order, each the
    /// average of jittered samples, gamma-corrected and quantized.
    #[verifier::rlimit(100)]
    pub fn render(&self, world: &HittableList, rng: &mut Rng) -> (pixels: Vec<Rgb>)
        requires
            scene_wf(*world),
            self.image_width >= 1,
        ensures
            pixels@ == srender(*self, *world, old(rng)@).0,
            final(rng)@ == srender(*self, *world, old(rng)@).1,
            pixels@.len() == (self.image_height as int) * (self.image_width as int),
    {
        let ghost s0 = rng@;
        let mut pixels: Vec<Rgb> = Vec::new();
        let w = self.image_width;
        let h = self.image_height;

        let mut j: u32 = 0;
        while j < h
            invariant
                scene_wf(*world),
                w == self.image_width,
                h == self.image_height,
                w >= 1,
                j <= h,
                pixels@.len() == (j as int) * (w as int),
                pixels@ == srender_upto(*self, *world, (j as nat) * (w as nat), s0).0,
                rng@ == srender_upto(*self, *world, (j as nat) * (w as nat), s0).1,
            decreases h - j,
        {
            let mut i: u32 = 0;
            while i < w
                invariant
                    scene_wf(*world),
                    w == self.image_width,
                    h == self.image_height,
                    w >= 1,
                    j < h,
                    i <= w,
                    pixels@.len() == (j as int) * (w as int) + (i as int),
                    pixels@ == srender_upto(
                        *self,
                        *world,
                        ((j as nat) * (w as nat) + (i as nat)) as nat,
                        s0,
                    ).0,
                    rng@ == srender_upto(
                        *self,
                        *world,
                        ((j as nat) * (w as nat) + (i as nat)) as nat,
                        s0,
                    ).1,
                decreases w - i,
            {
                let ghost sp = rng@;
                let mut pixel_color = Vec3::zero();
                let mut sample: u32 = 0;
                while sample < self.samples_per_pixel
                    invariant
                        scene_wf(*world),
                        sample <= self.samples_per_pixel,
                        pixel_color == spixel_samples(*self, *world, i, j, sample as nat, sp).0,
                        rng@ == spixel_samples(*self, *world, i, j, sample as nat, sp).1,
                    decreases self.samples_per_pixel - sample,
                {
                    let ray = self.get_ray_from_pixel_position(i, j, rng);
                    let sample_color = Self::ray_color(&ray, self.max_depth, world, rng);
                    pixel_color.add_assign(sample_color);
                    sample += 1;
                }

                let rgb = Self::color_to_rgb8(self.pixel_samples_scale * pixel_color);
                proof {
                    lemma_fundamental_div_mod_converse(
                        (j as int) * (w as int) + (i as int),
                        w as int,
                        j as int,
                        i as int,
                    );
                }
                pixels.push(rgb);
                i += 1;
            }
            proof {
                assert((j as int) * (w as int) + (w as int) == ((j as int) + 1) * (w as int))
                    by (nonlinear_arith);
            }
            j += 1;
        }
        pixels
    }
}

} // verus!
