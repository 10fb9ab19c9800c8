//! Three-component vectors, used as free vectors, points and colors.

use crate::fixed::{fadd, fdiv, fmul, fneg, fsub, fsqrt, fx_new, tdiv, Fx, FX_SCALE};
use crate::rng::{rng_next, unit_from, Rng};
use vstd::prelude::*;

verus! {

/// An RGB color, carried in a vector's three components.
pub type Color = Vec3;

/// A point in space, carried in a vector's three components.
pub type Point3 = Vec3;

/// A three-component fixed-point vector.
#[derive(Debug, Clone, Copy, PartialEq, Eq, Structural)]
pub struct Vec3 {
    pub x: Fx,
    pub y: Fx,
    pub z: Fx,
}

/// Componentwise sum.
pub open spec fn vadd(a: Vec3, b: Vec3) -> Vec3 {
    Vec3 { x: fx_new(fadd(a.x@, b.x@)), y: fx_new(fadd(a.y@, b.y@)), z: fx_new(fadd(a.z@, b.z@)) }
}

/// Componentwise difference.
pub open spec fn vsub(a: Vec3, b: Vec3) -> Vec3 {
    Vec3 { x: fx_new(fsub(a.x@, b.x@)), y: fx_new(fsub(a.y@, b.y@)), z: fx_new(fsub(a.z@, b.z@)) }
}

/// Componentwise negation.
pub open spec fn vneg(a: Vec3) -> Vec3 {
    Vec3 { x: fx_new(fneg(a.x@)), y: fx_new(fneg(a.y@)), z: fx_new(fneg(a.z@)) }
}

/// Every component scaled by `t` (a raw fixed-point value).
pub open spec fn vscale(a: Vec3, t: int) -> Vec3 {
    Vec3 { x: fx_new(fmul(a.x@, t)), y: fx_new(fmul(a.y@, t)), z: fx_new(fmul(a.z@, t)) }
}

/// Componentwise product, as used for color tinting.
pub open spec fn vmul(a: Vec3, b: Vec3) -> Vec3 {
    Vec3 { x: fx_new(fmul(a.x@, b.x@)), y: fx_new(fmul(a.y@, b.y@)), z: fx_new(fmul(a.z@, b.z@)) }
}

/// Every component divided by `t` (a raw fixed-point value).
pub open spec fn vdiv(a: Vec3, t: int) -> Vec3 {
    Vec3 { x: fx_new(fdiv(a.x@, t)), y: fx_new(fdiv(a.y@, t)), z: fx_new(fdiv(a.z@, t)) }
}

/// Dot product, summed left to right.
pub open spec fn sdot(a: Vec3, b: Vec3) -> int {
    fadd(fadd(fmul(a.x@, b.x@), fmul(a.y@, b.y@)), fmul(a.z@, b.z@))
}

/// Squared length.
pub open spec fn slen_sq(a: Vec3) -> int {
    sdot(a, a)
}

/// Length: the square root of the squared length.
pub open spec fn slen(a: Vec3) -> int {
    fsqrt(slen_sq(a))
}

/// Cross product.
pub open spec fn scross(a: Vec3, b: Vec3) -> Vec3 {
    Vec3 {
        x: fx_new(fsub(fmul(a.y@, b.z@), fmul(a.z@, b.y@))),
        y: fx_new(fsub(fmul(a.z@, b.x@), fmul(a.x@, b.z@))),
        z: fx_new(fsub(fmul(a.x@, b.y@), fmul(a.y@, b.x@))),
    }
}

/// The vector scaled to length one (meaningful only when `slen` is
/// non-zero).
pub open spec fn sunit(a: Vec3) -> Vec3 {
    vdiv(a, slen(a))
}

/// Whether every component is below the degeneracy threshold of 1e-8.
/// That threshold lies under the representable resolution, so only
/// exact zeroes qualify.
pub open spec fn snear_zero(a: Vec3) -> bool {
    a.x@ == 0 && a.y@ == 0 && a.z@ == 0
}

/// Reflection of `v` about the unit normal `n`.
pub open spec fn sreflect(v: Vec3, n: Vec3) -> Vec3 {
    vsub(v, vscale(vscale(n, sdot(v, n)), 2 * (FX_SCALE as int)))
}

/// One draw of a vector whose components lie in `[min, max)`, with the
/// generator state that follows it.
pub open spec fn srandom(min: Fx, max: Fx, s: u64) -> (Vec3, u64) {
    let sc = fsub(max@, min@);
    let s1 = rng_next(s);
    let s2 = rng_next(s1);
    let s3 = rng_next(s2);
    (
        Vec3 {
            x: fx_new(fadd(min@, fmul(sc, unit_from(s1)))),
            y: fx_new(fadd(min@, fmul(sc, unit_from(s2)))),
            z: fx_new(fadd(min@, fmul(sc, unit_from(s3)))),
        },
        s3,
    )
}

/// One draw of a vector whose components lie in `[0, 1)`, with the
/// generator state that follows it.
pub open spec fn srandom_unit_cube(s: u64) -> (Vec3, u64) {
    let s1 = rng_next(s);
    let s2 = rng_next(s1);
    let s3 = rng_next(s2);
    (
        Vec3 { x: fx_new(unit_from(s1)), y: fx_new(unit_from(s2)), z: fx_new(unit_from(s3)) },
        s3,
    )
}

/// How many draws rejection sampling makes before it settles for a fixed
/// axis direction.  A draw is rejected with chance under one half, so
/// the fallback is unreachable in practice.
pub const SPHERE_ATTEMPTS: u32 = 64;

/// The squared-length floor for an accepted draw (0.01, a length of one
/// tenth).  Shorter draws would lose most of their length to truncation
/// when normalized, so they are rejected like the empty draw.
pub const MIN_SAMPLE_LEN_SQ: i64 = 10_000;

/// Rejection sampling of a point inside the unit ball: draw points in the
/// cube `[-1, 1)^3` until one has squared length in `[0.01, 1)`, giving
/// up on a fixed sub-unit axis vector after `k` draws.
pub open spec fn ssample_sphere(s: u64, k: nat) -> (Vec3, u64)
    decreases k,
{
    if k == 0 {
        (Vec3 { x: fx_new(999000), y: fx_new(0), z: fx_new(0) }, s)
    } else {
        let (p, s2) = srandom(fx_new(-(FX_SCALE as int)), fx_new(FX_SCALE as int), s);
        if (MIN_SAMPLE_LEN_SQ as int) <= slen_sq(p) < (FX_SCALE as int) {
            (p, s2)
        } else {
            ssample_sphere(s2, (k - 1) as nat)
        }
    }
}

/// A random unit vector: a point sampled inside the unit ball, scaled to
/// length one.
pub open spec fn srandom_unit_vector(s: u64) -> (Vec3, u64) {
    let (p, s2) = ssample_sphere(s, SPHERE_ATTEMPTS as nat);
    (sunit(p), s2)
}

/// A random unit vector flipped onto the hemisphere around `normal`.
pub open spec fn srandom_on_hemisphere(normal: Vec3, s: u64) -> (Vec3, u64) {
    let (v, s2) = srandom_unit_vector(s);
    if sdot(v, normal) > 0 {
        (v, s2)
    } else {
        (vneg(v), s2)
    }
}

impl Vec3 {
    /// The zero vector, which also serves as the color black.
    pub fn zero() -> (r: Vec3)
        ensures
            r.x@ == 0 && r.y@ == 0 && r.z@ == 0,
    {
        Vec3 { x: Fx::zero(), y: Fx::zero(), z: Fx::zero() }
    }

    /// The vector `(x, y, z)` of integer coordinates.
    pub fn from_ints(x: i64, y: i64, z: i64) -> (r: Vec3)
        ensures
            r == (Vec3 { x: fx_new(crate::fixed::sat(x * (FX_SCALE as int))), y: fx_new(crate::fixed::sat(y * (FX_SCALE as int))), z: fx_new(crate::fixed::sat(z * (FX_SCALE as int))) }),
    {
        Vec3 { x: Fx::from_int(x), y: Fx::from_int(y), z: Fx::from_int(z) }
    }

    /// Reflection of `v` about the unit normal `n`.
    pub fn reflect(v: &Vec3, n: &Vec3) -> (r: Vec3)
        ensures
            r == sreflect(*v, *n),
    {
        let d = v.dot(n);
        *v - (*n * d) * Fx::from_int(2)
    }

    /// Whether the vector is too short to carry a direction.
    pub fn near_zero(&self) -> (r: bool)
        ensures
            r == snear_zero(*self),
    {
        self.x.raw == 0 && self.y.raw == 0 && self.z.raw == 0
    }

    /// The vector scaled to length one.  A zero-length vector carries no
    /// direction, so it is excluded outright.
    pub fn unit_vector(&self) -> (r: Vec3)
        requires
            slen(*self) != 0,
        ensures
            r == sunit(*self),
    {
        *self / self.len()
    }

    /// Squared length.
    pub fn len_squared(&self) -> (r: Fx)
        ensures
            r@ == slen_sq(*self),
            r@ >= 0,
    {
        proof {
            lemma_len_sq_nonneg(*self);
        }
        self.dot(self)
    }

    /// Length.
    pub fn len(&self) -> (r: Fx)
        ensures
            r@ == slen(*self),
            r@ >= 0,
    {
        self.len_squared().sqrt()
    }

    /// Dot product.
    pub fn dot(&self, rhs: &Vec3) -> (r: Fx)
        ensures
            r@ == sdot(*self, *rhs),
    {
        self.x * rhs.x + self.y * rhs.y + self.z * rhs.z
    }

    /// Cross product.
    pub fn cross(&self, rhs: &Vec3) -> (r: Vec3)
        ensures
            r == scross(*self, *rhs),
    {
        Vec3 {
            x: self.y * rhs.z - self.z * rhs.y,
            y: self.z * rhs.x - self.x * rhs.z,
            z: self.x * rhs.y - self.y * rhs.x,
        }
    }

    /// Componentwise negation.
    pub fn negate(&self) -> (r: Vec3)
        ensures
            r == vneg(*self),
    {
        Vec3 { x: self.x.negate(), y: self.y.negate(), z: self.z.negate() }
    }

    /// Add `rhs` in place.
    pub fn add_assign(&mut self, rhs: Vec3)
        ensures
            *final(self) == vadd(*old(self), rhs),
    {
        *self = *self + rhs;
    }

    /// Scale by `rhs` in place.
    pub fn mul_assign(&mut self, rhs: Fx)
        ensures
            *final(self) == vscale(*old(self), rhs@),
    {
        *self = *self * rhs;
    }

    /// Divide by `rhs` in place.  Division by zero is a programming error
    /// and is excluded outright.
    pub fn div_assign(&mut self, rhs: Fx)
        requires
            rhs@ != 0,
        ensures
            *final(self) == vdiv(*old(self), rhs@),
    {
        *self = *self / rhs;
    }

    /// A vector with each component drawn uniformly from `[0, 1)`.
    pub fn random_unit(rng: &mut Rng) -> (r: Vec3)
        ensures
            r == srandom_unit_cube(old(rng)@).0,
            final(rng)@ == srandom_unit_cube(old(rng)@).1,
    {
        let x = rng.next_unit();
        let y = rng.next_unit();
        let z = rng.next_unit();
        Vec3 { x, y, z }
    }

    /// A vector with each component drawn uniformly from `[min, max)`.
    pub fn random(min: Fx, max: Fx, rng: &mut Rng) -> (r: Vec3)
        ensures
            r == srandom(min, max, old(rng)@).0,
            final(rng)@ == srandom(min, max, old(rng)@).1,
    {
        let scale = max - min;
        let x = min + scale * rng.next_unit();
        let y = min + scale * rng.next_unit();
        let z = min + scale * rng.next_unit();
        Vec3 { x, y, z }
    }

    /// A point drawn inside the unit ball by rejection sampling, with a
    /// fixed sub-unit axis vector as an (unreachable in practice)
    /// fallback.  The squared length lies in `[0.01, 1)`.
    fn random_in_unit_sphere(rng: &mut Rng) -> (r: Vec3)
        ensures
            r == ssample_sphere(old(rng)@, SPHERE_ATTEMPTS as nat).0,
            final(rng)@ == ssample_sphere(old(rng)@, SPHERE_ATTEMPTS as nat).1,
            (MIN_SAMPLE_LEN_SQ as int) <= slen_sq(r) < (FX_SCALE as int),
            crate::fixed::abs_i(r.x@) <= FX_SCALE as int,
            crate::fixed::abs_i(r.y@) <= FX_SCALE as int,
            crate::fixed::abs_i(r.z@) <= FX_SCALE as int,
    {
        Self::sample_sphere_rec(rng, SPHERE_ATTEMPTS)
    }

    /// The recursive worker behind `random_in_unit_sphere`.
    fn sample_sphere_rec(rng: &mut Rng, k: u32) -> (r: Vec3)
        ensures
            r == ssample_sphere(old(rng)@, k as nat).0,
            final(rng)@ == ssample_sphere(old(rng)@, k as nat).1,
            (MIN_SAMPLE_LEN_SQ as int) <= slen_sq(r) < (FX_SCALE as int),
            crate::fixed::abs_i(r.x@) <= FX_SCALE as int,
            crate::fixed::abs_i(r.y@) <= FX_SCALE as int,
            crate::fixed::abs_i(r.z@) <= FX_SCALE as int,
        decreases k,
    {
        if k == 0 {
            proof {
                lemma_fallback_len_sq();
            }
            Vec3 { x: Fx { raw: 999000 }, y: Fx::zero(), z: Fx::zero() }
        } else {
            let one = Fx::one();
            let p = Vec3::random(one.negate(), one, rng);
            proof {
                lemma_sample_comp_bounds(old(rng)@);
            }
            let q = p.len_squared();
            if MIN_SAMPLE_LEN_SQ <= q.raw && q.raw < FX_SCALE {
                p
            } else {
                Self::sample_sphere_rec(rng, k - 1)
            }
        }
    }

    /// A random vector of length one, within the verified tolerance of
    /// two hundred millionths.
    pub fn random_unit_vector(rng: &mut Rng) -> (r: Vec3)
        ensures
            r == srandom_unit_vector(old(rng)@).0,
            final(rng)@ == srandom_unit_vector(old(rng)@).1,
            crate::fixed::abs_i(slen(r) - (FX_SCALE as int)) <= 200,
            crate::fixed::abs_i(r.x@) <= 1020000,
            crate::fixed::abs_i(r.y@) <= 1020000,
            crate::fixed::abs_i(r.z@) <= 1020000,
    {
        let p = Self::random_in_unit_sphere(rng);
        proof {
            crate::fixed::lemma_sqrt_floor_at_least(slen_sq(p) * (FX_SCALE as int), 100000);
            lemma_unit_vector_length_approx(p);
        }
        p.unit_vector()
    }

    /// A random unit vector (within the verified tolerance of two
    /// hundred millionths) on the hemisphere around `normal`.
    pub fn random_on_hemisphere(normal: &Vec3, rng: &mut Rng) -> (r: Vec3)
        ensures
            r == srandom_on_hemisphere(*normal, old(rng)@).0,
            final(rng)@ == srandom_on_hemisphere(*normal, old(rng)@).1,
            crate::fixed::abs_i(slen(r) - (FX_SCALE as int)) <= 200,
    {
        let v = Self::random_unit_vector(rng);
        if v.dot(normal).gt(Fx::zero()) {
            v
        } else {
            proof {
                lemma_negate_preserves_length(v);
            }
            v.negate()
        }
    }
}

/// Negating a vector of representable components preserves its squared
/// length, and so its length.
pub proof fn lemma_negate_preserves_length(a: Vec3)
    requires
        crate::fixed::abs_i(a.x@) <= crate::fixed::fx_max(),
        crate::fixed::abs_i(a.y@) <= crate::fixed::fx_max(),
        crate::fixed::abs_i(a.z@) <= crate::fixed::fx_max(),
    ensures
        slen_sq(vneg(a)) == slen_sq(a),
        slen(vneg(a)) == slen(a),
{
    assert((-a.x@) * (-a.x@) == a.x@ * a.x@) by (nonlinear_arith);
    assert((-a.y@) * (-a.y@) == a.y@ * a.y@) by (nonlinear_arith);
    assert((-a.z@) * (-a.z@) == a.z@ * a.z@) by (nonlinear_arith);
}

/// Every component of a vector drawn from `[-1, 1)` stays within one
/// unit in magnitude.
proof fn lemma_sample_comp_bounds(s: u64)
    ensures
        crate::fixed::abs_i(
            srandom(fx_new(-(FX_SCALE as int)), fx_new(FX_SCALE as int), s).0.x@,
        ) <= FX_SCALE as int,
        crate::fixed::abs_i(
            srandom(fx_new(-(FX_SCALE as int)), fx_new(FX_SCALE as int), s).0.y@,
        ) <= FX_SCALE as int,
        crate::fixed::abs_i(
            srandom(fx_new(-(FX_SCALE as int)), fx_new(FX_SCALE as int), s).0.z@,
        ) <= FX_SCALE as int,
{
    let s1 = crate::rng::rng_next(s);
    let s2 = crate::rng::rng_next(s1);
    let s3 = crate::rng::rng_next(s2);
    lemma_unit_scale_range(crate::rng::unit_from(s1));
    lemma_unit_scale_range(crate::rng::unit_from(s2));
    lemma_unit_scale_range(crate::rng::unit_from(s3));
}

/// Scaling a draw from `[0, 1)` by the width 2 of the sampling cube
/// stays in `[0, 2)`.
proof fn lemma_unit_scale_range(u: int)
    requires
        0 <= u < 1000000,
    ensures
        0 <= fmul(2000000, u) < 2000000,
{
    vstd::arithmetic::div_mod::lemma_div_pos_is_pos(2000000 * u, 1000000);
    vstd::arithmetic::div_mod::lemma_div_is_ordered(2000000 * u, 1999998000000int, 1000000);
    vstd::arithmetic::div_mod::lemma_fundamental_div_mod_converse(
        1999998000000int,
        1000000int,
        1999998int,
        0int,
    );
}

/// The dot product does not depend on the argument order.
pub proof fn lemma_dot_symmetric(a: Vec3, b: Vec3)
    ensures
        sdot(a, b) == sdot(b, a),
{
    crate::fixed::lemma_fmul_comm(a.x@, b.x@);
    crate::fixed::lemma_fmul_comm(a.y@, b.y@);
    crate::fixed::lemma_fmul_comm(a.z@, b.z@);
}

/// Swapping the arguments of the cross product negates it.
pub proof fn lemma_cross_antisymmetric(a: Vec3, b: Vec3)
    ensures
        scross(a, b) == vneg(scross(b, a)),
{
    crate::fixed::lemma_fmul_comm(a.y@, b.z@);
    crate::fixed::lemma_fmul_comm(a.z@, b.y@);
    crate::fixed::lemma_fmul_comm(a.z@, b.x@);
    crate::fixed::lemma_fmul_comm(a.x@, b.z@);
    crate::fixed::lemma_fmul_comm(a.x@, b.y@);
    crate::fixed::lemma_fmul_comm(a.y@, b.x@);
    crate::fixed::lemma_fneg_fsub(fmul(b.y@, a.z@), fmul(b.z@, a.y@));
    crate::fixed::lemma_fneg_fsub(fmul(b.z@, a.x@), fmul(b.x@, a.z@));
    crate::fixed::lemma_fneg_fsub(fmul(b.x@, a.y@), fmul(b.y@, a.x@));
}

/// The squared length of any vector is non-negative.
pub proof fn lemma_len_sq_nonneg(a: Vec3)
    ensures
        slen_sq(a) >= 0,
{
    lemma_fmul_square_nonneg(a.x@);
    lemma_fmul_square_nonneg(a.y@);
    lemma_fmul_square_nonneg(a.z@);
}

/// The fixed-point product of a value with itself is non-negative.
proof fn lemma_fmul_square_nonneg(a: int)
    ensures
        fmul(a, a) >= 0,
{
    assert(a * a >= 0) by (nonlinear_arith);
    vstd::arithmetic::div_mod::lemma_div_pos_is_pos(a * a, FX_SCALE as int);
}

/// One squared component of the squared length: exact division, with
/// its rounding bracket and a bound that rules saturation out.
proof fn lemma_sq_piece(aa: int)
    requires
        crate::fixed::abs_i(aa) <= 1000000000000,
    ensures
        fmul(aa, aa) == (aa * aa) / 1000000,
        1000000 * fmul(aa, aa) <= aa * aa < 1000000 * fmul(aa, aa) + 1000000,
        0 <= fmul(aa, aa) <= 1000000000000000000,
{
    assert(0 <= aa * aa <= 1000000000000000000000000int) by (nonlinear_arith)
        requires
            -1000000000000 <= aa <= 1000000000000,
    ;
    vstd::arithmetic::div_mod::lemma_div_pos_is_pos(aa * aa, 1000000);
    vstd::arithmetic::div_mod::lemma_div_is_ordered(aa * aa, 1000000000000000000000000int, 1000000);
    vstd::arithmetic::div_mod::lemma_fundamental_div_mod_converse(
        1000000000000000000000000int,
        1000000int,
        1000000000000000000int,
        0int,
    );
    vstd::arithmetic::div_mod::lemma_fundamental_div_mod(aa * aa, 1000000);
    vstd::arithmetic::div_mod::lemma_mod_bound(aa * aa, 1000000);
}

/// A component is bounded by the vector's length: its square is at most
/// the exact squared norm, which the length brackets.
proof fn lemma_abs_comp_bound(aa: int, lv: int, q: int)
    requires
        aa * aa <= q,
        q < (lv + 1) * (lv + 1) + 3000000,
        lv >= 0,
    ensures
        crate::fixed::abs_i(aa) <= lv + 1733,
{
    assert((lv + 1) * (lv + 1) + 3000000 <= (lv + 1734) * (lv + 1734)) by (nonlinear_arith)
        requires
            lv >= 0,
    ;
    if crate::fixed::abs_i(aa) > lv + 1733 {
        assert((lv + 1734) * (lv + 1734) <= aa * aa) by (nonlinear_arith)
            requires
                aa <= -(lv + 1734) || aa >= lv + 1734,
                lv >= 0,
        ;
    }
}

/// One normalized component: dividing by the length does not saturate
/// and grows the magnitude at most tenfold, and its square, scaled by
/// the length's square, brackets the exact ratio.
proof fn lemma_unit_comp(aa: int, lv: int)
    requires
        crate::fixed::abs_i(aa) <= 1000000000000,
        lv >= 100000,
    ensures
        fdiv(aa, lv) == tdiv(aa * 1000000, lv),
        crate::fixed::abs_i(tdiv(aa * 1000000, lv)) <= 10 * crate::fixed::abs_i(aa),
        (lv * lv) * (tdiv(aa * 1000000, lv) * tdiv(aa * 1000000, lv)) <= (aa * aa)
            * 1000000000000 + lv * lv,
        (lv * lv) * (tdiv(aa * 1000000, lv) * tdiv(aa * 1000000, lv)) >= (aa * aa)
            * 1000000000000 - 2000000 * crate::fixed::abs_i(aa) * lv,
{
    let p = aa * 1000000;
    let u = tdiv(p, lv);
    crate::fixed::lemma_tdiv_props(p, lv);
    let e = p - lv * u;
    assert(crate::fixed::abs_i(p) == crate::fixed::abs_i(aa) * 1000000);
    vstd::arithmetic::div_mod::lemma_div_is_ordered_by_denominator(
        crate::fixed::abs_i(aa) * 1000000,
        100000,
        lv,
    );
    vstd::arithmetic::div_mod::lemma_div_by_multiple(10 * crate::fixed::abs_i(aa), 100000);
    assert(crate::fixed::abs_i(u) <= 10 * crate::fixed::abs_i(aa));
    assert(fdiv(aa, lv) == crate::fixed::sat(u));
    assert(crate::fixed::sat(u) == u);
    assert(lv * u == p - e);
    assert((lv * lv) * (u * u) == (p - e) * (p - e)) by (nonlinear_arith)
        requires
            lv * u == p - e,
    ;
    assert((p - e) * (p - e) == p * p - 2 * (p * e) + e * e) by (nonlinear_arith);
    assert(p * p == (aa * aa) * 1000000000000) by (nonlinear_arith)
        requires
            p == aa * 1000000,
    ;
    assert(e * e >= 0) by (nonlinear_arith);
    assert(e * e <= lv * lv) by (nonlinear_arith)
        requires
            -lv < e < lv,
    ;
    assert(p * e >= 0);
    assert(p * e <= crate::fixed::abs_i(aa) * 1000000 * lv) by (nonlinear_arith)
        requires
            p * e >= 0,
            -lv < e < lv,
            crate::fixed::abs_i(p) == crate::fixed::abs_i(aa) * 1000000,
            -(crate::fixed::abs_i(p)) <= p <= crate::fixed::abs_i(p),
    ;
    assert(2000000 * crate::fixed::abs_i(aa) * lv == 2 * (crate::fixed::abs_i(aa) * 1000000 * lv))
        by (nonlinear_arith);
}

/// A component never exceeds the vector's length by much, so the
/// normalized component stays close to one unit in magnitude.
proof fn lemma_unit_comp_small(aa: int, lv: int)
    requires
        crate::fixed::abs_i(aa) <= lv + 1733,
        lv >= 100000,
    ensures
        crate::fixed::abs_i(tdiv(aa * 1000000, lv)) <= 1020000,
{
    crate::fixed::lemma_tdiv_props(aa * 1000000, lv);
    assert(crate::fixed::abs_i(aa * 1000000) == crate::fixed::abs_i(aa) * 1000000);
    vstd::arithmetic::div_mod::lemma_div_is_ordered(
        crate::fixed::abs_i(aa) * 1000000,
        (lv + 1733) * 1000000,
        lv,
    );
    vstd::arithmetic::div_mod::lemma_hoist_over_denominator(1733000000int, 1000000int, lv as nat);
    vstd::arithmetic::div_mod::lemma_div_is_ordered_by_denominator(1733000000int, 100000, lv);
    vstd::arithmetic::div_mod::lemma_fundamental_div_mod_converse(
        1733000000int,
        100000int,
        17330int,
        0int,
    );
}

/// Scaling a vector of length at least one tenth (and of representable
/// size) to unit length gives length one, within two hundred
/// millionths.  Vectors shorter than a tenth can lose most of their
/// length to truncation, so the law is stated away from them.
pub proof fn lemma_unit_vector_length_approx(v: Vec3)
    requires
        crate::fixed::abs_i(v.x@) <= 1000000000000,
        crate::fixed::abs_i(v.y@) <= 1000000000000,
        crate::fixed::abs_i(v.z@) <= 1000000000000,
        slen(v) >= 100000,
    ensures
        crate::fixed::abs_i(slen(sunit(v)) - FX_SCALE as int) <= 200,
        crate::fixed::abs_i(sunit(v).x@) <= 1020000,
        crate::fixed::abs_i(sunit(v).y@) <= 1020000,
        crate::fixed::abs_i(sunit(v).z@) <= 1020000,
{
    let a = v.x@;
    let b = v.y@;
    let c = v.z@;
    lemma_sq_piece(a);
    lemma_sq_piece(b);
    lemma_sq_piece(c);
    let q = a * a + b * b + c * c;
    let n = slen_sq(v);
    assert(n == fmul(a, a) + fmul(b, b) + fmul(c, c));
    assert(1000000 * n <= q < 1000000 * n + 3000000);
    lemma_len_sq_nonneg(v);
    let lv = slen(v);
    crate::fixed::lemma_sqrt_floor(n * 1000000);
    assert(lv * lv <= n * 1000000);
    assert(n * 1000000 < (lv + 1) * (lv + 1));
    assert(n * 1000000 <= q);
    assert(q < (lv + 1) * (lv + 1) + 3000000);
    assert(lv >= 100000);
    assert(b * b + c * c >= 0 && a * a + c * c >= 0 && a * a + b * b >= 0) by (nonlinear_arith);
    lemma_abs_comp_bound(a, lv, q);
    lemma_abs_comp_bound(b, lv, q);
    lemma_abs_comp_bound(c, lv, q);
    lemma_unit_comp(a, lv);
    lemma_unit_comp(b, lv);
    lemma_unit_comp(c, lv);
    lemma_unit_comp_small(a, lv);
    lemma_unit_comp_small(b, lv);
    lemma_unit_comp_small(c, lv);
    let ua = tdiv(a * 1000000, lv);
    let ub = tdiv(b * 1000000, lv);
    let uc = tdiv(c * 1000000, lv);
    let u = sunit(v);
    assert(u.x@ == ua && u.y@ == ub && u.z@ == uc);
    let tt = ua * ua + ub * ub + uc * uc;
    assert((lv * lv) * tt == (lv * lv) * (ua * ua) + (lv * lv) * (ub * ub) + (lv * lv) * (uc
        * uc)) by (nonlinear_arith)
        requires
            tt == ua * ua + ub * ub + uc * uc,
    ;
    let sa = crate::fixed::abs_i(a) + crate::fixed::abs_i(b) + crate::fixed::abs_i(c);
    assert(2000000 * crate::fixed::abs_i(a) * lv + 2000000 * crate::fixed::abs_i(b) * lv + 2000000
        * crate::fixed::abs_i(c) * lv == 2000000 * sa * lv) by (nonlinear_arith)
        requires
            sa == crate::fixed::abs_i(a) + crate::fixed::abs_i(b) + crate::fixed::abs_i(c),
    ;
    assert((lv * lv) * tt <= q * 1000000000000 + 3 * (lv * lv));
    assert((lv * lv) * tt >= q * 1000000000000 - 2000000 * sa * lv);
    assert(sa <= 3 * lv + 5199);
    assert(lv * lv > 0) by (nonlinear_arith)
        requires
            lv >= 100000,
    ;
    assert((lv * lv) * tt <= (lv * lv) * 1000331000000) by (nonlinear_arith)
        requires
            (lv * lv) * tt <= q * 1000000000000 + 3 * (lv * lv),
            q < (lv + 1) * (lv + 1) + 3000000,
            lv >= 100000,
    ;
    assert((lv * lv) * tt >= (lv * lv) * 999993000000) by (nonlinear_arith)
        requires
            (lv * lv) * tt >= q * 1000000000000 - 2000000 * sa * lv,
            q >= lv * lv,
            sa <= 3 * lv + 5199,
            sa >= 0,
            lv >= 100000,
    ;
    assert(999993000000 <= tt <= 1000331000000) by (nonlinear_arith)
        requires
            (lv * lv) * tt <= (lv * lv) * 1000331000000,
            (lv * lv) * tt >= (lv * lv) * 999993000000,
            lv * lv > 0,
    ;
    assert(crate::fixed::abs_i(ua) <= 1020000);
    assert(crate::fixed::abs_i(ub) <= 1020000);
    assert(crate::fixed::abs_i(uc) <= 1020000);
    lemma_sq_piece(ua);
    lemma_sq_piece(ub);
    lemma_sq_piece(uc);
    let m = slen_sq(u);
    assert(m == fmul(ua, ua) + fmul(ub, ub) + fmul(uc, uc));
    assert(1000000 * m <= tt < 1000000 * m + 3000000);
    assert(m >= 999990);
    assert(m <= 1000331);
    crate::fixed::lemma_sqrt_floor_at_least(m * 1000000, 999994);
    crate::fixed::lemma_sqrt_floor_at_most(m * 1000000, 1000165);
    assert(slen(u) == crate::fixed::sqrt_floor(m * 1000000));
    assert(999994 <= slen(u) <= 1000165);
}

/// The sub-unit axis vector used as the sampling fallback has squared
/// length 0.998001, inside the accepted window.
proof fn lemma_fallback_len_sq()
    ensures
        slen_sq(Vec3 { x: fx_new(999000), y: fx_new(0), z: fx_new(0) }) == 998001,
{
    vstd::arithmetic::div_mod::lemma_fundamental_div_mod_converse(
        998001000000int,
        1000000int,
        998001int,
        0int,
    );
    vstd::arithmetic::div_mod::lemma_fundamental_div_mod_converse(0int, 1000000int, 0int, 0int);
    assert(fmul(999000int, 999000int) == 998001int);
    assert(fmul(0int, 0int) == 0int);
}

impl Default for Vec3 {
    /// The zero vector.
    fn default() -> (r: Vec3)
        ensures
            r.x@ == 0 && r.y@ == 0 && r.z@ == 0,
    {
        Vec3 { x: Fx::zero(), y: Fx::zero(), z: Fx::zero() }
    }
}

impl std::ops::Add for Vec3 {
    type Output = Vec3;

    /// Componentwise sum.
    fn add(self, rhs: Vec3) -> (r: Vec3)
        ensures
            r == vadd(self, rhs),
    {
        Vec3 { x: self.x + rhs.x, y: self.y + rhs.y, z: self.z + rhs.z }
    }
}

impl vstd::std_specs::ops::AddSpecImpl for Vec3 {
    open spec fn obeys_add_spec() -> bool {
        true
    }

    open spec fn add_req(self, rhs: Vec3) -> bool {
        true
    }

    open spec fn add_spec(self, rhs: Vec3) -> Vec3 {
        vadd(self, rhs)
    }
}

impl std::ops::Sub for Vec3 {
    type Output = Vec3;

    /// Componentwise difference.
    fn sub(self, rhs: Vec3) -> (r: Vec3)
        ensures
            r == vsub(self, rhs),
    {
        Vec3 { x: self.x - rhs.x, y: self.y - rhs.y, z: self.z - rhs.z }
    }
}

impl vstd::std_specs::ops::SubSpecImpl for Vec3 {
    open spec fn obeys_sub_spec() -> bool {
        true
    }

    open spec fn sub_req(self, rhs: Vec3) -> bool {
        true
    }

    open spec fn sub_spec(self, rhs: Vec3) -> Vec3 {
        vsub(self, rhs)
    }
}

impl std::ops::Neg for Vec3 {
    type Output = Vec3;

    /// Componentwise negation.
    fn neg(self) -> (r: Vec3)
        ensures
            r == vneg(self),
    {
        self.negate()
    }
}

impl vstd::std_specs::ops::NegSpecImpl for Vec3 {
    open spec fn obeys_neg_spec() -> bool {
        true
    }

    open spec fn neg_req(self) -> bool {
        true
    }

    open spec fn neg_spec(self) -> Vec3 {
        vneg(self)
    }
}

impl std::ops::Mul<Fx> for Vec3 {
    type Output = Vec3;

    /// Every component scaled by `rhs`.
    fn mul(self, rhs: Fx) -> (r: Vec3)
        ensures
            r == vscale(self, rhs@),
    {
        Vec3 { x: self.x * rhs, y: self.y * rhs, z: self.z * rhs }
    }
}

impl vstd::std_specs::ops::MulSpecImpl<Fx> for Vec3 {
    open spec fn obeys_mul_spec() -> bool {
        true
    }

    open spec fn mul_req(self, rhs: Fx) -> bool {
        true
    }

    open spec fn mul_spec(self, rhs: Fx) -> Vec3 {
        vscale(self, rhs@)
    }
}

impl std::ops::Mul<Vec3> for Vec3 {
    type Output = Vec3;

    /// Componentwise product, as used for color tinting.
    fn mul(self, rhs: Vec3) -> (r: Vec3)
        ensures
            r == vmul(self, rhs),
    {
        Vec3 { x: self.x * rhs.x, y: self.y * rhs.y, z: self.z * rhs.z }
    }
}

impl vstd::std_specs::ops::MulSpecImpl<Vec3> for Vec3 {
    open spec fn obeys_mul_spec() -> bool {
        true
    }

    open spec fn mul_req(self, rhs: Vec3) -> bool {
        true
    }

    open spec fn mul_spec(self, rhs: Vec3) -> Vec3 {
        vmul(self, rhs)
    }
}

impl std::ops::Mul<Vec3> for Fx {
    type Output = Vec3;

    /// Every component of `rhs` scaled by this scalar.
    fn mul(self, rhs: Vec3) -> (r: Vec3)
        ensures
            r == vscale(rhs, self@),
    {
        Vec3 { x: rhs.x * self, y: rhs.y * self, z: rhs.z * self }
    }
}

impl vstd::std_specs::ops::MulSpecImpl<Vec3> for Fx {
    open spec fn obeys_mul_spec() -> bool {
        true
    }

    open spec fn mul_req(self, rhs: Vec3) -> bool {
        true
    }

    open spec fn mul_spec(self, rhs: Vec3) -> Vec3 {
        vscale(rhs, self@)
    }
}

impl std::ops::Div<Fx> for Vec3 {
    type Output = Vec3;

    /// Every component divided by `rhs`.  Division by zero is a
    /// programming error and is excluded statically.
    fn div(self, rhs: Fx) -> (r: Vec3)
        ensures
            r == vdiv(self, rhs@),
    {
        Vec3 { x: self.x / rhs, y: self.y / rhs, z: self.z / rhs }
    }
}

impl vstd::std_specs::ops::DivSpecImpl<Fx> for Vec3 {
    open spec fn obeys_div_spec() -> bool {
        true
    }

    open spec fn div_req(self, rhs: Fx) -> bool {
        rhs@ != 0
    }

    open spec fn div_spec(self, rhs: Fx) -> Vec3 {
        vdiv(self, rhs@)
    }
}

} // verus!
