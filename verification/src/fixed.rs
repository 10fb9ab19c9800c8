//! The fixed-point scalar that all geometry is computed with.
//!
//! A value is stored as a signed count of millionths, so every constant the
//! renderer needs (0.5, 0.001, 0.999, ...) is exact, and every operation has
//! a precise mathematical contract.  Where binary floating point would
//! overflow to an infinity, these operations saturate at the greatest
//! representable magnitude; the range is kept symmetric so negation is
//! always exact.

use vstd::prelude::*;

verus! {

/// Number of raw units per 1.0: values carry six decimal places.
pub const FX_SCALE: i64 = 1_000_000;

/// A fixed-point scalar: the represented value is `raw / FX_SCALE`.
#[derive(Debug, Clone, Copy, PartialEq, Eq, Structural)]
pub struct Fx {
    pub raw: i64,
}

/// Saturation bound for every arithmetic result.
pub open spec fn fx_max() -> int {
    i64::MAX as int
}

/// Clamp a mathematical integer into the symmetric representable range.
pub open spec fn sat(x: int) -> int {
    if x > fx_max() {
        fx_max()
    } else if x < -fx_max() {
        -fx_max()
    } else {
        x
    }
}

/// Division that truncates toward zero, as the hardware divide does.
/// Unspecified when `b == 0`.
pub open spec fn tdiv(a: int, b: int) -> int {
    if (a < 0) == (b < 0) {
        abs_i(a) / abs_i(b)
    } else {
        -(abs_i(a) / abs_i(b))
    }
}

/// Absolute value of a mathematical integer.
pub open spec fn abs_i(a: int) -> int {
    if a < 0 {
        -a
    } else {
        a
    }
}

/// The greatest `r` with `r * r <= n` (0 when `n <= 0`).
pub open spec fn sqrt_floor(n: int) -> int
    decreases n,
{
    if n <= 0 {
        0
    } else {
        let p = sqrt_floor(n - 1);
        if (p + 1) * (p + 1) <= n {
            p + 1
        } else {
            p
        }
    }
}

/// `sqrt_floor(n)` really is the floor of the square root.
pub proof fn lemma_sqrt_floor(n: int)
    requires
        n >= 0,
    ensures
        sqrt_floor(n) >= 0,
        sqrt_floor(n) * sqrt_floor(n) <= n,
        n < (sqrt_floor(n) + 1) * (sqrt_floor(n) + 1),
    decreases n,
{
    if n > 0 {
        lemma_sqrt_floor(n - 1);
        let p = sqrt_floor(n - 1);
        if (p + 1) * (p + 1) <= n {
            assert((p + 1) * (p + 1) < (p + 2) * (p + 2)) by (nonlinear_arith)
                requires
                    p >= 0,
            ;
        }
    }
}

/// Two integers both bracketing `n` as a floor square root are equal.
pub proof fn lemma_sqrt_floor_unique(n: int, r: int)
    requires
        n >= 0,
        r >= 0,
        r * r <= n,
        n < (r + 1) * (r + 1),
    ensures
        r == sqrt_floor(n),
{
    lemma_sqrt_floor(n);
    let s = sqrt_floor(n);
    if r < s {
        assert((r + 1) * (r + 1) <= s * s) by (nonlinear_arith)
            requires
                0 <= r,
                r + 1 <= s,
        ;
    }
    if s < r {
        assert((s + 1) * (s + 1) <= r * r) by (nonlinear_arith)
            requires
                0 <= s,
                s + 1 <= r,
        ;
    }
}

/// The scalar whose raw value is `v` (for writing specification results).
pub open spec fn fx_new(v: int) -> Fx {
    Fx { raw: v as i64 }
}

/// A lower bound on the floor square root from a lower bound on `n`.
pub proof fn lemma_sqrt_floor_at_least(n: int, b: int)
    requires
        0 <= b,
        b * b <= n,
    ensures
        sqrt_floor(n) >= b,
{
    assert(b * b >= 0) by (nonlinear_arith)
        requires
            b >= 0,
    ;
    lemma_sqrt_floor(n);
    let r = sqrt_floor(n);
    if r < b {
        assert((r + 1) * (r + 1) <= b * b) by (nonlinear_arith)
            requires
                0 <= r + 1 <= b,
        ;
    }
}

/// Fixed-point addition of raw values.
pub open spec fn fadd(a: int, b: int) -> int {
    sat(a + b)
}

/// Fixed-point subtraction of raw values.
pub open spec fn fsub(a: int, b: int) -> int {
    sat(a - b)
}

/// Fixed-point negation of a raw value.
pub open spec fn fneg(a: int) -> int {
    sat(-a)
}

/// Fixed-point multiplication of raw values.
pub open spec fn fmul(a: int, b: int) -> int {
    sat(tdiv(a * b, FX_SCALE as int))
}

/// Fixed-point division of raw values (unspecified when `b == 0`).
pub open spec fn fdiv(a: int, b: int) -> int {
    sat(tdiv(a * FX_SCALE as int, b))
}

/// Fixed-point square root of a raw value (for `a >= 0`).
pub open spec fn fsqrt(a: int) -> int {
    sqrt_floor(a * FX_SCALE as int)
}

/// An upper bound on the floor square root from a strict upper bound on
/// `n`.
pub proof fn lemma_sqrt_floor_at_most(n: int, b: int)
    requires
        0 <= b,
        n < (b + 1) * (b + 1),
    ensures
        sqrt_floor(n) <= b,
{
    if n >= 0 {
        lemma_sqrt_floor(n);
        let r = sqrt_floor(n);
        if r > b {
            assert((b + 1) * (b + 1) <= r * r) by (nonlinear_arith)
                requires
                    0 <= b + 1 <= r,
            ;
        }
    }
}

/// What truncating division leaves behind: the remainder `p - d * q` is
/// smaller than the divisor in magnitude, never flips the sign of the
/// numerator, and the quotient's magnitude is the floor of the exact
/// magnitude ratio.
pub proof fn lemma_tdiv_props(p: int, d: int)
    requires
        d > 0,
    ensures
        abs_i(p - d * tdiv(p, d)) < d,
        p * (p - d * tdiv(p, d)) >= 0,
        abs_i(tdiv(p, d)) == abs_i(p) / d,
        tdiv(p, d) * p >= 0,
{
    if p >= 0 {
        vstd::arithmetic::div_mod::lemma_fundamental_div_mod(p, d);
        vstd::arithmetic::div_mod::lemma_mod_bound(p, d);
        vstd::arithmetic::div_mod::lemma_div_pos_is_pos(p, d);
        assert(p - d * tdiv(p, d) == p % d);
        assert(p * (p % d) >= 0) by (nonlinear_arith)
            requires
                p >= 0,
                p % d >= 0,
        ;
        assert(tdiv(p, d) * p >= 0) by (nonlinear_arith)
            requires
                p >= 0,
                tdiv(p, d) >= 0,
        ;
    } else {
        let m = -p;
        vstd::arithmetic::div_mod::lemma_fundamental_div_mod(m, d);
        vstd::arithmetic::div_mod::lemma_mod_bound(m, d);
        vstd::arithmetic::div_mod::lemma_div_pos_is_pos(m, d);
        assert(tdiv(p, d) == -(m / d));
        assert(d * tdiv(p, d) == -(d * (m / d))) by (nonlinear_arith)
            requires
                tdiv(p, d) == -(m / d),
        ;
        assert(p - d * tdiv(p, d) == -(m % d));
        assert(p * (p - d * tdiv(p, d)) >= 0) by (nonlinear_arith)
            requires
                p < 0,
                p - d * tdiv(p, d) <= 0,
        ;
        assert(tdiv(p, d) * p >= 0) by (nonlinear_arith)
            requires
                p < 0,
                tdiv(p, d) <= 0,
        ;
    }
}

/// Dividing an exact multiple of the divisor truncates nothing.
pub proof fn lemma_tdiv_exact(x: int, d: int)
    requires
        d > 0,
    ensures
        tdiv(x * d, d) == x,
{
    if x >= 0 {
        assert(x * d >= 0) by (nonlinear_arith)
            requires
                x >= 0,
                d > 0,
        ;
        vstd::arithmetic::div_mod::lemma_div_multiples_vanish(x, d);
        assert(d * x == x * d) by (nonlinear_arith);
    } else {
        assert(x * d < 0) by (nonlinear_arith)
            requires
                x < 0,
                d > 0,
        ;
        vstd::arithmetic::div_mod::lemma_div_multiples_vanish(-x, d);
        assert(d * (-x) == -(x * d)) by (nonlinear_arith);
    }
}

/// Fixed-point multiplication does not depend on the argument order.
pub proof fn lemma_fmul_comm(a: int, b: int)
    ensures
        fmul(a, b) == fmul(b, a),
{
    assert(a * b == b * a) by (nonlinear_arith);
}

/// Negating a fixed-point difference swaps its operands.
pub proof fn lemma_fneg_fsub(p: int, q: int)
    ensures
        fneg(fsub(p, q)) == fsub(q, p),
{
}

/// Truncating division by a positive divisor is monotonic in the
/// numerator.
pub proof fn lemma_tdiv_monotonic(x: int, y: int, d: int)
    requires
        x <= y,
        d > 0,
    ensures
        tdiv(x, d) <= tdiv(y, d),
{
    if x >= 0 {
        vstd::arithmetic::div_mod::lemma_div_is_ordered(x, y, d);
    } else if y < 0 {
        vstd::arithmetic::div_mod::lemma_div_is_ordered(-y, -x, d);
    } else {
        vstd::arithmetic::div_mod::lemma_div_pos_is_pos(-x, d);
        vstd::arithmetic::div_mod::lemma_div_pos_is_pos(y, d);
    }
}

/// Fixed-point division by a positive divisor is monotonic in the
/// numerator.
pub proof fn lemma_fdiv_monotonic(x: int, y: int, d: int)
    requires
        x <= y,
        d > 0,
    ensures
        fdiv(x, d) <= fdiv(y, d),
{
    lemma_tdiv_monotonic(x * FX_SCALE as int, y * FX_SCALE as int, d);
}

impl View for Fx {
    type V = int;

    open spec fn view(&self) -> int {
        self.raw as int
    }
}

/// Product of two machine words, widened so it cannot overflow.
fn wide_mul(a: i64, b: i64) -> (p: i128)
    ensures
        p as int == a as int * b as int,
        p != i128::MIN,
{
    proof {
        assert(((i128::MIN as int) < (a as int) * (b as int)) && ((a as int) * (b as int) < (
        i128::MAX as int))) by (nonlinear_arith)
            requires
                (i64::MIN as int) <= (a as int) <= (i64::MAX as int),
                (i64::MIN as int) <= (b as int) <= (i64::MAX as int),
        ;
    }
    a as i128 * b as i128
}

/// Truncating division of wide intermediates, computed on magnitudes so
/// that only unsigned hardware division is relied on.
fn tdiv_i128(a: i128, b: i128) -> (q: i128)
    requires
        b != 0,
        a != i128::MIN,
        b != i128::MIN,
    ensures
        q == tdiv(a as int, b as int),
{
    let ma: u128 = if a < 0 {
        (-a) as u128
    } else {
        a as u128
    };
    let mb: u128 = if b < 0 {
        (-b) as u128
    } else {
        b as u128
    };
    let mq: u128 = ma / mb;
    assert(mq <= ma);
    if (a < 0) == (b < 0) {
        mq as i128
    } else {
        -(mq as i128)
    }
}

/// Clamp a wide intermediate into the representable range.
fn sat_i128(x: i128) -> (r: Fx)
    ensures
        r@ == sat(x as int),
{
    if x > i64::MAX as i128 {
        Fx { raw: i64::MAX }
    } else if x < -(i64::MAX as i128) {
        Fx { raw: -i64::MAX }
    } else {
        Fx { raw: x as i64 }
    }
}

impl Fx {
    /// The scalar 0.
    pub fn zero() -> (r: Fx)
        ensures
            r@ == 0,
    {
        Fx { raw: 0 }
    }

    /// The scalar 1.
    pub fn one() -> (r: Fx)
        ensures
            r@ == FX_SCALE as int,
    {
        Fx { raw: FX_SCALE }
    }

    /// The greatest representable scalar; it plays the role of +infinity.
    pub fn max_value() -> (r: Fx)
        ensures
            r@ == fx_max(),
    {
        Fx { raw: i64::MAX }
    }

    /// The least representable scalar; it plays the role of -infinity.
    pub fn min_value() -> (r: Fx)
        ensures
            r@ == -fx_max(),
    {
        Fx { raw: -i64::MAX }
    }

    /// The scalar `n`.
    pub fn from_int(n: i64) -> (r: Fx)
        ensures
            r@ == sat(n * FX_SCALE as int),
    {
        let wide = wide_mul(n, FX_SCALE);
        sat_i128(wide)
    }

    /// The scalar `num / den`, truncated toward zero.
    pub fn from_ratio(num: i64, den: i64) -> (r: Fx)
        requires
            den != 0,
        ensures
            r@ == sat(tdiv(num * FX_SCALE as int, den as int)),
    {
        let wide = wide_mul(num, FX_SCALE);
        let q = tdiv_i128(wide, den as i128);
        sat_i128(q)
    }

    /// The integer part, truncated toward zero.
    pub fn to_int(self) -> (r: i64)
        ensures
            r as int == tdiv(self@, FX_SCALE as int),
    {
        let q = tdiv_i128(self.raw as i128, FX_SCALE as i128);
        q as i64
    }

    /// Negation (exact, since the representable range is symmetric).
    pub fn negate(self) -> (r: Fx)
        ensures
            r@ == fneg(self@),
    {
        if self.raw == i64::MIN {
            Fx { raw: i64::MAX }
        } else {
            Fx { raw: -self.raw }
        }
    }

    /// Absolute value.
    pub fn abs(self) -> (r: Fx)
        ensures
            r@ == sat(abs_i(self@)),
    {
        if self.raw < 0 {
            self.negate()
        } else {
            self
        }
    }

    /// Square root, rounded down to the nearest representable value.
    pub fn sqrt(self) -> (r: Fx)
        requires
            self@ >= 0,
        ensures
            r@ == fsqrt(self@),
            r@ >= 0,
    {
        proof {
            assert((1u128 << 84) == 19342813113834066795298816u128) by (bit_vector);
            assert((1u64 << 42) == 4398046511104u64) by (bit_vector);
            assert((self.raw as int) * (FX_SCALE as int) < 19342813113834066795298816int)
                by (nonlinear_arith)
                requires
                    0 <= (self.raw as int) <= (i64::MAX as int),
            ;
        }
        let n: u128 = self.raw as u128 * FX_SCALE as u128;
        assert((n as int) == self@ * (FX_SCALE as int));
        let s = isqrt_u128(n);
        proof {
            lemma_sqrt_floor_unique(n as int, s as int);
        }
        Fx { raw: s as i64 }
    }

    /// Strictly less than.
    pub fn lt(self, rhs: Fx) -> (r: bool)
        ensures
            r == (self@ < rhs@),
    {
        self.raw < rhs.raw
    }

    /// Less than or equal.
    pub fn le(self, rhs: Fx) -> (r: bool)
        ensures
            r == (self@ <= rhs@),
    {
        self.raw <= rhs.raw
    }

    /// Strictly greater than.
    pub fn gt(self, rhs: Fx) -> (r: bool)
        ensures
            r == (self@ > rhs@),
    {
        self.raw > rhs.raw
    }

    /// Greater than or equal.
    pub fn ge(self, rhs: Fx) -> (r: bool)
        ensures
            r == (self@ >= rhs@),
    {
        self.raw >= rhs.raw
    }
}

/// Square of a machine word, widened so it cannot overflow.
fn square_u64(x: u64) -> (r: u128)
    ensures
        (r as int) == (x as int) * (x as int),
{
    proof {
        assert((x as int) * (x as int) <= (u128::MAX as int)) by (nonlinear_arith)
            requires
                0 <= (x as int) <= (u64::MAX as int),
        ;
    }
    x as u128 * x as u128
}

/// Floor of the square root of a wide unsigned value, by binary search.
fn isqrt_u128(n: u128) -> (r: u64)
    requires
        n < (1u128 << 84),
    ensures
        (r as int) * (r as int) <= (n as int),
        (n as int) < ((r as int) + 1) * ((r as int) + 1),
        r < (1u64 << 42),
{
    proof {
        assert(((1u64 << 42) as int) * ((1u64 << 42) as int) == ((1u128 << 84) as int))
            by (bit_vector);
    }
    let mut lo: u64 = 0;
    let mut hi: u64 = 1u64 << 42;
    while lo + 1 < hi
        invariant
            lo < hi <= (1u64 << 42),
            (lo as int) * (lo as int) <= (n as int),
            (n as int) < (hi as int) * (hi as int),
        decreases hi - lo,
    {
        let mid = lo + (hi - lo) / 2;
        let sq = square_u64(mid);
        if sq <= n {
            lo = mid;
        } else {
            hi = mid;
        }
    }
    lo
}

impl std::ops::Add for Fx {
    type Output = Fx;

    /// `a + b` is saturating fixed-point addition.
    fn add(self, rhs: Fx) -> (r: Fx)
        ensures
            r@ == fadd(self@, rhs@),
    {
        let wide: i128 = self.raw as i128 + rhs.raw as i128;
        sat_i128(wide)
    }
}

impl vstd::std_specs::ops::AddSpecImpl for Fx {
    open spec fn obeys_add_spec() -> bool {
        true
    }

    open spec fn add_req(self, rhs: Fx) -> bool {
        true
    }

    open spec fn add_spec(self, rhs: Fx) -> Fx {
        Fx { raw: fadd(self@, rhs@) as i64 }
    }
}

impl std::ops::Sub for Fx {
    type Output = Fx;

    /// `a - b` is saturating fixed-point subtraction.
    fn sub(self, rhs: Fx) -> (r: Fx)
        ensures
            r@ == fsub(self@, rhs@),
    {
        let wide: i128 = self.raw as i128 - rhs.raw as i128;
        sat_i128(wide)
    }
}

impl vstd::std_specs::ops::SubSpecImpl for Fx {
    open spec fn obeys_sub_spec() -> bool {
        true
    }

    open spec fn sub_req(self, rhs: Fx) -> bool {
        true
    }

    open spec fn sub_spec(self, rhs: Fx) -> Fx {
        Fx { raw: fsub(self@, rhs@) as i64 }
    }
}

impl std::ops::Neg for Fx {
    type Output = Fx;

    /// `-a` is exact negation (the range is symmetric).
    fn neg(self) -> (r: Fx)
        ensures
            r@ == fneg(self@),
    {
        self.negate()
    }
}

impl vstd::std_specs::ops::NegSpecImpl for Fx {
    open spec fn obeys_neg_spec() -> bool {
        true
    }

    open spec fn neg_req(self) -> bool {
        true
    }

    open spec fn neg_spec(self) -> Fx {
        Fx { raw: fneg(self@) as i64 }
    }
}

impl std::ops::Mul for Fx {
    type Output = Fx;

    /// `a * b` is saturating fixed-point multiplication, truncated
    /// toward zero.
    fn mul(self, rhs: Fx) -> (r: Fx)
        ensures
            r@ == fmul(self@, rhs@),
    {
        let wide = wide_mul(self.raw, rhs.raw);
        let q = tdiv_i128(wide, FX_SCALE as i128);
        sat_i128(q)
    }
}

impl vstd::std_specs::ops::MulSpecImpl for Fx {
    open spec fn obeys_mul_spec() -> bool {
        true
    }

    open spec fn mul_req(self, rhs: Fx) -> bool {
        true
    }

    open spec fn mul_spec(self, rhs: Fx) -> Fx {
        Fx { raw: fmul(self@, rhs@) as i64 }
    }
}

impl std::ops::Div for Fx {
    type Output = Fx;

    /// `a / b` is saturating fixed-point division, truncated toward
    /// zero.  Division by zero is a programming error and is excluded
    /// statically.
    fn div(self, rhs: Fx) -> (r: Fx)
        ensures
            r@ == fdiv(self@, rhs@),
    {
        let wide = wide_mul(self.raw, FX_SCALE);
        let q = tdiv_i128(wide, rhs.raw as i128);
        sat_i128(q)
    }
}

impl vstd::std_specs::ops::DivSpecImpl for Fx {
    open spec fn obeys_div_spec() -> bool {
        true
    }

    open spec fn div_req(self, rhs: Fx) -> bool {
        rhs@ != 0
    }

    open spec fn div_spec(self, rhs: Fx) -> Fx {
        Fx { raw: fdiv(self@, rhs@) as i64 }
    }
}

} // verus!
