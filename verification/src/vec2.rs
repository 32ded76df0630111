//! Fixed-point 2D vectors and the integer geometry the resolver is proved
//! against.
//!
//! Executable vectors carry `i64` components holding `config::UNIT`-scaled
//! coordinates; their view is a pair of unbounded integers, and every
//! executable operation is pinned to an exact integer formula on views.
//! Division rounds toward zero, so a scaled vector never grows past the
//! requested length — the fact the no-penetration and speed-bound arguments
//! rest on.

use vstd::arithmetic::div_mod::lemma_fundamental_div_mod;
use vstd::prelude::*;

use crate::config::MIN_NORMALIZE_NORM;
use crate::config::POS_LIMIT;
use crate::config::UNIT;

verus! {

/// Mathematical model of a vector: a pair of unbounded integers.
pub struct Vec2Model {
    pub x: int,
    pub y: int,
}

/// An executable fixed-point vector. Positions, displacements, directions
/// and surface normals are all carried in this type; directions and normals
/// are `UNIT`-scaled, so a unit direction has squared norm near
/// `UNIT * UNIT`.
#[derive(Clone, Copy, PartialEq, Eq, Structural, Debug)]
pub struct Vec2 {
    pub x: i64,
    pub y: i64,
}

impl View for Vec2 {
    type V = Vec2Model;

    open spec fn view(&self) -> Vec2Model {
        Vec2Model { x: self.x as int, y: self.y as int }
    }
}

/// Magnitude of an integer.
pub open spec fn iabs(a: int) -> int {
    if a < 0 {
        -a
    } else {
        a
    }
}

/// Quotient of `a` by `b`, rounded toward zero, the rounding of the
/// executable divisions below. For nonnegative operands it agrees with
/// Euclidean division.
pub open spec fn div_tz(a: int, b: int) -> int
    recommends
        b != 0,
{
    let q = iabs(a) / iabs(b);
    if (a < 0) == (b < 0) {
        q
    } else {
        -q
    }
}

/// Quotient of `a` by `b`, rounded away from zero, for nonnegative `a`.
pub open spec fn div_ceil(a: int, b: int) -> int
    recommends
        a >= 0,
        b > 0,
{
    (a + b - 1) / b
}

impl Vec2Model {
    /// Componentwise sum.
    pub open spec fn plus(self, o: Vec2Model) -> Vec2Model {
        Vec2Model { x: self.x + o.x, y: self.y + o.y }
    }

    /// Componentwise difference.
    pub open spec fn minus(self, o: Vec2Model) -> Vec2Model {
        Vec2Model { x: self.x - o.x, y: self.y - o.y }
    }

    /// Inner product.
    pub open spec fn dot(self, o: Vec2Model) -> int {
        self.x * o.x + self.y * o.y
    }

    /// The vector turned a quarter to the left; tangent to a surface whose
    /// normal is `self`.
    pub open spec fn perp(self) -> Vec2Model {
        Vec2Model { x: -self.y, y: self.x }
    }

    /// Squared Euclidean norm.
    pub open spec fn norm_sq(self) -> int {
        self.x * self.x + self.y * self.y
    }

    /// The displacement of length `len` along the `UNIT`-scaled direction
    /// `self`, each component rounded toward zero.
    pub open spec fn scaled(self, len: int) -> Vec2Model {
        Vec2Model { x: div_tz(self.x * len, UNIT as int), y: div_tz(self.y * len, UNIT as int) }
    }
}

/// Truncating division on machine integers, pinned to `div_tz`.
pub fn div_trunc(a: i64, b: i64) -> (q: i64)
    requires
        b != 0,
        a != i64::MIN,
        b != i64::MIN,
    ensures
        q == div_tz(a as int, b as int),
        iabs(q as int) <= iabs(a as int),
{
    let ua: u64 = if a >= 0 {
        a as u64
    } else {
        (-a) as u64
    };
    let ub: u64 = if b >= 0 {
        b as u64
    } else {
        (-b) as u64
    };
    let uq: u64 = ua / ub;
    assert(uq <= ua) by {
        lemma_fundamental_div_mod(ua as int, ub as int);
        assert(uq as int * ub as int <= ua as int) by (nonlinear_arith)
            requires
                ua as int == ub as int * (uq as int) + (ua as int % ub as int),
                0 <= ua as int % ub as int,
                ub as int >= 1,
                uq as int >= 0,
        ;
    };
    if (a < 0) == (b < 0) {
        uq as i64
    } else {
        -(uq as i64)
    }
}

impl Vec2 {
    /// The zero vector.
    pub fn zero() -> (r: Vec2)
        ensures
            r@.x == 0,
            r@.y == 0,
    {
        Vec2 { x: 0, y: 0 }
    }

    /// Componentwise sum.
    pub fn plus(self, o: Vec2) -> (r: Vec2)
        requires
            i64::MIN <= self@.x + o@.x <= i64::MAX,
            i64::MIN <= self@.y + o@.y <= i64::MAX,
        ensures
            r@ == self@.plus(o@),
    {
        Vec2 { x: self.x + o.x, y: self.y + o.y }
    }

    /// Componentwise difference.
    pub fn minus(self, o: Vec2) -> (r: Vec2)
        requires
            i64::MIN <= self@.x - o@.x <= i64::MAX,
            i64::MIN <= self@.y - o@.y <= i64::MAX,
        ensures
            r@ == self@.minus(o@),
    {
        Vec2 { x: self.x - o.x, y: self.y - o.y }
    }

    /// Inner product of two component-bounded vectors.
    pub fn dot(self, o: Vec2) -> (r: i64)
        requires
            iabs(self@.x) <= 0x80_0000,
            iabs(self@.y) <= 0x80_0000,
            iabs(o@.x) <= 0x80_0000,
            iabs(o@.y) <= 0x80_0000,
        ensures
            r == self@.dot(o@),
    {
        proof {
            lemma_mul_mag_bound(self@.x, o@.x, 0x80_0000, 0x80_0000);
            lemma_mul_mag_bound(self@.y, o@.y, 0x80_0000, 0x80_0000);
        }
        self.x * o.x + self.y * o.y
    }

    /// Squared Euclidean norm of a component-bounded vector.
    pub fn norm_sq(self) -> (r: i64)
        requires
            iabs(self@.x) <= 0x80_0000,
            iabs(self@.y) <= 0x80_0000,
        ensures
            r == self@.norm_sq(),
    {
        self.dot(self)
    }
}

/// Whether a position lies within the coordinate range the resolver
/// accepts.
pub open spec fn in_bounds(v: Vec2Model) -> bool {
    iabs(v.x) <= POS_LIMIT && iabs(v.y) <= POS_LIMIT
}

/// Whether a vector is too short to normalize: its direction would be
/// dominated by rounding.
pub open spec fn too_short(v: Vec2Model) -> bool {
    v.norm_sq() < (MIN_NORMALIZE_NORM * MIN_NORMALIZE_NORM) as int
}

/// Division toward zero of a nonnegative value stays nonnegative, and stays
/// at or below any `c` with `a <= b * c`.
pub proof fn lemma_div_tz_nonneg_le(a: int, b: int, c: int)
    requires
        0 <= a,
        0 < b,
        a <= b * c,
    ensures
        0 <= div_tz(a, b) <= c,
{
    lemma_fundamental_div_mod(a, b);
    vstd::arithmetic::div_mod::lemma_mod_division_less_than_divisor(a, b);
    let q = a / b;
    let rem = a % b;
    assert(0 <= q && q <= c) by (nonlinear_arith)
        requires
            a == b * q + rem,
            0 <= rem < b,
            0 < b,
            0 <= a,
            a <= b * c,
    ;
}

/// A componentwise box bound gives a squared-norm bound.
pub proof fn lemma_norm_sq_le_box(v: Vec2Model, mx: int, my: int)
    requires
        iabs(v.x) <= mx,
        iabs(v.y) <= my,
    ensures
        v.norm_sq() <= mx * mx + my * my,
{
    assert(v.x * v.x + v.y * v.y <= mx * mx + my * my) by (nonlinear_arith)
        requires
            -mx <= v.x <= mx,
            -my <= v.y <= my,
    ;
}

/// The magnitude of a product is the product of the magnitudes.
pub proof fn lemma_mul_mag_bound(a: int, b: int, ma: int, mb: int)
    requires
        iabs(a) <= ma,
        iabs(b) <= mb,
    ensures
        -(ma * mb) <= a * b <= ma * mb,
{
    assert(-(ma * mb) <= a * b <= ma * mb) by (nonlinear_arith)
        requires
            -ma <= a <= ma,
            -mb <= b <= mb,
    ;
}

/// A squared norm is never negative.
pub proof fn lemma_norm_sq_nonneg(v: Vec2Model)
    ensures
        v.norm_sq() >= 0,
{
    let vx = v.x;
    let vy = v.y;
    assert(vx * vx + vy * vy >= 0) by (nonlinear_arith);
}

/// Squaring is monotone on nonnegative integers.
pub proof fn lemma_sq_le_sq(u: int, v: int)
    requires
        0 <= u <= v,
    ensures
        u * u <= v * v,
{
    assert(u * u <= v * v) by (nonlinear_arith)
        requires
            0 <= u <= v,
    ;
}

/// A squared norm bounded by `m * m` bounds each component by `m`.
pub proof fn lemma_comp_le_norm(v: Vec2Model, m: int)
    requires
        v.norm_sq() <= m * m,
        m >= 0,
    ensures
        iabs(v.x) <= m,
        iabs(v.y) <= m,
{
    let vx = v.x;
    let vy = v.y;
    assert(-m <= vx <= m && -m <= vy <= m) by (nonlinear_arith)
        requires
            vx * vx + vy * vy <= m * m,
            m >= 0,
    ;
}

/// Division toward zero never grows a value: the quotient times the divisor
/// stays within the dividend, also after squaring.
pub proof fn lemma_div_tz_sq(a: int, b: int)
    requires
        b > 0,
    ensures
        iabs(div_tz(a, b)) * b <= iabs(a),
        div_tz(a, b) * div_tz(a, b) * (b * b) <= a * a,
{
    let mag = iabs(a);
    let q = mag / b;
    let t = div_tz(a, b);
    lemma_fundamental_div_mod(mag, b);
    vstd::arithmetic::div_mod::lemma_mod_division_less_than_divisor(mag, b);
    let rem = mag % b;
    assert(q >= 0 && q * b <= mag) by (nonlinear_arith)
        requires
            mag == b * q + rem,
            0 <= rem < b,
            b >= 1,
            mag >= 0,
    ;
    assert(t * t == q * q) by (nonlinear_arith)
        requires
            t == q || t == -q,
    ;
    assert(a * a == mag * mag) by (nonlinear_arith)
        requires
            mag == a || mag == -a,
    ;
    assert(q * q * (b * b) <= mag * mag) by (nonlinear_arith)
        requires
            0 <= q,
            0 < b,
            q * b <= mag,
    ;
}

/// Division toward zero leaves a remainder smaller than the divisor.
pub proof fn lemma_div_tz_remainder(a: int, b: int)
    requires
        b > 0,
    ensures
        iabs(a - div_tz(a, b) * b) < b,
{
    let mag = iabs(a);
    lemma_fundamental_div_mod(mag, b);
    vstd::arithmetic::div_mod::lemma_mod_division_less_than_divisor(mag, b);
    let q = mag / b;
    let rem = mag % b;
    let t = div_tz(a, b);
    if a >= 0 {
        assert(a - t * b == rem) by (nonlinear_arith)
            requires
                a == mag,
                t == q,
                mag == b * q + rem,
        ;
    } else {
        assert(a - t * b == -rem) by (nonlinear_arith)
            requires
                a == -mag,
                t == -q,
                mag == b * q + rem,
        ;
    }
}

/// Scaling a unit-or-shorter direction by a nonnegative length yields a
/// displacement no longer than that length.
#[verifier::rlimit(60)]
pub proof fn lemma_scaled_norm(v: Vec2Model, len: int)
    requires
        v.norm_sq() <= (UNIT * UNIT) as int,
        len >= 0,
    ensures
        v.scaled(len).norm_sq() <= len * len,
{
    let u = UNIT as int;
    let sx = div_tz(v.x * len, u);
    let sy = div_tz(v.y * len, u);
    lemma_div_tz_sq(v.x * len, u);
    lemma_div_tz_sq(v.y * len, u);
    assert(sx * sx * (u * u) <= (v.x * v.x) * (len * len)) by (nonlinear_arith)
        requires
            sx * sx * (u * u) <= (v.x * len) * (v.x * len),
    ;
    assert(sy * sy * (u * u) <= (v.y * v.y) * (len * len)) by (nonlinear_arith)
        requires
            sy * sy * (u * u) <= (v.y * len) * (v.y * len),
    ;
    let s2 = sx * sx + sy * sy;
    let n2 = v.x * v.x + v.y * v.y;
    assert(s2 * (u * u) <= n2 * (len * len)) by (nonlinear_arith)
        requires
            s2 == sx * sx + sy * sy,
            n2 == v.x * v.x + v.y * v.y,
            sx * sx * (u * u) <= (v.x * v.x) * (len * len),
            sy * sy * (u * u) <= (v.y * v.y) * (len * len),
    ;
    lemma_mul_cancel_le(s2, n2, u * u, len * len);
}

/// Cancelling a common positive factor across an inequality of products.
proof fn lemma_mul_cancel_le(s: int, n: int, c: int, l: int)
    requires
        s * c <= n * l,
        n <= c,
        0 <= l,
        0 < c,
    ensures
        s <= l,
{
    assert(s <= l) by (nonlinear_arith)
        requires
            s * c <= n * l,
            n <= c,
            0 <= l,
            0 < c,
    ;
}

/// Cancelling a strictly dominating positive factor across an inequality
/// of products.
proof fn lemma_mul_cancel_lt(s: int, n: int, p: int, u: int)
    requires
        s * p <= n * u,
        n < p,
        0 < p,
        0 < u,
        0 <= n,
    ensures
        s < u,
{
    assert(s < u) by (nonlinear_arith)
        requires
            s * p <= n * u,
            n < p,
            0 < p,
            0 < u,
            0 <= n,
    ;
}

/// Lagrange's identity on the plane: the squared inner product and the
/// squared cross product sum to the product of the squared norms.
#[verifier::rlimit(60)]
pub proof fn lemma_lagrange_identity(a: Vec2Model, b: Vec2Model)
    ensures
        a.dot(b) * a.dot(b) + (a.x * b.y - a.y * b.x) * (a.x * b.y - a.y * b.x) == a.norm_sq()
            * b.norm_sq(),
{
    let ax = a.x;
    let ay = a.y;
    let bx = b.x;
    let byy = b.y;
    let p = ax * bx;
    let q = ay * byy;
    let r = ax * byy;
    let s = ay * bx;
    assert((p + q) * (p + q) == p * p + 2 * (p * q) + q * q) by (nonlinear_arith);
    assert((r - s) * (r - s) == r * r - 2 * (r * s) + s * s) by (nonlinear_arith);
    assert(p * q == r * s) by (nonlinear_arith)
        requires
            p == ax * bx,
            q == ay * byy,
            r == ax * byy,
            s == ay * bx,
    ;
    let xx = ax * ax;
    let yy = ay * ay;
    let zz = bx * bx;
    let ww = byy * byy;
    assert(p * p == xx * zz && q * q == yy * ww && r * r == xx * ww && s * s == yy * zz) by (
    nonlinear_arith)
        requires
            p == ax * bx,
            q == ay * byy,
            r == ax * byy,
            s == ay * bx,
            xx == ax * ax,
            yy == ay * ay,
            zz == bx * bx,
            ww == byy * byy,
    ;
    assert((xx + yy) * (zz + ww) == xx * zz + xx * ww + yy * zz + yy * ww) by (nonlinear_arith);
}

/// Cauchy–Schwarz on the plane.
pub proof fn lemma_cauchy_schwarz(a: Vec2Model, b: Vec2Model)
    ensures
        a.dot(b) * a.dot(b) <= a.norm_sq() * b.norm_sq(),
{
    lemma_lagrange_identity(a, b);
    let cross = a.x * b.y - a.y * b.x;
    assert(cross * cross >= 0) by (nonlinear_arith);
}

/// The triangle inequality, in squared form: displacements bounded by `x`
/// and `y` compose to a displacement bounded by `x + y`.
pub proof fn lemma_triangle_sq(a: Vec2Model, b: Vec2Model, x: int, y: int)
    requires
        a.norm_sq() <= x * x,
        b.norm_sq() <= y * y,
        0 <= x,
        0 <= y,
    ensures
        a.plus(b).norm_sq() <= (x + y) * (x + y),
{
    lemma_cauchy_schwarz(a, b);
    lemma_norm_sq_nonneg(a);
    lemma_norm_sq_nonneg(b);
    let d = a.dot(b);
    let na = a.norm_sq();
    let nb = b.norm_sq();
    assert(d <= x * y) by (nonlinear_arith)
        requires
            d * d <= na * nb,
            0 <= na <= x * x,
            0 <= nb <= y * y,
            0 <= x,
            0 <= y,
    ;
    let ax = a.x;
    let ay = a.y;
    let bx = b.x;
    let byy = b.y;
    assert((ax + bx) * (ax + bx) + (ay + byy) * (ay + byy) <= (x + y) * (x + y)) by (
    nonlinear_arith)
        requires
            ax * ax + ay * ay <= x * x,
            bx * bx + byy * byy <= y * y,
            ax * bx + ay * byy <= x * y,
    ;
}

/// The integer square root: the largest integer whose square does not
/// exceed `n`.
pub open spec fn isqrt_spec(n: int) -> int
    decreases n,
{
    if n <= 0 {
        0
    } else {
        let r = isqrt_spec(n - 1);
        if (r + 1) * (r + 1) <= n {
            r + 1
        } else {
            r
        }
    }
}

/// `isqrt_spec` brackets its argument between consecutive squares.
pub proof fn lemma_isqrt_bracket(n: int)
    requires
        n >= 0,
    ensures
        isqrt_spec(n) >= 0,
        isqrt_spec(n) * isqrt_spec(n) <= n,
        n < (isqrt_spec(n) + 1) * (isqrt_spec(n) + 1),
    decreases n,
{
    if n == 0 {
        assert(isqrt_spec(0) == 0);
    } else {
        lemma_isqrt_bracket(n - 1);
        let p = isqrt_spec(n - 1);
        let r = isqrt_spec(n);
        if (p + 1) * (p + 1) <= n {
            assert(r == p + 1);
            assert(n < (r + 1) * (r + 1)) by (nonlinear_arith)
                requires
                    r == p + 1,
                    p >= 0,
                    n - 1 < (p + 1) * (p + 1),
            ;
        } else {
            assert(r == p);
        }
    }
}

/// Any integer bracketed between consecutive squares of `r` identifies `r`
/// as the integer square root.
pub proof fn lemma_isqrt_unique(n: int, r: int)
    requires
        n >= 0,
        r >= 0,
        r * r <= n,
        n < (r + 1) * (r + 1),
    ensures
        r == isqrt_spec(n),
{
    lemma_isqrt_bracket(n);
    let s = isqrt_spec(n);
    if r < s {
        assert(false) by (nonlinear_arith)
            requires
                0 <= r < s,
                s * s <= n,
                n < (r + 1) * (r + 1),
        ;
    }
    if s < r {
        assert(false) by (nonlinear_arith)
            requires
                0 <= s < r,
                r * r <= n,
                n < (s + 1) * (s + 1),
        ;
    }
}

/// The unit-scaled direction of `v`: each component is multiplied by `UNIT`
/// and divided, toward zero, by one more than the integer square root of
/// the squared norm. Dividing by that upper bound of the true norm keeps
/// the result strictly inside the unit disc.
pub open spec fn normalized_spec(v: Vec2Model) -> Vec2Model {
    let root = isqrt_spec(v.norm_sq());
    Vec2Model {
        x: div_tz(v.x * (UNIT as int), root + 1),
        y: div_tz(v.y * (UNIT as int), root + 1),
    }
}

/// A normalized vector lies strictly inside the fixed-point unit disc.
pub proof fn lemma_normalized_norm(v: Vec2Model)
    ensures
        normalized_spec(v).norm_sq() < (UNIT * UNIT) as int,
{
    lemma_norm_sq_nonneg(v);
    let u = UNIT as int;
    let nsq = v.norm_sq();
    lemma_isqrt_bracket(nsq);
    let root = isqrt_spec(nsq);
    let dx = div_tz(v.x * u, root + 1);
    let dy = div_tz(v.y * u, root + 1);
    lemma_div_tz_sq(v.x * u, root + 1);
    lemma_div_tz_sq(v.y * u, root + 1);
    let p = root + 1;
    assert(dx * dx * (p * p) <= (v.x * v.x) * (u * u)) by (nonlinear_arith)
        requires
            dx * dx * (p * p) <= (v.x * u) * (v.x * u),
    ;
    assert(dy * dy * (p * p) <= (v.y * v.y) * (u * u)) by (nonlinear_arith)
        requires
            dy * dy * (p * p) <= (v.y * u) * (v.y * u),
    ;
    let s2 = dx * dx + dy * dy;
    assert(s2 * (p * p) <= nsq * (u * u)) by (nonlinear_arith)
        requires
            s2 == dx * dx + dy * dy,
            nsq == v.x * v.x + v.y * v.y,
            dx * dx * (p * p) <= (v.x * v.x) * (u * u),
            dy * dy * (p * p) <= (v.y * v.y) * (u * u),
    ;
    assert(p * p > 0) by (nonlinear_arith)
        requires
            p >= 1,
    ;
    assert(u * u > 0) by (nonlinear_arith)
        requires
            u > 1,
    ;
    lemma_mul_cancel_lt(s2, nsq, p * p, u * u);
}

impl Vec2 {
    /// The displacement of length `len` along the unit-or-shorter direction
    /// `self`, componentwise, rounded toward zero.
    pub fn scaled(self, len: i64) -> (r: Vec2)
        requires
            self@.norm_sq() <= (UNIT * UNIT) as int,
            0 <= len <= 0x4000_0000,
        ensures
            r@ == self@.scaled(len as int),
            r@.norm_sq() <= (len as int) * (len as int),
    {
        proof {
            lemma_comp_le_norm(self@, UNIT as int);
            lemma_mul_mag_bound(self@.x, len as int, UNIT as int, 0x4000_0000);
            lemma_mul_mag_bound(self@.y, len as int, UNIT as int, 0x4000_0000);
            lemma_scaled_norm(self@, len as int);
        }
        Vec2 { x: div_trunc(self.x * len, UNIT), y: div_trunc(self.y * len, UNIT) }
    }

    /// The integer square root of a bounded nonnegative machine integer.
    pub fn isqrt(n: i64) -> (r: i64)
        requires
            0 <= n <= 0x1_0000_0000_0000,
        ensures
            r == isqrt_spec(n as int),
            0 <= r <= 0x100_0000,
            r * r <= n,
            n < (r + 1) * (r + 1),
    {
        let mut r: i64 = 0;
        while (r + 1) * (r + 1) <= n
            invariant
                0 <= r <= 0x100_0000,
                r * r <= n as int,
                0 <= n <= 0x1_0000_0000_0000,
                (r + 1) * (r + 1) <= 0x4_0000_0000_0000,
            decreases 0x100_0000 - r,
        {
            proof {
                assert(r + 1 <= 0x100_0000 && (r + 2) * (r + 2) <= 0x4_0000_0000_0000) by (
                nonlinear_arith)
                    requires
                        0 <= r,
                        (r + 1) * (r + 1) <= 0x1_0000_0000_0000,
                ;
            }
            r = r + 1;
        }
        proof {
            lemma_isqrt_unique(n as int, r as int);
        }
        r
    }

    /// The fixed-point unit direction of `self`, or `None` when `self` is
    /// too short for its direction to be meaningful.
    pub fn try_normalize(self) -> (r: Option<Vec2>)
        requires
            iabs(self@.x) <= 0x80_0000,
            iabs(self@.y) <= 0x80_0000,
        ensures
            match r {
                None => self@.norm_sq() < (MIN_NORMALIZE_NORM * MIN_NORMALIZE_NORM) as int,
                Some(d) => {
                    &&& self@.norm_sq() >= (MIN_NORMALIZE_NORM * MIN_NORMALIZE_NORM) as int
                    &&& d@ == normalized_spec(self@)
                    &&& d@.norm_sq() < (UNIT * UNIT) as int
                },
            },
    {
        proof {
            lemma_norm_sq_nonneg(self@);
            lemma_mul_mag_bound(self@.x, self@.x, 0x80_0000, 0x80_0000);
            lemma_mul_mag_bound(self@.y, self@.y, 0x80_0000, 0x80_0000);
        }
        let nsq = self.norm_sq();
        if nsq < MIN_NORMALIZE_NORM * MIN_NORMALIZE_NORM {
            return None;
        }
        let root = Vec2::isqrt(nsq);
        proof {
            lemma_mul_mag_bound(self@.x, UNIT as int, 0x80_0000, UNIT as int);
            lemma_mul_mag_bound(self@.y, UNIT as int, 0x80_0000, UNIT as int);
            lemma_normalized_norm(self@);
        }
        let dx = div_trunc(self.x * UNIT, root + 1);
        let dy = div_trunc(self.y * UNIT, root + 1);
        Some(Vec2 { x: dx, y: dy })
    }
}

} // verus!
