//! Rotation quaternions with fixed-point components.
//!
//! An orientation is a quaternion whose components are thousandths
//! (`fixp::SCALE` sub-units per unit), kept near unit length: its squared
//! norm stays inside [`UNIT_NORM_SQ_LO`, `UNIT_NORM_SQ_HI`]. Composition is
//! the Hamilton product scaled back to fixed point, followed by
//! renormalization with an integer square root.

use crate::fixp::{
    div_trunc, isqrt, lemma_sqrt_floor_bounds, lemma_tdiv_mag, lemma_tdiv_trunc, sqrt_floor, tdiv,
    SCALE,
};
use crate::vec3::Vec3Fx;
use vstd::math::abs;
use vstd::prelude::*;

verus! {

/// A rotation, stored as scalar part `w` and vector part `(x, y, z)`, each a
/// fixed-point value in thousandths.
#[derive(Clone, Copy, PartialEq, Eq, Structural, Debug)]
pub struct QuatFx {
    pub w: i64,
    pub x: i64,
    pub y: i64,
    pub z: i64,
}

/// Lower edge of the squared-norm band of a well-formed orientation
/// (the exact unit value is `SCALE * SCALE`).
pub const UNIT_NORM_SQ_LO: i64 = 990_000;

/// Upper edge of the squared-norm band of a well-formed orientation.
pub const UNIT_NORM_SQ_HI: i64 = 1_010_000;

/// Smallest squared norm that renormalization accepts.
pub const NORM_SQ_MIN: i64 = 250_000;

/// Largest squared norm that renormalization accepts.
pub const NORM_SQ_MAX: i64 = 4_000_000_000;

impl QuatFx {
    /// Squared norm.
    pub open spec fn norm_sq(self) -> int {
        self.w * self.w + self.x * self.x + self.y * self.y + self.z * self.z
    }

    /// Every component is at most `m` in magnitude.
    pub open spec fn bounded(self, m: int) -> bool {
        &&& -m <= self.w <= m
        &&& -m <= self.x <= m
        &&& -m <= self.y <= m
        &&& -m <= self.z <= m
    }
}

/// A well-formed orientation: unit length up to the fixed-point tolerance.
pub open spec fn is_unit(q: QuatFx) -> bool {
    UNIT_NORM_SQ_LO <= q.norm_sq() <= UNIT_NORM_SQ_HI
}

/// The identity rotation.
pub fn identity() -> (r: QuatFx)
    ensures
        r == (QuatFx { w: SCALE, x: 0, y: 0, z: 0 }),
        is_unit(r),
{
    let r = QuatFx { w: SCALE, x: 0, y: 0, z: 0 };
    proof {
        assert(r.norm_sq() == 1_000_000) by (nonlinear_arith)
            requires
                r.w == 1000 && r.x == 0 && r.y == 0 && r.z == 0,
        ;
    }
    r
}

/// A component of a near-unit quaternion is at most 1005 thousandths in
/// magnitude.
pub proof fn lemma_unit_bound(q: QuatFx)
    requires
        is_unit(q),
    ensures
        q.bounded(1005),
{
    assert(q.bounded(1005)) by (nonlinear_arith)
        requires
            q.w * q.w + q.x * q.x + q.y * q.y + q.z * q.z <= 1_010_000,
    ;
}

/// Scalar part of the Hamilton product, scaled back to thousandths.
pub open spec fn mul_w(a: QuatFx, b: QuatFx) -> int {
    tdiv(a.w * b.w - a.x * b.x - a.y * b.y - a.z * b.z, SCALE as int)
}

/// First vector component of the Hamilton product.
pub open spec fn mul_x(a: QuatFx, b: QuatFx) -> int {
    tdiv(a.w * b.x + a.x * b.w + a.y * b.z - a.z * b.y, SCALE as int)
}

/// Second vector component of the Hamilton product.
pub open spec fn mul_y(a: QuatFx, b: QuatFx) -> int {
    tdiv(a.w * b.y - a.x * b.z + a.y * b.w + a.z * b.x, SCALE as int)
}

/// Third vector component of the Hamilton product.
pub open spec fn mul_z(a: QuatFx, b: QuatFx) -> int {
    tdiv(a.w * b.z + a.x * b.y - a.y * b.x + a.z * b.w, SCALE as int)
}

/// Squared norm of the Hamilton product of `a` and `b`.
pub open spec fn mul_norm_sq(a: QuatFx, b: QuatFx) -> int {
    mul_w(a, b) * mul_w(a, b) + mul_x(a, b) * mul_x(a, b) + mul_y(a, b) * mul_y(a, b) + mul_z(
        a,
        b,
    ) * mul_z(a, b)
}

/// Hamilton product of two rotations, scaled back to fixed point.
fn quat_mul(a: &QuatFx, b: &QuatFx) -> (r: QuatFx)
    requires
        a.bounded(2000),
        b.bounded(2000),
    ensures
        r.w == mul_w(*a, *b),
        r.x == mul_x(*a, *b),
        r.y == mul_y(*a, *b),
        r.z == mul_z(*a, *b),
        r.bounded(16_000),
{
    proof {
        lemma_prod_bound(a.w as int, b.w as int);
        lemma_prod_bound(a.w as int, b.x as int);
        lemma_prod_bound(a.w as int, b.y as int);
        lemma_prod_bound(a.w as int, b.z as int);
        lemma_prod_bound(a.x as int, b.w as int);
        lemma_prod_bound(a.x as int, b.x as int);
        lemma_prod_bound(a.x as int, b.y as int);
        lemma_prod_bound(a.x as int, b.z as int);
        lemma_prod_bound(a.y as int, b.w as int);
        lemma_prod_bound(a.y as int, b.x as int);
        lemma_prod_bound(a.y as int, b.y as int);
        lemma_prod_bound(a.y as int, b.z as int);
        lemma_prod_bound(a.z as int, b.w as int);
        lemma_prod_bound(a.z as int, b.x as int);
        lemma_prod_bound(a.z as int, b.y as int);
        lemma_prod_bound(a.z as int, b.z as int);
    }
    let sw = a.w * b.w - a.x * b.x - a.y * b.y - a.z * b.z;
    let sx = a.w * b.x + a.x * b.w + a.y * b.z - a.z * b.y;
    let sy = a.w * b.y - a.x * b.z + a.y * b.w + a.z * b.x;
    let sz = a.w * b.z + a.x * b.y - a.y * b.x + a.z * b.w;
    proof {
        lemma_tdiv_mag(sw as int, SCALE as int, 16_000_000);
        lemma_tdiv_mag(sx as int, SCALE as int, 16_000_000);
        lemma_tdiv_mag(sy as int, SCALE as int, 16_000_000);
        lemma_tdiv_mag(sz as int, SCALE as int, 16_000_000);
    }
    QuatFx {
        w: div_trunc(sw, SCALE),
        x: div_trunc(sx, SCALE),
        y: div_trunc(sy, SCALE),
        z: div_trunc(sz, SCALE),
    }
}

/// Product of two factors of magnitude at most 2000 stays within four
/// millions.
proof fn lemma_prod_bound(a: int, b: int)
    requires
        -2000 <= a <= 2000,
        -2000 <= b <= 2000,
    ensures
        -4_000_000 <= a * b <= 4_000_000,
{
    assert(-4_000_000 <= a * b <= 4_000_000) by (nonlinear_arith)
        requires
            -2000 <= a <= 2000,
            -2000 <= b <= 2000,
    ;
}

/// Squared norm of a quaternion with moderate components.
pub fn norm_sq_i64(q: &QuatFx) -> (s: i64)
    requires
        q.bounded(1_000_000),
    ensures
        s == q.norm_sq(),
{
    proof {
        lemma_sq_bound(q.w as int);
        lemma_sq_bound(q.x as int);
        lemma_sq_bound(q.y as int);
        lemma_sq_bound(q.z as int);
    }
    q.w * q.w + q.x * q.x + q.y * q.y + q.z * q.z
}

/// Square of a factor of magnitude at most one million.
proof fn lemma_sq_bound(a: int)
    requires
        -1_000_000 <= a <= 1_000_000,
    ensures
        0 <= a * a <= 1_000_000_000_000,
{
    assert(0 <= a * a <= 1_000_000_000_000) by (nonlinear_arith)
        requires
            -1_000_000 <= a <= 1_000_000,
    ;
}

/// Decide whether a quaternion lies in the well-formed orientation band.
/// Total: any component too large to square safely is already out of band.
pub fn unit_check(q: &QuatFx) -> (b: bool)
    ensures
        b == is_unit(*q),
{
    if q.w > 2000 || q.w < -2000 || q.x > 2000 || q.x < -2000 || q.y > 2000 || q.y < -2000 || q.z
        > 2000 || q.z < -2000 {
        proof {
            lemma_big_comp_not_unit(*q);
        }
        false
    } else {
        let s = norm_sq_i64(q);
        UNIT_NORM_SQ_LO <= s && s <= UNIT_NORM_SQ_HI
    }
}

/// A component beyond 2000 thousandths puts the squared norm above the
/// orientation band.
proof fn lemma_big_comp_not_unit(q: QuatFx)
    requires
        abs(q.w as int) > 2000 || abs(q.x as int) > 2000 || abs(q.y as int) > 2000 || abs(
            q.z as int,
        ) > 2000,
    ensures
        !is_unit(q),
{
    assert(q.norm_sq() > 1_010_000) by (nonlinear_arith)
        requires
            q.w > 2000 || q.w < -2000 || q.x > 2000 || q.x < -2000 || q.y > 2000 || q.y < -2000
                || q.z > 2000 || q.z < -2000,
    ;
}

/// A renormalized component: the component scaled to thousandths of the
/// quaternion's own length.
pub open spec fn scaled_comp(c: int, s: int) -> int {
    tdiv(c * (SCALE as int), sqrt_floor(s as nat) as int)
}

/// Renormalize a quaternion whose squared norm lies in
/// [`NORM_SQ_MIN`, `NORM_SQ_MAX`]: divide each component, in thousandths, by
/// the integer square root of the squared norm. The result lands in the
/// well-formed orientation band.
pub fn normalize(q: &QuatFx) -> (r: QuatFx)
    requires
        NORM_SQ_MIN <= q.norm_sq() <= NORM_SQ_MAX,
    ensures
        r.w == scaled_comp(q.w as int, q.norm_sq()),
        r.x == scaled_comp(q.x as int, q.norm_sq()),
        r.y == scaled_comp(q.y as int, q.norm_sq()),
        r.z == scaled_comp(q.z as int, q.norm_sq()),
        is_unit(r),
{
    proof {
        lemma_norm_comp_bound(*q);
        lemma_sq_bound(q.w as int);
        lemma_sq_bound(q.x as int);
        lemma_sq_bound(q.y as int);
        lemma_sq_bound(q.z as int);
    }
    let s = q.w * q.w + q.x * q.x + q.y * q.y + q.z * q.z;
    let n = isqrt(s as u64);
    proof {
        assert(n <= 63_246) by (nonlinear_arith)
            requires
                n >= 0,
                n * n <= 4_000_000_000,
        ;
        lemma_sqrt_of_min(s as int, n as int);
    }
    let d = n as i64;
    let rw = div_trunc_scaled(q.w, d);
    let rx = div_trunc_scaled(q.x, d);
    let ry = div_trunc_scaled(q.y, d);
    let rz = div_trunc_scaled(q.z, d);
    let r = QuatFx { w: rw, x: rx, y: ry, z: rz };
    proof {
        lemma_normalize_unit(*q, n as int, rw as int, rx as int, ry as int, rz as int);
    }
    r
}

/// A component, scaled to thousandths, divided by the quaternion's length.
fn div_trunc_scaled(c: i64, d: i64) -> (r: i64)
    requires
        -100_000 <= c <= 100_000,
        d > 0,
    ensures
        r == tdiv(c * (SCALE as int), d as int),
{
    div_trunc(c * SCALE, d)
}

/// Components of a quaternion whose squared norm is at most `NORM_SQ_MAX`
/// are at most 63246 in magnitude.
proof fn lemma_norm_comp_bound(q: QuatFx)
    requires
        q.norm_sq() <= NORM_SQ_MAX,
    ensures
        q.bounded(63_246),
{
    assert(q.bounded(63_246)) by (nonlinear_arith)
        requires
            q.w * q.w + q.x * q.x + q.y * q.y + q.z * q.z <= 4_000_000_000,
    ;
}

/// The integer square root of a value at least `NORM_SQ_MIN` is at least 500.
proof fn lemma_sqrt_of_min(s: int, n: int)
    requires
        s >= NORM_SQ_MIN,
        n == sqrt_floor(s as nat),
    ensures
        n >= 500,
{
    lemma_sqrt_floor_bounds(s as nat);
    assert(n >= 500) by (nonlinear_arith)
        requires
            n >= 0,
            (n + 1) * (n + 1) > 250_000,
    ;
}

/// Renormalization lands in the well-formed orientation band: per component
/// the truncated quotient differs from the exact ratio by less than one, so
/// the squared norm of the result stays within one percent of the square of
/// `SCALE`.
proof fn lemma_normalize_unit(q: QuatFx, n: int, rw: int, rx: int, ry: int, rz: int)
    requires
        NORM_SQ_MIN <= q.norm_sq() <= NORM_SQ_MAX,
        n == sqrt_floor(q.norm_sq() as nat),
        rw == tdiv(q.w * (SCALE as int), n),
        rx == tdiv(q.x * (SCALE as int), n),
        ry == tdiv(q.y * (SCALE as int), n),
        rz == tdiv(q.z * (SCALE as int), n),
    ensures
        UNIT_NORM_SQ_LO <= rw * rw + rx * rx + ry * ry + rz * rz <= UNIT_NORM_SQ_HI,
{
    let s = q.norm_sq();
    lemma_sqrt_floor_bounds(s as nat);
    lemma_sqrt_of_min(s, n);
    assert(n * n <= s && s < (n + 1) * (n + 1));
    lemma_comp_le_norm(q);
    lemma_scaled_comp_bounds(q.w as int, n, s, rw);
    lemma_scaled_comp_bounds(q.x as int, n, s, rx);
    lemma_scaled_comp_bounds(q.y as int, n, s, ry);
    lemma_scaled_comp_bounds(q.z as int, n, s, rz);
    let t = rw * rw + rx * rx + ry * ry + rz * rz;
    assert(t >= 0) by (nonlinear_arith)
        requires
            t == rw * rw + rx * rx + ry * ry + rz * rz,
    ;
    // Upper edge: n^2 * t <= 1_000_000 * s <= 1_000_000 * (n^2 + 2n).
    assert(n * n * t <= 1_000_000 * s) by (nonlinear_arith)
        requires
            n * n * (rw * rw) <= 1_000_000 * (q.w * q.w),
            n * n * (rx * rx) <= 1_000_000 * (q.x * q.x),
            n * n * (ry * ry) <= 1_000_000 * (q.y * q.y),
            n * n * (rz * rz) <= 1_000_000 * (q.z * q.z),
            s == q.w * q.w + q.x * q.x + q.y * q.y + q.z * q.z,
            t == rw * rw + rx * rx + ry * ry + rz * rz,
    ;
    assert(t <= 1_004_000) by (nonlinear_arith)
        requires
            n >= 500,
            t >= 0,
            n * n * t <= 1_000_000 * s,
            s < (n + 1) * (n + 1),
    ;
    // Lower edge: 1_000_000 * s < n^2 * (t + 8004).
    assert(1_000_000 * s < n * n * (t + 8004)) by (nonlinear_arith)
        requires
            1_000_000 * (q.w * q.w) < n * n * (rw * rw) + n * n * (2 * 1000 + 1),
            1_000_000 * (q.x * q.x) < n * n * (rx * rx) + n * n * (2 * 1000 + 1),
            1_000_000 * (q.y * q.y) < n * n * (ry * ry) + n * n * (2 * 1000 + 1),
            1_000_000 * (q.z * q.z) < n * n * (rz * rz) + n * n * (2 * 1000 + 1),
            s == q.w * q.w + q.x * q.x + q.y * q.y + q.z * q.z,
            t == rw * rw + rx * rx + ry * ry + rz * rz,
    ;
    assert(t > 991_996) by (nonlinear_arith)
        requires
            n >= 500,
            1_000_000 * s < n * n * (t + 8004),
            n * n <= s,
    ;
}

/// The Hamilton product of `a` and `b` has a squared norm that
/// renormalization accepts.
pub open spec fn product_in_range(a: QuatFx, b: QuatFx) -> bool {
    NORM_SQ_MIN <= mul_norm_sq(a, b) <= NORM_SQ_MAX
}

/// Scalar part of the renormalized composition of `a` and `b`. A degenerate
/// product, which near-unit inputs never produce, leaves `a` unchanged.
pub open spec fn compose_w(a: QuatFx, b: QuatFx) -> int {
    if product_in_range(a, b) {
        scaled_comp(mul_w(a, b), mul_norm_sq(a, b))
    } else {
        a.w as int
    }
}

/// First vector component of the renormalized composition.
pub open spec fn compose_x(a: QuatFx, b: QuatFx) -> int {
    if product_in_range(a, b) {
        scaled_comp(mul_x(a, b), mul_norm_sq(a, b))
    } else {
        a.x as int
    }
}

/// Second vector component of the renormalized composition.
pub open spec fn compose_y(a: QuatFx, b: QuatFx) -> int {
    if product_in_range(a, b) {
        scaled_comp(mul_y(a, b), mul_norm_sq(a, b))
    } else {
        a.y as int
    }
}

/// Third vector component of the renormalized composition.
pub open spec fn compose_z(a: QuatFx, b: QuatFx) -> int {
    if product_in_range(a, b) {
        scaled_comp(mul_z(a, b), mul_norm_sq(a, b))
    } else {
        a.z as int
    }
}

/// The renormalized composition of `a` and `b`, as a quaternion value.
pub open spec fn compose_q(a: QuatFx, b: QuatFx) -> QuatFx {
    QuatFx {
        w: compose_w(a, b) as i64,
        x: compose_x(a, b) as i64,
        y: compose_y(a, b) as i64,
        z: compose_z(a, b) as i64,
    }
}

/// Components of the Hamilton product of two near-unit quaternions stay
/// within 4041 thousandths.
proof fn lemma_mul_comp_bounds(a: QuatFx, b: QuatFx)
    requires
        is_unit(a),
        is_unit(b),
    ensures
        -4041 <= mul_w(a, b) <= 4041,
        -4041 <= mul_x(a, b) <= 4041,
        -4041 <= mul_y(a, b) <= 4041,
        -4041 <= mul_z(a, b) <= 4041,
{
    lemma_unit_bound(a);
    lemma_unit_bound(b);
    lemma_mul_bound(a.w as int, b.w as int, 1005, 1005);
    lemma_mul_bound(a.w as int, b.x as int, 1005, 1005);
    lemma_mul_bound(a.w as int, b.y as int, 1005, 1005);
    lemma_mul_bound(a.w as int, b.z as int, 1005, 1005);
    lemma_mul_bound(a.x as int, b.w as int, 1005, 1005);
    lemma_mul_bound(a.x as int, b.x as int, 1005, 1005);
    lemma_mul_bound(a.x as int, b.y as int, 1005, 1005);
    lemma_mul_bound(a.x as int, b.z as int, 1005, 1005);
    lemma_mul_bound(a.y as int, b.w as int, 1005, 1005);
    lemma_mul_bound(a.y as int, b.x as int, 1005, 1005);
    lemma_mul_bound(a.y as int, b.y as int, 1005, 1005);
    lemma_mul_bound(a.y as int, b.z as int, 1005, 1005);
    lemma_mul_bound(a.z as int, b.w as int, 1005, 1005);
    lemma_mul_bound(a.z as int, b.x as int, 1005, 1005);
    lemma_mul_bound(a.z as int, b.y as int, 1005, 1005);
    lemma_mul_bound(a.z as int, b.z as int, 1005, 1005);
    lemma_tdiv_mag(a.w * b.w - a.x * b.x - a.y * b.y - a.z * b.z, SCALE as int, 4_040_100);
    lemma_tdiv_mag(a.w * b.x + a.x * b.w + a.y * b.z - a.z * b.y, SCALE as int, 4_040_100);
    lemma_tdiv_mag(a.w * b.y - a.x * b.z + a.y * b.w + a.z * b.x, SCALE as int, 4_040_100);
    lemma_tdiv_mag(a.w * b.z + a.x * b.y - a.y * b.x + a.z * b.w, SCALE as int, 4_040_100);
}

/// Composing two well-formed orientations yields a well-formed orientation:
/// renormalization lands in the unit band, and the degenerate fallback
/// keeps the first operand, which is already in it.
pub proof fn lemma_compose_unit(a: QuatFx, b: QuatFx)
    requires
        is_unit(a),
        is_unit(b),
    ensures
        is_unit(compose_q(a, b)),
{
    lemma_mul_comp_bounds(a, b);
    if product_in_range(a, b) {
        let p = QuatFx {
            w: mul_w(a, b) as i64,
            x: mul_x(a, b) as i64,
            y: mul_y(a, b) as i64,
            z: mul_z(a, b) as i64,
        };
        let s = p.norm_sq();
        assert(s == mul_norm_sq(a, b));
        let n = sqrt_floor(s as nat) as int;
        lemma_normalize_unit(
            p,
            n,
            tdiv(p.w * (SCALE as int), n),
            tdiv(p.x * (SCALE as int), n),
            tdiv(p.y * (SCALE as int), n),
            tdiv(p.z * (SCALE as int), n),
        );
        lemma_sqrt_of_min(s, n);
        lemma_tdiv_mag(p.w * (SCALE as int), n, 100_000_000);
        lemma_tdiv_mag(p.x * (SCALE as int), n, 100_000_000);
        lemma_tdiv_mag(p.y * (SCALE as int), n, 100_000_000);
        lemma_tdiv_mag(p.z * (SCALE as int), n, 100_000_000);
    }
}

/// Compose two near-unit rotations: Hamilton product, then renormalization.
/// The result is well formed again, so any sequence of compositions keeps
/// the orientation a unit quaternion up to the fixed-point tolerance.
pub fn compose_normalized(a: &QuatFx, b: &QuatFx) -> (r: QuatFx)
    requires
        is_unit(*a),
        is_unit(*b),
    ensures
        r == compose_q(*a, *b),
        is_unit(r),
{
    proof {
        lemma_unit_bound(*a);
        lemma_unit_bound(*b);
    }
    let p = quat_mul(a, b);
    let s = norm_sq_i64(&p);
    if NORM_SQ_MIN <= s && s <= NORM_SQ_MAX {
        normalize(&p)
    } else {
        *a
    }
}

/// Each squared component is at most the squared norm, so each component's
/// magnitude is at most the norm.
proof fn lemma_comp_le_norm(q: QuatFx)
    ensures
        q.w * q.w <= q.norm_sq(),
        q.x * q.x <= q.norm_sq(),
        q.y * q.y <= q.norm_sq(),
        q.z * q.z <= q.norm_sq(),
{
    assert(q.w * q.w >= 0 && q.x * q.x >= 0 && q.y * q.y >= 0 && q.z * q.z >= 0)
        by (nonlinear_arith);
}

/// Bounds of one renormalized component `r = tdiv(c * SCALE, n)` when
/// `c * c <= s < (n + 1) * (n + 1)`: its magnitude is at most 1000 and its
/// square, times `n` squared, brackets the square of the exact ratio.
proof fn lemma_scaled_comp_bounds(c: int, n: int, s: int, r: int)
    requires
        n >= 1,
        c * c <= s,
        s < (n + 1) * (n + 1),
        r == tdiv(c * 1000, n),
    ensures
        -1000 <= r <= 1000,
        n * n * (r * r) <= 1_000_000 * (c * c),
        1_000_000 * (c * c) < n * n * (r * r) + n * n * (2 * 1000 + 1),
{
    assert(-n <= c <= n) by (nonlinear_arith)
        requires
            c * c <= s,
            s < (n + 1) * (n + 1),
            n >= 0,
    ;
    lemma_tdiv_trunc(c * 1000, n);
    let a = abs(r) as int;
    let ac = abs(c) as int;
    assert(abs(c * 1000) == 1000 * ac) by (nonlinear_arith)
        requires
            ac == abs(c),
    ;
    assert(a * n <= 1000 * ac);
    assert(1000 * ac < (a + 1) * n);
    assert(a <= 1000) by (nonlinear_arith)
        requires
            a * n <= 1000 * ac,
            ac <= n,
            n >= 1,
            a >= 0,
    ;
    assert(a * a == r * r) by (nonlinear_arith)
        requires
            a == r || a == -r,
    ;
    assert(ac * ac == c * c) by (nonlinear_arith)
        requires
            ac == c || ac == -c,
    ;
    assert(n * n * (r * r) <= 1_000_000 * (c * c)) by (nonlinear_arith)
        requires
            a * n <= 1000 * ac,
            a >= 0,
            n >= 1,
            ac >= 0,
            a * a == r * r,
            ac * ac == c * c,
    ;
    assert(1_000_000 * (c * c) < n * n * (r * r) + n * n * (2 * a + 1)) by (nonlinear_arith)
        requires
            1000 * ac < (a + 1) * n,
            a >= 0,
            n >= 1,
            ac >= 0,
            a * a == r * r,
            ac * ac == c * c,
    ;
    assert(n * n * (2 * a + 1) <= n * n * (2 * 1000 + 1)) by (nonlinear_arith)
        requires
            a <= 1000,
            n >= 1,
    ;
}

/// Largest coordinate magnitude a vector handed to `rotate` may have.
pub const ROT_VEC_LIMIT: i64 = 1_000_000_000_000;

/// Twice the cross product of the rotation's vector part with `v`, first
/// coordinate, scaled back to thousandths.
pub open spec fn rot_tx(q: QuatFx, v: Vec3Fx) -> int {
    tdiv(2 * (q.y * v.z - q.z * v.y), SCALE as int)
}

/// Second coordinate of the doubled cross product.
pub open spec fn rot_ty(q: QuatFx, v: Vec3Fx) -> int {
    tdiv(2 * (q.z * v.x - q.x * v.z), SCALE as int)
}

/// Third coordinate of the doubled cross product.
pub open spec fn rot_tz(q: QuatFx, v: Vec3Fx) -> int {
    tdiv(2 * (q.x * v.y - q.y * v.x), SCALE as int)
}

/// First coordinate of `v` rotated by `q`:
/// `v + w t + (vector part of q) x t` with `t` the doubled cross product.
pub open spec fn rotate_x(q: QuatFx, v: Vec3Fx) -> int {
    v.x + tdiv(q.w * rot_tx(q, v), SCALE as int) + tdiv(
        q.y * rot_tz(q, v) - q.z * rot_ty(q, v),
        SCALE as int,
    )
}

/// Second coordinate of `v` rotated by `q`.
pub open spec fn rotate_y(q: QuatFx, v: Vec3Fx) -> int {
    v.y + tdiv(q.w * rot_ty(q, v), SCALE as int) + tdiv(
        q.z * rot_tx(q, v) - q.x * rot_tz(q, v),
        SCALE as int,
    )
}

/// Third coordinate of `v` rotated by `q`.
pub open spec fn rotate_z(q: QuatFx, v: Vec3Fx) -> int {
    v.z + tdiv(q.w * rot_tz(q, v), SCALE as int) + tdiv(
        q.x * rot_ty(q, v) - q.y * rot_tx(q, v),
        SCALE as int,
    )
}

/// Rotate a vector by a near-unit rotation quaternion, in fixed point.
pub fn rotate(q: &QuatFx, v: Vec3Fx) -> (r: Vec3Fx)
    requires
        is_unit(*q),
        v.bounded(ROT_VEC_LIMIT as int),
    ensures
        r.x == rotate_x(*q, v),
        r.y == rotate_y(*q, v),
        r.z == rotate_z(*q, v),
{
    proof {
        lemma_unit_bound(*q);
        lemma_mul_bound(q.y as int, v.z as int, 1005, ROT_VEC_LIMIT as int);
        lemma_mul_bound(q.z as int, v.y as int, 1005, ROT_VEC_LIMIT as int);
        lemma_mul_bound(q.z as int, v.x as int, 1005, ROT_VEC_LIMIT as int);
        lemma_mul_bound(q.x as int, v.z as int, 1005, ROT_VEC_LIMIT as int);
        lemma_mul_bound(q.x as int, v.y as int, 1005, ROT_VEC_LIMIT as int);
        lemma_mul_bound(q.y as int, v.x as int, 1005, ROT_VEC_LIMIT as int);
    }
    let tx = div_trunc(2 * (q.y * v.z - q.z * v.y), SCALE);
    let ty = div_trunc(2 * (q.z * v.x - q.x * v.z), SCALE);
    let tz = div_trunc(2 * (q.x * v.y - q.y * v.x), SCALE);
    proof {
        lemma_tdiv_mag(2 * (q.y * v.z - q.z * v.y), SCALE as int, 4_020_000_000_000_000);
        lemma_tdiv_mag(2 * (q.z * v.x - q.x * v.z), SCALE as int, 4_020_000_000_000_000);
        lemma_tdiv_mag(2 * (q.x * v.y - q.y * v.x), SCALE as int, 4_020_000_000_000_000);
        lemma_mul_bound(q.w as int, tx as int, 1005, 4_020_000_000_000);
        lemma_mul_bound(q.w as int, ty as int, 1005, 4_020_000_000_000);
        lemma_mul_bound(q.w as int, tz as int, 1005, 4_020_000_000_000);
        lemma_mul_bound(q.x as int, ty as int, 1005, 4_020_000_000_000);
        lemma_mul_bound(q.x as int, tz as int, 1005, 4_020_000_000_000);
        lemma_mul_bound(q.y as int, tx as int, 1005, 4_020_000_000_000);
        lemma_mul_bound(q.y as int, tz as int, 1005, 4_020_000_000_000);
        lemma_mul_bound(q.z as int, tx as int, 1005, 4_020_000_000_000);
        lemma_mul_bound(q.z as int, ty as int, 1005, 4_020_000_000_000);
    }
    let ax = div_trunc(q.w * tx, SCALE);
    let ay = div_trunc(q.w * ty, SCALE);
    let az = div_trunc(q.w * tz, SCALE);
    let bx = div_trunc(q.y * tz - q.z * ty, SCALE);
    let by = div_trunc(q.z * tx - q.x * tz, SCALE);
    let bz = div_trunc(q.x * ty - q.y * tx, SCALE);
    proof {
        lemma_tdiv_mag(q.w * tx, SCALE as int, 4_040_100_000_000_000);
        lemma_tdiv_mag(q.w * ty, SCALE as int, 4_040_100_000_000_000);
        lemma_tdiv_mag(q.w * tz, SCALE as int, 4_040_100_000_000_000);
        lemma_tdiv_mag(q.y * tz - q.z * ty, SCALE as int, 8_080_200_000_000_000);
        lemma_tdiv_mag(q.z * tx - q.x * tz, SCALE as int, 8_080_200_000_000_000);
        lemma_tdiv_mag(q.x * ty - q.y * tx, SCALE as int, 8_080_200_000_000_000);
    }
    Vec3Fx { x: v.x + ax + bx, y: v.y + ay + by, z: v.z + az + bz }
}

/// The product of two factors within the given magnitudes stays within
/// their product.
proof fn lemma_mul_bound(a: int, b: int, ma: int, mb: int)
    requires
        -ma <= a <= ma,
        -mb <= b <= mb,
    ensures
        -(ma * mb) <= a * b <= ma * mb,
{
    assert(-(ma * mb) <= a * b <= ma * mb) by (nonlinear_arith)
        requires
            -ma <= a <= ma,
            -mb <= b <= mb,
    ;
}

/// Rotating by the identity quaternion changes nothing: the doubled cross
/// product vanishes, and so do both correction terms.
pub proof fn lemma_rotate_identity(q: QuatFx, v: Vec3Fx)
    requires
        q == (QuatFx { w: SCALE, x: 0, y: 0, z: 0 }),
    ensures
        rotate_x(q, v) == v.x,
        rotate_y(q, v) == v.y,
        rotate_z(q, v) == v.z,
{
    vstd::arithmetic::div_mod::lemma_div_of0(SCALE as int);
    assert(rot_tx(q, v) == 0);
    assert(rot_ty(q, v) == 0);
    assert(rot_tz(q, v) == 0);
    assert(q.w * 0 == 0);
}

} // verus!
