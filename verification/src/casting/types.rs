use super::constants::{INFINITY, MAX_COORD, SCALE};
use super::math::{div_trunc, isqrt, sqrt_floor, tdiv};
use vstd::arithmetic::div_mod::{
    lemma_div_is_ordered, lemma_div_multiples_vanish, lemma_div_pos_is_pos,
};
use vstd::arithmetic::mul::lemma_mul_inequality;
use vstd::prelude::*;

verus! {

/// A 2D vector in fixed-point world coordinates: each component holds the
/// world value times `SCALE`.
#[derive(Clone, Copy, PartialEq, Eq, Structural, Debug)]
pub struct Vector {
    pub x: i64,
    pub y: i64,
}

/// Both components of `v` are within `b` of zero.
pub open spec fn bounded(v: Vector, b: int) -> bool {
    &&& -b <= v.x <= b
    &&& -b <= v.y <= b
}

/// A component beyond the `INFINITY` sentinel is pulled back to it.
pub open spec fn clamp_infinite(n: int) -> int {
    if n > INFINITY {
        INFINITY as int
    } else if n < -INFINITY {
        -(INFINITY as int)
    } else {
        n
    }
}

/// Dot product of `a` and `b` before rescaling by `SCALE`.
pub open spec fn spec_dot(a: Vector, b: Vector) -> int {
    a.x * b.x + a.y * b.y
}

/// 2D scalar cross product of `a` and `b` before rescaling by `SCALE`.
pub open spec fn spec_cross(a: Vector, b: Vector) -> int {
    a.x * b.y - a.y * b.x
}

/// Squared magnitude of `v` before rescaling by `SCALE * SCALE`.
pub open spec fn norm_sq(v: Vector) -> int {
    v.x * v.x + v.y * v.y
}

/// The x component of `v` rescaled to unit length, rounded toward zero.
pub open spec fn normalized_x(v: Vector) -> int {
    tdiv(v.x * SCALE, sqrt_floor(norm_sq(v)))
}

/// The y component of `v` rescaled to unit length, rounded toward zero.
pub open spec fn normalized_y(v: Vector) -> int {
    tdiv(v.y * SCALE, sqrt_floor(norm_sq(v)))
}

/// The x component of `v` rotated by the angle whose cosine is `c / SCALE`
/// and whose sine is `s / SCALE`.
pub open spec fn rotated_x(v: Vector, c: int, s: int) -> int {
    tdiv(v.x * c - v.y * s, SCALE as int)
}

/// The y component of `v` rotated by the angle whose cosine is `c / SCALE`
/// and whose sine is `s / SCALE`.
pub open spec fn rotated_y(v: Vector, c: int, s: int) -> int {
    tdiv(v.x * s + v.y * c, SCALE as int)
}

/// A quotient of a product `x * s` by `l` stays within `s` when `|x| <= l`.
pub proof fn lemma_tdiv_scaled_bound(x: int, l: int, s: int)
    requires
        1 <= l,
        0 <= s,
        -l <= x <= l,
    ensures
        -s <= tdiv(x * s, l) <= s,
{
    if x >= 0 {
        lemma_mul_inequality(x, l, s);
        lemma_div_pos_is_pos(x * s, l);
        lemma_div_is_ordered(x * s, l * s, l);
        lemma_div_multiples_vanish(s, l);
        assert(l * s == s * l) by (nonlinear_arith);
    } else {
        assert((-x) * s == -(x * s)) by (nonlinear_arith);
        lemma_mul_inequality(-x, l, s);
        lemma_div_pos_is_pos((-x) * s, l);
        lemma_div_is_ordered((-x) * s, l * s, l);
        lemma_div_multiples_vanish(s, l);
        assert(l * s == s * l) by (nonlinear_arith);
    }
}

impl Vector {
    /// A vector with the given fixed-point components, sanitized so that no
    /// component lies beyond the `INFINITY` sentinel.
    pub fn new(x: i64, y: i64) -> (v: Self)
        ensures
            v.x == clamp_infinite(x as int),
            v.y == clamp_infinite(y as int),
    {
        let mut v = Vector { x, y };
        v.handle_infinite();
        v
    }

    /// Rotates the vector by the angle whose cosine and sine, scaled by
    /// `SCALE`, are `cos_a` and `sin_a`, using the 2D rotation matrix.
    pub fn rotate(&mut self, cos_a: i64, sin_a: i64)
        requires
            bounded(*old(self), MAX_COORD as int),
            -SCALE <= cos_a <= SCALE,
            -SCALE <= sin_a <= SCALE,
        ensures
            final(self).x == rotated_x(*old(self), cos_a as int, sin_a as int),
            final(self).y == rotated_y(*old(self), cos_a as int, sin_a as int),
    {
        proof {
            let xi = old(self).x as int;
            let yi = old(self).y as int;
            assert(-2_000_000_000_000_000int <= xi * cos_a <= 2_000_000_000_000_000int
                && -2_000_000_000_000_000int <= yi * sin_a <= 2_000_000_000_000_000int
                && -2_000_000_000_000_000int <= xi * sin_a <= 2_000_000_000_000_000int
                && -2_000_000_000_000_000int <= yi * cos_a <= 2_000_000_000_000_000int)
                by (nonlinear_arith)
                requires
                    -(MAX_COORD as int) <= xi <= MAX_COORD as int,
                    -(MAX_COORD as int) <= yi <= MAX_COORD as int,
                    -(SCALE as int) <= cos_a <= SCALE as int,
                    -(SCALE as int) <= sin_a <= SCALE as int,
            ;
        }
        let x = self.x;
        self.x = div_trunc(self.x * cos_a - self.y * sin_a, SCALE);
        self.y = div_trunc(x * sin_a + self.y * cos_a, SCALE);
    }

    /// Scales the vector to unit length (magnitude `SCALE`), rounding each
    /// component toward zero; the zero vector is excluded by precondition.
    pub fn normalize(&mut self)
        requires
            bounded(*old(self), MAX_COORD as int),
            !(old(self).x == 0 && old(self).y == 0),
        ensures
            final(self).x == normalized_x(*old(self)),
            final(self).y == normalized_y(*old(self)),
            bounded(*final(self), SCALE as int),
    {
        proof {
            let xi = old(self).x as int;
            let yi = old(self).y as int;
            assert(0 <= xi * xi + yi * yi <= 8_000_000_000_000_000_000int && (xi != 0 ==> xi * xi
                >= 1) && (yi != 0 ==> yi * yi >= 1) && xi * xi >= 0 && yi * yi >= 0)
                by (nonlinear_arith)
                requires
                    -(MAX_COORD as int) <= xi <= MAX_COORD as int,
                    -(MAX_COORD as int) <= yi <= MAX_COORD as int,
            ;
        }
        let m = (self.x * self.x + self.y * self.y) as u64;
        let l64 = isqrt(m);
        proof {
            assert(l64 as int * (l64 as int) <= m as int);
            assert(l64 < 0x1_0000_0000u64) by (nonlinear_arith)
                requires
                    l64 as int * (l64 as int) <= m as int,
                    m as int <= 8_000_000_000_000_000_000int,
            ;
            if l64 == 0 {
                assert((m as int) < (0 + 1) * (0 + 1));
            }
            assert(l64 >= 1);
        }
        let l = l64 as i64;
        proof {
            let v = *old(self);
            let xi = v.x as int;
            let yi = v.y as int;
            let li = l as int;
            assert(-li <= xi <= li && -li <= yi <= li) by (nonlinear_arith)
                requires
                    li >= 1,
                    li * li <= xi * xi + yi * yi,
                    xi * xi + yi * yi < (li + 1) * (li + 1),
            ;
            lemma_tdiv_scaled_bound(xi, li, SCALE as int);
            lemma_tdiv_scaled_bound(yi, li, SCALE as int);
            assert(-2_000_000_000_000_000int <= xi * SCALE <= 2_000_000_000_000_000int
                && -2_000_000_000_000_000int <= yi * SCALE <= 2_000_000_000_000_000int)
                by (nonlinear_arith)
                requires
                    -(MAX_COORD as int) <= xi <= MAX_COORD as int,
                    -(MAX_COORD as int) <= yi <= MAX_COORD as int,
            ;
        }
        self.x = div_trunc(self.x * SCALE, l);
        self.y = div_trunc(self.y * SCALE, l);
    }

    /// 2D scalar cross product, in fixed-point world units: zero exactly when
    /// the two vectors are parallel.
    pub fn cross_product(&self, vector: Self) -> (r: i64)
        requires
            bounded(*self, MAX_COORD as int),
            bounded(vector, MAX_COORD as int),
        ensures
            r == tdiv(spec_cross(*self, vector), SCALE as int),
    {
        proof {
            lemma_product_bounds(self.x as int, vector.y as int);
            lemma_product_bounds(self.y as int, vector.x as int);
        }
        div_trunc(self.x * vector.y - self.y * vector.x, SCALE)
    }

    /// Scalar dot product, in fixed-point world units: zero exactly when the
    /// two vectors are perpendicular.
    pub fn dot_product(&self, vector: Self) -> (r: i64)
        requires
            bounded(*self, MAX_COORD as int),
            bounded(vector, MAX_COORD as int),
        ensures
            r == tdiv(spec_dot(*self, vector), SCALE as int),
    {
        proof {
            lemma_product_bounds(self.x as int, vector.x as int);
            lemma_product_bounds(self.y as int, vector.y as int);
        }
        div_trunc(self.x * vector.x + self.y * vector.y, SCALE)
    }

    /// Pulls any component lying beyond the `INFINITY` sentinel back to the
    /// sentinel, so that later arithmetic stays well-ordered and finite.
    pub fn handle_infinite(&mut self)
        ensures
            final(self).x == clamp_infinite(old(self).x as int),
            final(self).y == clamp_infinite(old(self).y as int),
    {
        self.x = if self.x > INFINITY {
            INFINITY
        } else if self.x < -INFINITY {
            -INFINITY
        } else {
            self.x
        };
        self.y = if self.y > INFINITY {
            INFINITY
        } else if self.y < -INFINITY {
            -INFINITY
        } else {
            self.y
        };
    }
}

/// Law: the cross product of parallel vectors is zero — exactly, not within
/// a tolerance: a vector and any integer multiple of it.
pub proof fn lemma_cross_parallel_is_zero(v: Vector, w: Vector, k: int)
    requires
        w.x == k * v.x,
        w.y == k * v.y,
    ensures
        spec_cross(v, w) == 0,
        tdiv(spec_cross(v, w), SCALE as int) == 0,
{
    let xi = v.x as int;
    let yi = v.y as int;
    assert(xi * (k * yi) - yi * (k * xi) == 0) by (nonlinear_arith);
    super::math::lemma_tdiv_exact(0, SCALE as int);
}

/// Law: the dot product of perpendicular vectors is zero — exactly: a vector
/// and any integer multiple of its quarter turn.
pub proof fn lemma_dot_perpendicular_is_zero(v: Vector, w: Vector, k: int)
    requires
        w.x == k * -(v.y as int),
        w.y == k * v.x,
    ensures
        spec_dot(v, w) == 0,
        tdiv(spec_dot(v, w), SCALE as int) == 0,
{
    let xi = v.x as int;
    let yi = v.y as int;
    assert(xi * (k * -yi) + yi * (k * xi) == 0) by (nonlinear_arith);
    super::math::lemma_tdiv_exact(0, SCALE as int);
}

/// Law: rotation preserves the squared magnitude — exactly, whenever the
/// scaled cosine and sine lie on the unit circle and the rotation rounds
/// nothing away. (With rounding the magnitude can drift by a few fixed-point
/// units, so the exact statement asks for exact divisions.)
pub proof fn lemma_rotate_preserves_magnitude(v: Vector, c: int, s: int)
    requires
        c * c + s * s == SCALE * SCALE,
        (v.x * c - v.y * s) % (SCALE as int) == 0,
        (v.x * s + v.y * c) % (SCALE as int) == 0,
    ensures
        rotated_x(v, c, s) * rotated_x(v, c, s) + rotated_y(v, c, s) * rotated_y(v, c, s)
            == norm_sq(v),
{
    let xi = v.x as int;
    let yi = v.y as int;
    let a = xi * c - yi * s;
    let b = xi * s + yi * c;
    super::math::lemma_tdiv_exact(a, SCALE as int);
    super::math::lemma_tdiv_exact(b, SCALE as int);
    let a1 = rotated_x(v, c, s);
    let b1 = rotated_y(v, c, s);
    lemma_rotation_square_identity(xi, yi, c, s);
    assert(a * a + b * b == (xi * xi + yi * yi) * (SCALE * SCALE));
    lemma_scale_product(a1, a1);
    lemma_scale_product(b1, b1);
    assert(a * a == (1_000_000int * a1) * (1_000_000int * a1));
    assert(b * b == (1_000_000int * b1) * (1_000_000int * b1));
    assert(1_000_000_000_000int * (a1 * a1) + 1_000_000_000_000int * (b1 * b1)
        == 1_000_000_000_000int * (a1 * a1 + b1 * b1));
    assert((xi * xi + yi * yi) * (SCALE * SCALE) == 1_000_000_000_000int * (xi * xi + yi * yi))
        by (nonlinear_arith);
    assert(1_000_000_000_000int * (a1 * a1 + b1 * b1) == 1_000_000_000_000int * (xi * xi + yi
        * yi));
}

/// The rotation matrix keeps the squared magnitude up to the circle factor:
/// `(xc - ys)^2 + (xs + yc)^2 == (x^2 + y^2)(c^2 + s^2)`.
proof fn lemma_rotation_square_identity(x: int, y: int, c: int, s: int)
    ensures
        (x * c - y * s) * (x * c - y * s) + (x * s + y * c) * (x * s + y * c) == (x * x + y * y)
            * (c * c + s * s),
{
    let u = x * c;
    let v = y * s;
    let w = x * s;
    let z = y * c;
    assert((u - v) * (u - v) == u * u - 2 * (u * v) + v * v) by (nonlinear_arith);
    assert((w + z) * (w + z) == w * w + 2 * (w * z) + z * z) by (nonlinear_arith);
    assert(u * v == w * z) by (nonlinear_arith)
        requires
            u == x * c,
            v == y * s,
            w == x * s,
            z == y * c,
    ;
    assert((x * x + y * y) * (c * c + s * s) == (x * x) * (c * c) + (x * x) * (s * s) + (y * y)
        * (c * c) + (y * y) * (s * s)) by (nonlinear_arith);
    assert(u * u == (x * x) * (c * c)) by (nonlinear_arith)
        requires
            u == x * c,
    ;
    assert(v * v == (y * y) * (s * s)) by (nonlinear_arith)
        requires
            v == y * s,
    ;
    assert(w * w == (x * x) * (s * s)) by (nonlinear_arith)
        requires
            w == x * s,
    ;
    assert(z * z == (y * y) * (c * c)) by (nonlinear_arith)
        requires
            z == y * c,
    ;
}

/// Pulling the two `SCALE` factors out of a product of two scaled numbers.
proof fn lemma_scale_product(a: int, b: int)
    ensures
        (1_000_000int * a) * (1_000_000int * b) == 1_000_000_000_000int * (a * b),
{
    assert((1_000_000int * a) * (1_000_000int * b) == 1_000_000_000_000int * (a * b))
        by (nonlinear_arith);
}

/// Law: a turn without rounding keeps an exactly perpendicular pair — such
/// as a facing direction and its camera plane — exactly perpendicular.
pub proof fn lemma_turn_preserves_perpendicular(
    d: Vector,
    p: Vector,
    dw: Vector,
    pw: Vector,
    c: int,
    s: int,
)
    requires
        c * c + s * s == SCALE * SCALE,
        spec_dot(d, p) == 0,
        (d.x * c - d.y * s) % (SCALE as int) == 0,
        (d.x * s + d.y * c) % (SCALE as int) == 0,
        (p.x * c - p.y * s) % (SCALE as int) == 0,
        (p.x * s + p.y * c) % (SCALE as int) == 0,
        dw.x == rotated_x(d, c, s),
        dw.y == rotated_y(d, c, s),
        pw.x == rotated_x(p, c, s),
        pw.y == rotated_y(p, c, s),
    ensures
        spec_dot(dw, pw) == 0,
{
    let da = d.x * c - d.y * s;
    let db = d.x * s + d.y * c;
    let pa = p.x * c - p.y * s;
    let pb = p.x * s + p.y * c;
    super::math::lemma_tdiv_exact(da, SCALE as int);
    super::math::lemma_tdiv_exact(db, SCALE as int);
    super::math::lemma_tdiv_exact(pa, SCALE as int);
    super::math::lemma_tdiv_exact(pb, SCALE as int);
    lemma_rotation_dot_identity(d.x as int, d.y as int, p.x as int, p.y as int, c, s);
    assert((d.x * p.x + d.y * p.y) * (c * c + s * s) == 0) by (nonlinear_arith)
        requires
            d.x * p.x + d.y * p.y == 0,
    ;
    lemma_scale_product(dw.x as int, pw.x as int);
    lemma_scale_product(dw.y as int, pw.y as int);
    assert(da * pa == (1_000_000int * dw.x) * (1_000_000int * pw.x));
    assert(db * pb == (1_000_000int * dw.y) * (1_000_000int * pw.y));
    assert(1_000_000_000_000int * (dw.x * pw.x) + 1_000_000_000_000int * (dw.y * pw.y)
        == 1_000_000_000_000int * (dw.x * pw.x + dw.y * pw.y));
    assert(1_000_000_000_000int * (dw.x * pw.x + dw.y * pw.y) == 0);
}

/// The rotation matrix keeps dot products up to the circle factor:
/// `(axc - ays)(bxc - bys) + (axs + ayc)(bxs + byc)
///   == (ax bx + ay by)(c^2 + s^2)`.
proof fn lemma_rotation_dot_identity(ax: int, ay: int, bx: int, by: int, c: int, s: int)
    ensures
        (ax * c - ay * s) * (bx * c - by * s) + (ax * s + ay * c) * (bx * s + by * c) == (ax * bx
            + ay * by) * (c * c + s * s),
{
    let a1 = ax * c;
    let a2 = ay * s;
    let a3 = ax * s;
    let a4 = ay * c;
    let b1 = bx * c;
    let b2 = by * s;
    let b3 = bx * s;
    let b4 = by * c;
    assert((a1 - a2) * (b1 - b2) == a1 * b1 - a1 * b2 - a2 * b1 + a2 * b2) by (nonlinear_arith);
    assert((a3 + a4) * (b3 + b4) == a3 * b3 + a3 * b4 + a4 * b3 + a4 * b4) by (nonlinear_arith);
    assert(a1 * b2 == a3 * b4) by (nonlinear_arith)
        requires
            a1 == ax * c,
            b2 == by * s,
            a3 == ax * s,
            b4 == by * c,
    ;
    assert(a2 * b1 == a4 * b3) by (nonlinear_arith)
        requires
            a2 == ay * s,
            b1 == bx * c,
            a4 == ay * c,
            b3 == bx * s,
    ;
    assert((ax * bx + ay * by) * (c * c + s * s) == (ax * bx) * (c * c) + (ax * bx) * (s * s) + (
    ay * by) * (c * c) + (ay * by) * (s * s)) by (nonlinear_arith);
    assert(a1 * b1 == (ax * bx) * (c * c)) by (nonlinear_arith)
        requires
            a1 == ax * c,
            b1 == bx * c,
    ;
    assert(a2 * b2 == (ay * by) * (s * s)) by (nonlinear_arith)
        requires
            a2 == ay * s,
            b2 == by * s,
    ;
    assert(a3 * b3 == (ax * bx) * (s * s)) by (nonlinear_arith)
        requires
            a3 == ax * s,
            b3 == bx * s,
    ;
    assert(a4 * b4 == (ay * by) * (c * c)) by (nonlinear_arith)
        requires
            a4 == ay * c,
            b4 == by * c,
    ;
}

/// Law: rotating by an angle and then by its negation restores the vector —
/// exactly, whenever the scaled cosine and sine lie on the unit circle and
/// the forward rotation rounds nothing away.
pub proof fn lemma_rotate_round_trip(v: Vector, w: Vector, c: int, s: int)
    requires
        c * c + s * s == SCALE * SCALE,
        (v.x * c - v.y * s) % (SCALE as int) == 0,
        (v.x * s + v.y * c) % (SCALE as int) == 0,
        w.x == rotated_x(v, c, s),
        w.y == rotated_y(v, c, s),
    ensures
        rotated_x(w, c, -s) == v.x,
        rotated_y(w, c, -s) == v.y,
{
    let xi = v.x as int;
    let yi = v.y as int;
    let a = xi * c - yi * s;
    let b = xi * s + yi * c;
    super::math::lemma_tdiv_exact(a, SCALE as int);
    super::math::lemma_tdiv_exact(b, SCALE as int);
    lemma_rotation_transpose_identity(xi, yi, c, s);
    assert(a * c + b * s == xi * (c * c + s * s) && b * c - a * s == yi * (c * c + s * s));
    assert(xi * (1_000_000_000_000int) == 1_000_000int * (xi * 1_000_000int)
        && yi * (1_000_000_000_000int) == 1_000_000int * (yi * 1_000_000int))
        by (nonlinear_arith);
    assert((1_000_000int * w.x) * c == 1_000_000int * (w.x * c) && (1_000_000int * w.y) * s
        == 1_000_000int * (w.y * s) && (1_000_000int * w.y) * c == 1_000_000int * (w.y * c) && (
    1_000_000int * w.x) * s == 1_000_000int * (w.x * s)) by (nonlinear_arith);
    assert(1_000_000int * (w.x * c + w.y * s) == 1_000_000int * (xi * 1_000_000int));
    assert(1_000_000int * (w.y * c - w.x * s) == 1_000_000int * (yi * 1_000_000int));
    assert(w.x * c + w.y * s == xi * SCALE);
    assert(w.y * c - w.x * s == yi * SCALE);
    assert(w.x * c - w.y * -s == w.x * c + w.y * s && w.x * -s + w.y * c == w.y * c - w.x * s)
        by (nonlinear_arith);
    lemma_mod_multiples_basic_local(xi, SCALE as int);
    lemma_mod_multiples_basic_local(yi, SCALE as int);
    super::math::lemma_tdiv_exact(xi * SCALE, SCALE as int);
    super::math::lemma_tdiv_exact(yi * SCALE, SCALE as int);
    lemma_div_multiples_vanish(xi, SCALE as int);
    lemma_div_multiples_vanish(yi, SCALE as int);
    assert(xi * SCALE == SCALE as int * xi) by (nonlinear_arith);
    assert(yi * SCALE == SCALE as int * yi) by (nonlinear_arith);
}

/// Rotating back along the rotated axes recovers the original components up
/// to the circle factor: `(xc - ys)c + (xs + yc)s == x(c^2 + s^2)` and
/// `(xs + yc)c - (xc - ys)s == y(c^2 + s^2)`.
proof fn lemma_rotation_transpose_identity(x: int, y: int, c: int, s: int)
    ensures
        (x * c - y * s) * c + (x * s + y * c) * s == x * (c * c + s * s),
        (x * s + y * c) * c - (x * c - y * s) * s == y * (c * c + s * s),
{
    assert((x * c - y * s) * c + (x * s + y * c) * s == x * (c * c + s * s) && (x * s + y * c)
        * c - (x * c - y * s) * s == y * (c * c + s * s)) by (nonlinear_arith);
}

/// Law (an instance of additivity): two successive quarter turns are one
/// half turn, for every vector and with no rounding at all.
pub proof fn lemma_quarter_turns_compose(v: Vector, w: Vector, u: Vector)
    requires
        w.x == rotated_x(v, 0, SCALE as int),
        w.y == rotated_y(v, 0, SCALE as int),
        u.x == rotated_x(w, 0, SCALE as int),
        u.y == rotated_y(w, 0, SCALE as int),
    ensures
        u.x == rotated_x(v, -(SCALE as int), 0),
        u.y == rotated_y(v, -(SCALE as int), 0),
{
    lemma_exact_scale_rotation(v);
    lemma_exact_scale_rotation(w);
    lemma_exact_scale_rotation(u);
}

/// A quarter turn and a half turn round nothing away: their products are
/// plain multiples of `SCALE`.
proof fn lemma_exact_scale_rotation(v: Vector)
    ensures
        rotated_x(v, 0, SCALE as int) == -(v.y as int),
        rotated_y(v, 0, SCALE as int) == v.x,
        rotated_x(v, -(SCALE as int), 0) == -(v.x as int),
        rotated_y(v, -(SCALE as int), 0) == -(v.y as int),
{
    let xi = v.x as int;
    let yi = v.y as int;
    let sc = SCALE as int;
    assert(xi * 0 - yi * sc == (-yi) * sc && xi * sc + yi * 0 == xi * sc && xi * -sc - yi * 0 == (
    -xi) * sc && xi * 0 + yi * -sc == (-yi) * sc) by (nonlinear_arith);
    lemma_mod_multiples_basic_local(-yi, sc);
    lemma_mod_multiples_basic_local(xi, sc);
    lemma_mod_multiples_basic_local(-xi, sc);
    super::math::lemma_tdiv_exact((-yi) * sc, sc);
    super::math::lemma_tdiv_exact(xi * sc, sc);
    super::math::lemma_tdiv_exact((-xi) * sc, sc);
    lemma_div_multiples_vanish(-yi, sc);
    lemma_div_multiples_vanish(xi, sc);
    lemma_div_multiples_vanish(-xi, sc);
    assert((-yi) * sc == sc * -yi && xi * sc == sc * xi && (-xi) * sc == sc * -xi)
        by (nonlinear_arith);
}

/// `(x * m) % m == 0`.
proof fn lemma_mod_multiples_basic_local(x: int, m: int)
    requires
        m > 0,
    ensures
        (x * m) % m == 0,
{
    vstd::arithmetic::div_mod::lemma_mod_multiples_basic(x, m);
}

/// The product of two coordinates bounded by `MAX_COORD` stays well inside
/// `i64` even after adding a second such product.
proof fn lemma_product_bounds(a: int, b: int)
    requires
        -(MAX_COORD as int) <= a <= MAX_COORD as int,
        -(MAX_COORD as int) <= b <= MAX_COORD as int,
    ensures
        -4_000_000_000_000_000_000int <= a * b <= 4_000_000_000_000_000_000int,
{
    assert(-4_000_000_000_000_000_000int <= a * b <= 4_000_000_000_000_000_000int)
        by (nonlinear_arith)
        requires
            -2_000_000_000int <= a <= 2_000_000_000int,
            -2_000_000_000int <= b <= 2_000_000_000int,
    ;
}

} // verus!
