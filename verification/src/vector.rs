//! Three-component vectors over fixed-point scalars.
//!
//! `Vector3` is the executable type; `Vec3Model` is its mathematical model
//! with unbounded integer components. Every operation is specified exactly
//! over the model.

use vstd::prelude::*;
use crate::fixed::{
    SCALE, tdiv, fp_mul_s, sqrt_floor, is_sqrt_floor, fp_mul, isqrt, div_i128, ISQRT_MAX,
    lemma_tdiv_bounds,
};

verus! {

/// Mathematical model of a vector: three unbounded fixed-point components.
pub struct Vec3Model {
    pub x: int,
    pub y: int,
    pub z: int,
}

/// A point or direction in scene space, in fixed point.
#[derive(Clone, Copy, Debug, PartialEq, Eq, Structural)]
pub struct Vector3 {
    pub x: i64,
    pub y: i64,
    pub z: i64,
}

/// A location in scene space.
pub type Point = Vector3;

/// A direction in scene space.
pub type Direction = Vector3;

impl View for Vector3 {
    type V = Vec3Model;

    open spec fn view(&self) -> Vec3Model {
        Vec3Model { x: self.x as int, y: self.y as int, z: self.z as int }
    }
}

/// Componentwise sum.
pub open spec fn v_add(a: Vec3Model, b: Vec3Model) -> Vec3Model {
    Vec3Model { x: a.x + b.x, y: a.y + b.y, z: a.z + b.z }
}

/// Componentwise difference.
pub open spec fn v_sub(a: Vec3Model, b: Vec3Model) -> Vec3Model {
    Vec3Model { x: a.x - b.x, y: a.y - b.y, z: a.z - b.z }
}

/// Componentwise negation.
pub open spec fn v_neg(a: Vec3Model) -> Vec3Model {
    Vec3Model { x: -a.x, y: -a.y, z: -a.z }
}

/// Sum of componentwise products, before rescaling: when both arguments
/// carry scale SCALE, this value carries scale SCALE * SCALE.
pub open spec fn v_dot_raw(a: Vec3Model, b: Vec3Model) -> int {
    a.x * b.x + a.y * b.y + a.z * b.z
}

/// The fixed-point dot product.
pub open spec fn v_dot(a: Vec3Model, b: Vec3Model) -> int {
    tdiv(v_dot_raw(a, b), SCALE as int)
}

/// Squared length, at scale SCALE * SCALE.
pub open spec fn v_norm2(a: Vec3Model) -> int {
    v_dot_raw(a, a)
}

/// Fixed-point length: the floor square root of the squared length.
pub open spec fn v_len(a: Vec3Model) -> int {
    sqrt_floor(v_norm2(a))
}

/// Fixed-point normalization; the zero vector stays zero.
pub open spec fn v_normalize(a: Vec3Model) -> Vec3Model {
    if v_norm2(a) == 0 {
        a
    } else {
        Vec3Model {
            x: tdiv(a.x * (SCALE as int), v_len(a)),
            y: tdiv(a.y * (SCALE as int), v_len(a)),
            z: tdiv(a.z * (SCALE as int), v_len(a)),
        }
    }
}

/// Componentwise product with a fixed-point scalar.
pub open spec fn v_scale(a: Vec3Model, s: int) -> Vec3Model {
    Vec3Model { x: fp_mul_s(a.x, s), y: fp_mul_s(a.y, s), z: fp_mul_s(a.z, s) }
}

/// Every component has magnitude at most `m`.
pub open spec fn v_bounded(a: Vec3Model, m: int) -> bool {
    -m <= a.x <= m && -m <= a.y <= m && -m <= a.z <= m
}

impl Vector3 {
    /// Build a vector from its three components.
    pub fn new(x: i64, y: i64, z: i64) -> (r: Vector3)
        ensures
            r@ == (Vec3Model { x: x as int, y: y as int, z: z as int }),
    {
        Vector3 { x, y, z }
    }

    /// The zero vector.
    pub fn zero() -> (r: Vector3)
        ensures
            r@ == (Vec3Model { x: 0int, y: 0int, z: 0int }),
    {
        Vector3 { x: 0, y: 0, z: 0 }
    }

    /// Componentwise sum.
    pub fn add(self, o: Vector3) -> (r: Vector3)
        requires
            v_bounded(self@, 1_000_000_000_000_000_000),
            v_bounded(o@, 1_000_000_000_000_000_000),
        ensures
            r@ == v_add(self@, o@),
    {
        Vector3 { x: self.x + o.x, y: self.y + o.y, z: self.z + o.z }
    }

    /// Componentwise difference.
    pub fn sub(self, o: Vector3) -> (r: Vector3)
        requires
            v_bounded(self@, 1_000_000_000_000_000_000),
            v_bounded(o@, 1_000_000_000_000_000_000),
        ensures
            r@ == v_sub(self@, o@),
    {
        Vector3 { x: self.x - o.x, y: self.y - o.y, z: self.z - o.z }
    }

    /// Componentwise negation.
    pub fn neg(self) -> (r: Vector3)
        requires
            v_bounded(self@, 1_000_000_000_000_000_000),
        ensures
            r@ == v_neg(self@),
    {
        Vector3 { x: -self.x, y: -self.y, z: -self.z }
    }

    /// Fixed-point dot product. One operand may range over scene space,
    /// the other must be a direction-sized vector.
    pub fn dot(self, o: Vector3) -> (r: i64)
        requires
            v_bounded(self@, 2_000_000_000_000),
            v_bounded(o@, 2_000_000),
        ensures
            r as int == v_dot(self@, o@),
    {
        proof {
            lemma_dot_raw_bound(self@, o@, 2_000_000_000_000, 2_000_000);
            lemma_tdiv_bounds(v_dot_raw(self@, o@), SCALE as int, 12_000_000_000_000int);
        }
        let raw: i128 = (self.x as i128) * (o.x as i128) + (self.y as i128) * (o.y as i128) + (
        self.z as i128) * (o.z as i128);
        let q = div_i128(raw, SCALE as i128);
        q as i64
    }

    /// Fixed-point length.
    pub fn length(self) -> (r: i64)
        requires
            v_bounded(self@, 2_000_000_000_000),
        ensures
            r as int == v_len(self@),
            is_sqrt_floor(v_norm2(self@), r as int),
            0 <= r <= 4_000_000_000_000,
    {
        proof {
            lemma_dot_raw_bound(self@, self@, 2_000_000_000_000, 2_000_000_000_000);
            lemma_norm2_nonneg(self@);
        }
        let n2: i128 = (self.x as i128) * (self.x as i128) + (self.y as i128) * (self.y as i128)
            + (self.z as i128) * (self.z as i128);
        let len = isqrt(n2);
        proof {
            lemma_sqrt_bound_from_square(n2 as int, len as int);
        }
        len as i64
    }

    /// Fixed-point normalization; the zero vector stays zero. The result's
    /// components are bounded by SCALE.
    pub fn normalize(self) -> (r: Vector3)
        requires
            v_bounded(self@, 2_000_000_000_000),
        ensures
            r@ == v_normalize(self@),
            v_bounded(r@, SCALE as int),
    {
        proof {
            lemma_dot_raw_bound(self@, self@, 2_000_000_000_000, 2_000_000_000_000);
            lemma_norm2_nonneg(self@);
        }
        let n2: i128 = (self.x as i128) * (self.x as i128) + (self.y as i128) * (self.y as i128)
            + (self.z as i128) * (self.z as i128);
        if n2 == 0 {
            proof {
                lemma_zero_norm2_zero_vector(self@);
            }
            self
        } else {
            let len = isqrt(n2);
            proof {
                lemma_sqrt_bound_from_square(n2 as int, len as int);
                lemma_component_le_len(self@);
                lemma_tdiv_bounds((self.x as int) * (SCALE as int), len as int, SCALE as int);
                lemma_tdiv_bounds((self.y as int) * (SCALE as int), len as int, SCALE as int);
                lemma_tdiv_bounds((self.z as int) * (SCALE as int), len as int, SCALE as int);
            }
            let x = div_i128((self.x as i128) * (SCALE as i128), len) as i64;
            let y = div_i128((self.y as i128) * (SCALE as i128), len) as i64;
            let z = div_i128((self.z as i128) * (SCALE as i128), len) as i64;
            Vector3 { x, y, z }
        }
    }

    /// Componentwise product with a fixed-point scalar.
    pub fn scale(self, s: i64) -> (r: Vector3)
        requires
            -9_000_000_000_000_000_000_000_000 <= self@.x * s <= 9_000_000_000_000_000_000_000_000,
            -9_000_000_000_000_000_000_000_000 <= self@.y * s <= 9_000_000_000_000_000_000_000_000,
            -9_000_000_000_000_000_000_000_000 <= self@.z * s <= 9_000_000_000_000_000_000_000_000,
        ensures
            r@ == v_scale(self@, s as int),
    {
        proof {
            lemma_tdiv_bounds(self@.x * s, SCALE as int, 9_000_000_000_000_000_000int);
            lemma_tdiv_bounds(self@.y * s, SCALE as int, 9_000_000_000_000_000_000int);
            lemma_tdiv_bounds(self@.z * s, SCALE as int, 9_000_000_000_000_000_000int);
        }
        Vector3 { x: fp_mul(self.x, s), y: fp_mul(self.y, s), z: fp_mul(self.z, s) }
    }
}

/// A dot product of vectors bounded by `ma` and `mb` is bounded by
/// `3 * ma * mb`.
pub proof fn lemma_dot_raw_bound(a: Vec3Model, b: Vec3Model, ma: int, mb: int)
    requires
        0 <= ma,
        0 <= mb,
        v_bounded(a, ma),
        v_bounded(b, mb),
    ensures
        -(3 * ma * mb) <= v_dot_raw(a, b) <= 3 * ma * mb,
        -(ma * mb) <= a.x * b.x <= ma * mb,
        -(ma * mb) <= a.y * b.y <= ma * mb,
        -(ma * mb) <= a.z * b.z <= ma * mb,
{
    assert(-(ma * mb) <= a.x * b.x <= ma * mb) by (nonlinear_arith)
        requires
            -ma <= a.x <= ma,
            -mb <= b.x <= mb,
            0 <= ma,
            0 <= mb,
    ;
    assert(-(ma * mb) <= a.y * b.y <= ma * mb) by (nonlinear_arith)
        requires
            -ma <= a.y <= ma,
            -mb <= b.y <= mb,
            0 <= ma,
            0 <= mb,
    ;
    assert(-(ma * mb) <= a.z * b.z <= ma * mb) by (nonlinear_arith)
        requires
            -ma <= a.z <= ma,
            -mb <= b.z <= mb,
            0 <= ma,
            0 <= mb,
    ;
    assert(3 * ma * mb == ma * mb + ma * mb + ma * mb) by (nonlinear_arith);
}

/// A squared length is non-negative.
pub proof fn lemma_norm2_nonneg(a: Vec3Model)
    ensures
        v_norm2(a) >= 0,
        a.x * a.x >= 0,
        a.y * a.y >= 0,
        a.z * a.z >= 0,
{
    assert(a.x * a.x >= 0 && a.y * a.y >= 0 && a.z * a.z >= 0) by (nonlinear_arith);
}

/// Only the zero vector has squared length zero.
pub proof fn lemma_zero_norm2_zero_vector(a: Vec3Model)
    requires
        v_norm2(a) == 0,
    ensures
        a.x == 0 && a.y == 0 && a.z == 0,
{
    assert(a.x == 0 && a.y == 0 && a.z == 0) by (nonlinear_arith)
        requires
            a.x * a.x + a.y * a.y + a.z * a.z == 0,
    ;
}

/// The division step of normalization, for one component: with
/// `q = tdiv(ai * SCALE, l)` and remainder `rho = ai * SCALE - q * l`, the
/// remainder is below one part of `l` and the squared component satisfies
/// the exact ring identity of `(ai * SCALE - rho)^2`.
proof fn lemma_normalize_component(ai: int, l: int)
    requires
        l >= 1,
        -l <= ai <= l,
    ensures
        -l < ai * (SCALE as int) - tdiv(ai * (SCALE as int), l) * l < l,
        tdiv(ai * (SCALE as int), l) * tdiv(ai * (SCALE as int), l) * (l * l) == (ai * (
        SCALE as int)) * (ai * (SCALE as int)) - 2 * ((ai * (SCALE as int)) * (ai * (SCALE as int)
            - tdiv(ai * (SCALE as int), l) * l)) + (ai * (SCALE as int) - tdiv(
            ai * (SCALE as int),
            l,
        ) * l) * (ai * (SCALE as int) - tdiv(ai * (SCALE as int), l) * l),
{
    let x = ai * (SCALE as int);
    let q = tdiv(x, l);
    crate::fixed::lemma_tdiv_fundamental(x, l);
    assert((q + 1) * l == q * l + l) by (nonlinear_arith);
    assert((q - 1) * l == q * l - l) by (nonlinear_arith);
    let rho = x - q * l;
    assert(q * q * (l * l) == x * x - 2 * (x * rho) + rho * rho) by (nonlinear_arith)
        requires
            rho == x - q * l,
    ;
}

/// Normalization yields a fixed-point unit vector: whenever a bounded
/// vector is at least one unit long, its normalized squared length is
/// within nine millionths of the exact unit (the literals are SCALE^2 and
/// its tolerances 6 * SCALE and 8 * SCALE + 3).
pub proof fn lemma_normalize_unit_length(a: Vec3Model)
    requires
        v_bounded(a, 2_000_000_000_000),
        v_norm2(a) >= 1_000_000_000_000,
    ensures
        999_994_000_000 <= v_norm2(v_normalize(a)) <= 1_000_008_000_003,
{
    let n2 = v_norm2(a);
    lemma_norm2_nonneg(a);
    crate::fixed::lemma_sqrt_floor_exists(n2);
    let l = v_len(a);
    assert((SCALE as int) <= l) by (nonlinear_arith)
        requires
            0 <= l,
            1_000_000_000_000 <= n2,
            n2 < (l + 1) * (l + 1),
            SCALE == 1_000_000,
    ;
    lemma_component_le_len(a);
    lemma_normalize_component(a.x, l);
    lemma_normalize_component(a.y, l);
    lemma_normalize_component(a.z, l);
    let s = SCALE as int;
    let xx = a.x * s;
    let xy = a.y * s;
    let xz = a.z * s;
    let qx = tdiv(xx, l);
    let qy = tdiv(xy, l);
    let qz = tdiv(xz, l);
    let rx = xx - qx * l;
    let ry = xy - qy * l;
    let rz = xz - qz * l;
    let d = v_norm2(v_normalize(a));
    assert(d == qx * qx + qy * qy + qz * qz);
    assert(d * (l * l) == qx * qx * (l * l) + qy * qy * (l * l) + qz * qz * (l * l))
        by (nonlinear_arith)
        requires
            d == qx * qx + qy * qy + qz * qz,
    ;
    assert(xx * xx == (s * s) * (a.x * a.x)) by (nonlinear_arith)
        requires
            xx == a.x * s,
    ;
    assert(xy * xy == (s * s) * (a.y * a.y)) by (nonlinear_arith)
        requires
            xy == a.y * s,
    ;
    assert(xz * xz == (s * s) * (a.z * a.z)) by (nonlinear_arith)
        requires
            xz == a.z * s,
    ;
    assert((s * s) * (a.x * a.x) + (s * s) * (a.y * a.y) + (s * s) * (a.z * a.z) == s * s * n2)
        by (nonlinear_arith)
        requires
            n2 == a.x * a.x + a.y * a.y + a.z * a.z,
    ;
    assert(-(s * (l * l)) <= xx * rx <= s * (l * l)) by (nonlinear_arith)
        requires
            -l <= a.x <= l,
            xx == a.x * s,
            -l < rx < l,
            l >= 1,
            s >= 1,
    ;
    assert(-(s * (l * l)) <= xy * ry <= s * (l * l)) by (nonlinear_arith)
        requires
            -l <= a.y <= l,
            xy == a.y * s,
            -l < ry < l,
            l >= 1,
            s >= 1,
    ;
    assert(-(s * (l * l)) <= xz * rz <= s * (l * l)) by (nonlinear_arith)
        requires
            -l <= a.z <= l,
            xz == a.z * s,
            -l < rz < l,
            l >= 1,
            s >= 1,
    ;
    assert(0 <= rx * rx <= l * l && 0 <= ry * ry <= l * l && 0 <= rz * rz <= l * l)
        by (nonlinear_arith)
        requires
            -l < rx < l,
            -l < ry < l,
            -l < rz < l,
            l >= 1,
    ;
    // the squared length of the quotient vector, at scale l^2, is the exact
    // sum rescaled by SCALE^2 plus the bounded remainder terms
    assert(d * (l * l) == s * s * n2 - 2 * (xx * rx + xy * ry + xz * rz) + (rx * rx + ry * ry + rz
        * rz));
    // n2 is at most l^2 + 2l, and SCALE is at most l
    assert(s * s * n2 <= s * s * (l * l) + 2 * s * (l * l)) by (nonlinear_arith)
        requires
            n2 < (l + 1) * (l + 1),
            s <= l,
            1 <= s,
            l >= 1,
            s * s * n2 == (s * s) * n2,
    ;
    assert(s * s * n2 >= s * s * (l * l)) by (nonlinear_arith)
        requires
            n2 >= l * l,
            s >= 1,
    ;
    assert(d * (l * l) <= (s * s + 8 * s + 3) * (l * l)) by (nonlinear_arith)
        requires
            d * (l * l) <= s * s * (l * l) + 2 * s * (l * l) + 6 * (s * (l * l)) + 3 * (l * l),
    ;
    assert(d * (l * l) >= (s * s - 6 * s) * (l * l)) by (nonlinear_arith)
        requires
            d * (l * l) >= s * s * (l * l) - 6 * (s * (l * l)),
    ;
    assert(s * s - 6 * s <= d <= s * s + 8 * s + 3) by (nonlinear_arith)
        requires
            (s * s - 6 * s) * (l * l) <= d * (l * l) <= (s * s + 8 * s + 3) * (l * l),
            l >= 1,
    ;
}

/// A square root of a number below 1.6e25 is below 4e12.
proof fn lemma_sqrt_bound_from_square(n: int, r: int)
    requires
        0 <= r,
        r * r <= n,
        n <= 16_000_000_000_000_000_000_000_000,
    ensures
        r <= 4_000_000_000_000,
{
    assert(r <= 4_000_000_000_000) by (nonlinear_arith)
        requires
            0 <= r,
            r * r <= 16_000_000_000_000_000_000_000_000,
    ;
}

/// No component exceeds the vector's length.
proof fn lemma_component_le_len(a: Vec3Model)
    requires
        v_norm2(a) > 0,
        is_sqrt_floor(v_norm2(a), v_len(a)),
    ensures
        -v_len(a) <= a.x <= v_len(a),
        -v_len(a) <= a.y <= v_len(a),
        -v_len(a) <= a.z <= v_len(a),
        v_len(a) >= 1,
        -(SCALE as int) * v_len(a) <= a.x * (SCALE as int) <= (SCALE as int) * v_len(a),
        -(SCALE as int) * v_len(a) <= a.y * (SCALE as int) <= (SCALE as int) * v_len(a),
        -(SCALE as int) * v_len(a) <= a.z * (SCALE as int) <= (SCALE as int) * v_len(a),
{
    let l = v_len(a);
    let n = v_norm2(a);
    lemma_norm2_nonneg(a);
    assert(l >= 1) by (nonlinear_arith)
        requires
            0 <= l,
            l * l <= n,
            n > 0,
            n < (l + 1) * (l + 1),
    ;
    assert(-l <= a.x <= l && -l <= a.y <= l && -l <= a.z <= l) by (nonlinear_arith)
        requires
            0 <= l,
            a.x * a.x <= n,
            a.y * a.y <= n,
            a.z * a.z <= n,
            n < (l + 1) * (l + 1),
    ;
    assert(-(SCALE as int) * l <= a.x * (SCALE as int) <= (SCALE as int) * l) by (nonlinear_arith)
        requires
            -l <= a.x <= l,
    ;
    assert(-(SCALE as int) * l <= a.y * (SCALE as int) <= (SCALE as int) * l) by (nonlinear_arith)
        requires
            -l <= a.y <= l,
    ;
    assert(-(SCALE as int) * l <= a.z * (SCALE as int) <= (SCALE as int) * l) by (nonlinear_arith)
        requires
            -l <= a.z <= l,
    ;
}

} // verus!
