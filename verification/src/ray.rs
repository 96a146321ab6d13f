//! Rays: an origin plus a direction, and the three ways rays are built —
//! camera rays, mirror-reflection rays and refraction rays.
//!
//! Constructed directions are renormalized so that every ray in the system
//! carries a fixed-point unit direction; in exact real arithmetic the mirror
//! and refraction formulas already produce unit vectors, so renormalization
//! only counters fixed-point rounding.

use vstd::prelude::*;
use crate::fixed::{SCALE, tdiv, fp_mul_s, fp_div_s, fp_sqrt_s, fp_mul, fp_div, fp_sqrt, div_i128,
    lemma_tdiv_bounds, lemma_tdiv_sign};
use crate::vector::{Vector3, Point, Direction, Vec3Model, v_add, v_sub, v_neg, v_dot, v_dot_raw,
    v_scale, v_normalize, v_bounded, lemma_dot_raw_bound};
use crate::scene::{Scene, camera_wf};

verus! {

/// Mathematical model of a ray.
pub struct RayModel {
    pub origin: Vec3Model,
    pub direction: Vec3Model,
}

/// A ray: origin point plus fixed-point unit direction.
#[derive(Clone, Copy, Debug)]
pub struct Ray {
    pub origin: Point,
    pub direction: Direction,
}

impl View for Ray {
    type V = RayModel;

    open spec fn view(&self) -> RayModel {
        RayModel { origin: self.origin@, direction: self.direction@ }
    }
}

/// Largest origin magnitude a ray may carry; bounded-depth tracing keeps
/// every constructed ray origin far below this.
pub const ORIGIN_LIMIT: i64 = 2_000_000_000_000;

/// Overflow-safe ray: origin within the reachable region and a
/// unit-bounded direction.
pub open spec fn ray_wf(r: RayModel) -> bool {
    v_bounded(r.origin, ORIGIN_LIMIT as int) && v_bounded(r.direction, SCALE as int)
}

/// The mirror of `d` about the normal `n`, before renormalization:
/// `d - 2 (d . n) n`.
pub open spec fn spec_reflect_dir(d: Vec3Model, n: Vec3Model) -> Vec3Model {
    v_sub(d, v_scale(n, 2 * v_dot(d, n)))
}

/// Magnitude of the incidence cosine used by refraction and Fresnel.
pub open spec fn spec_cos_in(d: Vec3Model, n: Vec3Model) -> int {
    if v_dot(d, n) < 0 {
        -v_dot(d, n)
    } else {
        v_dot(d, n)
    }
}

/// The reference normal for refraction, oriented against the ray.
pub open spec fn spec_ref_normal(d: Vec3Model, n: Vec3Model) -> Vec3Model {
    if v_dot(d, n) < 0 {
        n
    } else {
        v_neg(n)
    }
}

/// The relative index of refraction: entering rays see 1/index, exiting
/// rays see index/1.
pub open spec fn spec_eta(d: Vec3Model, n: Vec3Model, index: int) -> int {
    if v_dot(d, n) < 0 {
        fp_div_s(SCALE as int, index)
    } else {
        fp_div_s(index, SCALE as int)
    }
}

/// The transmission discriminant `1 - eta^2 (1 - cos^2)`; a negative value
/// means total internal reflection.
pub open spec fn spec_trans_k(d: Vec3Model, n: Vec3Model, index: int) -> int {
    let eta = spec_eta(d, n, index);
    let c = spec_cos_in(d, n);
    SCALE - fp_mul_s(fp_mul_s(eta, eta), SCALE - fp_mul_s(c, c))
}

/// The refracted direction, before renormalization:
/// `(d + cos * ref_n) * eta - ref_n * sqrt(k)`.
pub open spec fn spec_trans_dir(d: Vec3Model, n: Vec3Model, index: int) -> Vec3Model {
    let eta = spec_eta(d, n, index);
    let c = spec_cos_in(d, n);
    let rn = spec_ref_normal(d, n);
    v_sub(v_scale(v_add(d, v_scale(rn, c)), eta), v_scale(rn, fp_sqrt_s(spec_trans_k(d, n, index))))
}

/// The screen-space x coordinate of a pixel center, scaled by the aspect
/// ratio and the field-of-view tangent.
pub open spec fn spec_sensor_x(x: int, width: int, height: int, fov_adjustment: int) -> int {
    let frac = tdiv((2 * x + 1 - width) * SCALE, width);
    let aspect = tdiv(width * SCALE, height);
    fp_mul_s(fp_mul_s(frac, aspect), fov_adjustment)
}

/// The screen-space y coordinate of a pixel center, scaled by the
/// field-of-view tangent; image y grows downward, screen y upward.
pub open spec fn spec_sensor_y(y: int, height: int, fov_adjustment: int) -> int {
    let frac = tdiv((height - (2 * y + 1)) * SCALE, height);
    fp_mul_s(frac, fov_adjustment)
}

/// Camera rays sweep the screen with the pixel index: the sensor x
/// coordinate never decreases as the pixel moves right, and the sensor y
/// coordinate never increases as the pixel moves down (weak rather than
/// strict, since fixed-point truncation can map adjacent pixels to the
/// same coordinate at extreme fields of view).
pub proof fn lemma_sensor_monotone(x1: int, x2: int, y1: int, y2: int, s: Scene)
    requires
        camera_wf(&s),
        0 <= x1 <= x2 < s.width,
        0 <= y1 <= y2 < s.height,
    ensures
        spec_sensor_x(x1, s.width as int, s.height as int, s.fov_adjustment as int)
            <= spec_sensor_x(x2, s.width as int, s.height as int, s.fov_adjustment as int),
        spec_sensor_y(y1, s.height as int, s.fov_adjustment as int) >= spec_sensor_y(
            y2,
            s.height as int,
            s.fov_adjustment as int,
        ),
{
    let w = s.width as int;
    let h = s.height as int;
    let fov = s.fov_adjustment as int;
    let aspect = tdiv(w * SCALE, h);
    crate::fixed::lemma_tdiv_sign(w * SCALE, h);
    crate::fixed::lemma_tdiv_monotone((2 * x1 + 1 - w) * SCALE, (2 * x2 + 1 - w) * SCALE, w);
    crate::fixed::lemma_fp_mul_monotone(
        tdiv((2 * x1 + 1 - w) * SCALE, w),
        tdiv((2 * x2 + 1 - w) * SCALE, w),
        aspect,
    );
    crate::fixed::lemma_fp_mul_monotone(
        fp_mul_s(tdiv((2 * x1 + 1 - w) * SCALE, w), aspect),
        fp_mul_s(tdiv((2 * x2 + 1 - w) * SCALE, w), aspect),
        fov,
    );
    crate::fixed::lemma_tdiv_monotone((h - (2 * y2 + 1)) * SCALE, (h - (2 * y1 + 1)) * SCALE, h);
    crate::fixed::lemma_fp_mul_monotone(
        tdiv((h - (2 * y2 + 1)) * SCALE, h),
        tdiv((h - (2 * y1 + 1)) * SCALE, h),
        fov,
    );
}

/// The camera ray of a pixel: from the origin, through the pixel center on
/// a screen one unit ahead (camera space looks along negative z).
pub open spec fn spec_prime_ray(x: int, y: int, s: Scene) -> RayModel {
    RayModel {
        origin: Vec3Model { x: 0, y: 0, z: 0 },
        direction: v_normalize(
            Vec3Model {
                x: spec_sensor_x(x, s.width as int, s.height as int, s.fov_adjustment as int),
                y: spec_sensor_y(y, s.height as int, s.fov_adjustment as int),
                z: -(SCALE as int),
            },
        ),
    }
}

impl Ray {
    /// The camera ray of pixel (x, y), normalized to fixed-point unit
    /// length.
    pub fn create_prime(x: u32, y: u32, scene: &Scene) -> (r: Ray)
        requires
            camera_wf(scene),
            x < scene.width,
            y < scene.height,
        ensures
            r@ == spec_prime_ray(x as int, y as int, *scene),
            ray_wf(r@),
            r@.origin == (Vec3Model { x: 0, y: 0, z: 0 }),
    {
        let w = scene.width as i64;
        let h = scene.height as i64;
        let nx = 2 * (x as i64) + 1 - w;
        let ny = h - (2 * (y as i64) + 1);
        proof {
            lemma_tdiv_bounds(nx as int * SCALE as int, w as int, SCALE as int);
            lemma_tdiv_bounds(ny as int * SCALE as int, h as int, SCALE as int);
            lemma_tdiv_bounds(w as int * SCALE as int, h as int, 4096 * SCALE as int);
        }
        let frac_x = fp_div(nx, w);
        let frac_y = fp_div(ny, h);
        let aspect = fp_div(w, h);
        proof {
            lemma_fp_mul_range(frac_x as int, aspect as int, SCALE as int, 4096 * SCALE as int);
            lemma_fp_mul_range(
                fp_mul_s(frac_x as int, aspect as int),
                scene.fov_adjustment as int,
                4096 * SCALE as int,
                100 * SCALE as int,
            );
            lemma_fp_mul_range(frac_y as int, scene.fov_adjustment as int, SCALE as int, 100
                * SCALE as int);
        }
        let sensor_x = fp_mul(fp_mul(frac_x, aspect), scene.fov_adjustment);
        let sensor_y = fp_mul(frac_y, scene.fov_adjustment);
        Ray {
            origin: Vector3::zero(),
            direction: Vector3 { x: sensor_x, y: sensor_y, z: -SCALE }.normalize(),
        }
    }

    /// The mirror-reflection ray at a hit point: origin offset along the
    /// surface normal by `bias`, direction the renormalized mirror of the
    /// incoming direction about the normal.
    pub fn create_reflection(surface_normal: Direction, direction: Direction, hit_point: Point,
        bias: i64) -> (r: Ray)
        requires
            v_bounded(surface_normal@, 2 * SCALE as int),
            v_bounded(direction@, SCALE as int),
            v_bounded(hit_point@, ORIGIN_LIMIT as int - 2 * SCALE as int),
            0 <= bias <= SCALE,
        ensures
            r@.origin == v_add(hit_point@, v_scale(surface_normal@, bias as int)),
            r@.direction == v_normalize(spec_reflect_dir(direction@, surface_normal@)),
            ray_wf(r@),
    {
        proof {
            lemma_dot_raw_bound(direction@, surface_normal@, SCALE as int, 2 * SCALE as int);
            lemma_tdiv_bounds(
                crate::vector::v_dot_raw(direction@, surface_normal@),
                SCALE as int,
                6 * SCALE as int,
            );
            lemma_scale_stays_bounded(
                surface_normal@,
                2 * SCALE as int,
                2 * v_dot(direction@, surface_normal@),
                12 * SCALE as int,
                24 * SCALE as int,
            );
            lemma_scale_stays_bounded(
                surface_normal@,
                2 * SCALE as int,
                bias as int,
                SCALE as int,
                2 * SCALE as int,
            );
        }
        let dn = direction.dot(surface_normal);
        let mirror = direction.sub(surface_normal.scale(2 * dn));
        Ray {
            origin: hit_point.add(surface_normal.scale(bias)),
            direction: mirror.normalize(),
        }
    }

    /// The refraction ray at a hit point, by the vector form of Snell's
    /// law, or nothing on total internal reflection. The entering or
    /// exiting side is chosen from the sign of `d . n`; the origin is
    /// offset against the oriented normal by `bias`.
    pub fn create_transmission(surface_normal: Direction, direction: Direction, hit_point: Point,
        bias: i64, index: i64) -> (r: Option<Ray>)
        requires
            v_bounded(surface_normal@, 2 * SCALE as int),
            v_bounded(direction@, SCALE as int),
            v_bounded(hit_point@, ORIGIN_LIMIT as int - 2 * SCALE as int),
            0 <= bias <= SCALE,
            crate::primitives::MIN_INDEX <= index <= crate::primitives::MAX_INDEX,
        ensures
            r is Some <==> spec_trans_k(direction@, surface_normal@, index as int) >= 0,
            r is Some ==> (r->Some_0)@.origin == v_add(
                hit_point@,
                v_scale(spec_ref_normal(direction@, surface_normal@), -bias as int),
            ),
            r is Some ==> (r->Some_0)@.direction == v_normalize(
                spec_trans_dir(direction@, surface_normal@, index as int),
            ),
            r is Some ==> ray_wf((r->Some_0)@),
    {
        proof {
            lemma_dot_raw_bound(direction@, surface_normal@, SCALE as int, 2 * SCALE as int);
            lemma_tdiv_bounds(
                crate::vector::v_dot_raw(direction@, surface_normal@),
                SCALE as int,
                6 * SCALE as int,
            );
        }
        let mut d_dot_n = direction.dot(surface_normal);
        let mut eta_t = index;
        let mut eta_i = SCALE;
        let mut ref_n = surface_normal;
        if d_dot_n < 0 {
            d_dot_n = -d_dot_n;
        } else {
            ref_n = surface_normal.neg();
            eta_t = SCALE;
            eta_i = index;
        }
        proof {
            lemma_tdiv_bounds(eta_i as int * SCALE as int, eta_t as int, 8 * SCALE as int);
            lemma_tdiv_sign(eta_i as int * SCALE as int, eta_t as int);
        }
        let eta = fp_div(eta_i, eta_t);
        proof {
            lemma_fp_square_bounds(eta as int, 8 * SCALE as int);
            lemma_fp_square_bounds(d_dot_n as int, 6 * SCALE as int);
            lemma_fp_mul_range(
                fp_mul_s(eta as int, eta as int),
                SCALE as int - fp_mul_s(d_dot_n as int, d_dot_n as int),
                64 * SCALE as int,
                37 * SCALE as int,
            );
        }
        let eta2 = fp_mul(eta, eta);
        let one_minus_c2 = SCALE - fp_mul(d_dot_n, d_dot_n);
        let k = SCALE - fp_mul(eta2, one_minus_c2);
        if k < 0 {
            None
        } else {
            let root = fp_sqrt(k);
            proof {
                crate::fixed::lemma_sqrt_le(root as int, 49 * SCALE as int);
                lemma_scale_stays_bounded(
                    ref_n@,
                    2 * SCALE as int,
                    d_dot_n as int,
                    6 * SCALE as int,
                    12 * SCALE as int,
                );
                lemma_scale_stays_bounded(
                    ref_n@,
                    2 * SCALE as int,
                    root as int,
                    49 * SCALE as int,
                    98 * SCALE as int,
                );
                let shifted = v_add(direction@, v_scale(ref_n@, d_dot_n as int));
                lemma_scale_stays_bounded(
                    shifted,
                    13 * SCALE as int,
                    eta as int,
                    8 * SCALE as int,
                    104 * SCALE as int,
                );
                lemma_scale_stays_bounded(
                    ref_n@,
                    2 * SCALE as int,
                    -(bias as int),
                    SCALE as int,
                    2 * SCALE as int,
                );
            }
            let shifted = direction.add(ref_n.scale(d_dot_n));
            let dir = shifted.scale(eta).sub(ref_n.scale(root));
            Some(
                Ray {
                    origin: hit_point.add(ref_n.scale(-bias)),
                    direction: dir.normalize(),
                },
            )
        }
    }
}

/// Every camera ray's direction has fixed-point unit length, up to a few
/// parts per million: the screen vector always carries the unit forward
/// component, so it is at least one unit long, and normalization brings
/// its squared length within [SCALE^2 - 6 SCALE, SCALE^2 + 8 SCALE + 3]
/// (the literals below).
pub proof fn lemma_prime_ray_unit_length(x: int, y: int, s: Scene)
    requires
        camera_wf(&s),
        0 <= x < s.width,
        0 <= y < s.height,
    ensures
        999_994_000_000 <= crate::vector::v_norm2(spec_prime_ray(x, y, s).direction)
            <= 1_000_008_000_003,
{
    let w = s.width as int;
    let h = s.height as int;
    let fov = s.fov_adjustment as int;
    lemma_tdiv_bounds((2 * x + 1 - w) * SCALE, w, SCALE as int);
    lemma_tdiv_bounds((h - (2 * y + 1)) * SCALE, h, SCALE as int);
    lemma_tdiv_bounds(w * SCALE, h, 4096 * SCALE as int);
    let frac_x = tdiv((2 * x + 1 - w) * SCALE, w);
    let frac_y = tdiv((h - (2 * y + 1)) * SCALE, h);
    let aspect = tdiv(w * SCALE, h);
    lemma_fp_mul_range(frac_x, aspect, SCALE as int, 4096 * SCALE as int);
    lemma_fp_mul_range(fp_mul_s(frac_x, aspect), fov, 4096 * SCALE as int, 100 * SCALE as int);
    lemma_fp_mul_range(frac_y, fov, SCALE as int, 100 * SCALE as int);
    let v = Vec3Model {
        x: spec_sensor_x(x, w, h, fov),
        y: spec_sensor_y(y, h, fov),
        z: -(SCALE as int),
    };
    crate::vector::lemma_norm2_nonneg(v);
    assert(v.z * v.z == 1_000_000_000_000int) by (nonlinear_arith)
        requires
            v.z == -1_000_000,
    ;
    crate::vector::lemma_normalize_unit_length(v);
}

/// One component of the mirror formula deviates from the exact real mirror
/// by less than five fixed-point units: with `q` the truncated change of
/// that component, `q * SCALE^2` equals `-2 * (d . n raw) * n_i` up to
/// `5 * SCALE^2`.
proof fn lemma_mirror_component(ni: int, dr: int)
    requires
        -2_000_000 <= ni <= 2_000_000,
        -6_000_000_000_000 <= dr <= 6_000_000_000_000,
    ensures
        -(5_000_000_000_000int) <= -(tdiv(ni * (2 * tdiv(dr, SCALE as int)), SCALE as int))
            * 1_000_000_000_000 + 2 * dr * ni <= 5_000_000_000_000int,
{
    let q1 = tdiv(dr, SCALE as int);
    let c = 2 * q1;
    let q2 = tdiv(ni * c, SCALE as int);
    crate::fixed::lemma_tdiv_fundamental(dr, SCALE as int);
    crate::fixed::lemma_tdiv_fundamental(ni * c, SCALE as int);
    let r1 = dr - q1 * (SCALE as int);
    let r2 = ni * c - q2 * (SCALE as int);
    assert((q1 + 1) * (SCALE as int) == q1 * (SCALE as int) + SCALE) by (nonlinear_arith);
    assert((q1 - 1) * (SCALE as int) == q1 * (SCALE as int) - SCALE) by (nonlinear_arith);
    assert((q2 + 1) * (SCALE as int) == q2 * (SCALE as int) + SCALE) by (nonlinear_arith);
    assert((q2 - 1) * (SCALE as int) == q2 * (SCALE as int) - SCALE) by (nonlinear_arith);
    assert(-(5_000_000_000_000int) <= -q2 * 1_000_000_000_000 + 2 * dr * ni
        <= 5_000_000_000_000int) by (nonlinear_arith)
        requires
            r1 == dr - q1 * 1_000_000,
            r2 == ni * (2 * q1) - q2 * 1_000_000,
            -1_000_000 < r1 < 1_000_000,
            -1_000_000 < r2 < 1_000_000,
            -2_000_000 <= ni <= 2_000_000,
    ;
}

/// The reflection law, at the fixed-point level: the pre-normalization
/// mirror direction `d'` satisfies `d' - d == -2 (d . n) n` componentwise,
/// up to less than five fixed-point units of rounding, so the change of
/// direction is parallel to the surface normal. The raw dot product
/// carries scale SCALE^2, so both sides are compared at scale SCALE^3
/// (the literals are SCALE^2 and 5 * SCALE^2).
pub proof fn lemma_reflection_parallel(d: Vec3Model, n: Vec3Model)
    requires
        v_bounded(d, SCALE as int),
        v_bounded(n, 2 * SCALE as int),
    ensures
        -(5_000_000_000_000int) <= (spec_reflect_dir(d, n).x - d.x) * 1_000_000_000_000 + 2
            * v_dot_raw(d, n) * n.x <= 5_000_000_000_000int,
        -(5_000_000_000_000int) <= (spec_reflect_dir(d, n).y - d.y) * 1_000_000_000_000 + 2
            * v_dot_raw(d, n) * n.y <= 5_000_000_000_000int,
        -(5_000_000_000_000int) <= (spec_reflect_dir(d, n).z - d.z) * 1_000_000_000_000 + 2
            * v_dot_raw(d, n) * n.z <= 5_000_000_000_000int,
{
    lemma_dot_raw_bound(d, n, SCALE as int, 2 * SCALE as int);
    lemma_mirror_component(n.x, v_dot_raw(d, n));
    lemma_mirror_component(n.y, v_dot_raw(d, n));
    lemma_mirror_component(n.z, v_dot_raw(d, n));
}

/// The length half of the mirror law: whenever the mirror vector is at
/// least one unit long (as it always is in exact arithmetic for a unit
/// incoming direction and a unit normal), the reflected direction that
/// `create_reflection` returns is again of fixed-point unit length, within
/// the tolerance of `lemma_normalize_unit_length`; so reflection preserves
/// the length of unit directions up to a few parts per million.
pub proof fn lemma_reflection_unit_length(d: Vec3Model, n: Vec3Model)
    requires
        v_bounded(d, SCALE as int),
        v_bounded(n, 2 * SCALE as int),
        crate::vector::v_norm2(spec_reflect_dir(d, n)) >= 1_000_000_000_000,
    ensures
        999_994_000_000 <= crate::vector::v_norm2(v_normalize(spec_reflect_dir(d, n)))
            <= 1_000_008_000_003,
{
    lemma_dot_raw_bound(d, n, SCALE as int, 2 * SCALE as int);
    lemma_tdiv_bounds(v_dot_raw(d, n), SCALE as int, 6 * SCALE as int);
    lemma_scale_stays_bounded(
        n,
        2 * SCALE as int,
        2 * v_dot(d, n),
        12 * SCALE as int,
        24 * SCALE as int,
    );
    crate::vector::lemma_normalize_unit_length(spec_reflect_dir(d, n));
}

/// Scaling a vector bounded by `ma` with a scalar bounded by `ms` keeps
/// every product within `ma * ms` and the scaled vector within `mr`,
/// provided `ma * ms <= mr * SCALE`.
pub proof fn lemma_scale_stays_bounded(a: Vec3Model, ma: int, s: int, ms: int, mr: int)
    requires
        0 <= ma,
        0 <= ms,
        0 <= mr,
        v_bounded(a, ma),
        -ms <= s <= ms,
        ma * ms <= mr * SCALE,
        mr * SCALE <= 9_000_000_000_000_000_000_000_000,
    ensures
        -9_000_000_000_000_000_000_000_000 <= a.x * s <= 9_000_000_000_000_000_000_000_000,
        -9_000_000_000_000_000_000_000_000 <= a.y * s <= 9_000_000_000_000_000_000_000_000,
        -9_000_000_000_000_000_000_000_000 <= a.z * s <= 9_000_000_000_000_000_000_000_000,
        v_bounded(v_scale(a, s), mr),
{
    assert(-(ma * ms) <= a.x * s <= ma * ms) by (nonlinear_arith)
        requires
            -ma <= a.x <= ma,
            -ms <= s <= ms,
            0 <= ma,
            0 <= ms,
    ;
    assert(-(ma * ms) <= a.y * s <= ma * ms) by (nonlinear_arith)
        requires
            -ma <= a.y <= ma,
            -ms <= s <= ms,
            0 <= ma,
            0 <= ms,
    ;
    assert(-(ma * ms) <= a.z * s <= ma * ms) by (nonlinear_arith)
        requires
            -ma <= a.z <= ma,
            -ms <= s <= ms,
            0 <= ma,
            0 <= ms,
    ;
    lemma_tdiv_bounds(a.x * s, SCALE as int, mr);
    lemma_tdiv_bounds(a.y * s, SCALE as int, mr);
    lemma_tdiv_bounds(a.z * s, SCALE as int, mr);
}

/// The fixed-point square of a bounded scalar is bounded by the square of
/// the bound, rescaled, and stays within `i64`.
pub proof fn lemma_fp_square_bounds(a: int, m: int)
    requires
        0 <= m <= 100_000_000_000,
        -m <= a <= m,
    ensures
        0 <= fp_mul_s(a, a) <= tdiv(m * m, SCALE as int),
        i64::MIN <= fp_mul_s(a, a) <= i64::MAX,
{
    assert(0 <= a * a <= m * m) by (nonlinear_arith)
        requires
            -m <= a <= m,
            0 <= m,
    ;
    lemma_tdiv_sign(a * a, SCALE as int);
    if a * a <= m * m {
        vstd::arithmetic::div_mod::lemma_div_is_ordered(a * a, m * m, SCALE as int);
    }
    assert(m * m <= 10_000_000_000_000_000_000_000int) by (nonlinear_arith)
        requires
            0 <= m <= 100_000_000_000,
    ;
    lemma_tdiv_bounds(m * m, SCALE as int, 10_000_000_000_000_000int);
    lemma_tdiv_bounds(a * a, SCALE as int, 10_000_000_000_000_000int);
}

/// A fixed-point product of scalars bounded by `ma` and `mb` stays within
/// `i64` and within `ma * mb / SCALE`.
pub proof fn lemma_fp_mul_range(a: int, b: int, ma: int, mb: int)
    requires
        0 <= ma <= 1_000_000_000_000,
        0 <= mb <= 1_000_000_000_000,
        -ma <= a <= ma,
        -mb <= b <= mb,
    ensures
        i64::MIN <= fp_mul_s(a, b) <= i64::MAX,
        -(ma * mb) <= a * b <= ma * mb,
        -tdiv(ma * mb, SCALE as int) <= fp_mul_s(a, b) <= tdiv(ma * mb, SCALE as int),
{
    assert(-(ma * mb) <= a * b <= ma * mb) by (nonlinear_arith)
        requires
            -ma <= a <= ma,
            -mb <= b <= mb,
            0 <= ma,
            0 <= mb,
    ;
    assert(ma * mb <= 1_000_000_000_000_000_000_000_000int) by (nonlinear_arith)
        requires
            0 <= ma <= 1_000_000_000_000,
            0 <= mb <= 1_000_000_000_000,
    ;
    lemma_tdiv_bounds(a * b, SCALE as int, 1_000_000_000_000_000_000int);
    let q = tdiv(ma * mb, SCALE as int);
    lemma_tdiv_sign(ma * mb, SCALE as int);
    if a * b >= 0 {
        vstd::arithmetic::div_mod::lemma_div_is_ordered(a * b, ma * mb, SCALE as int);
        lemma_tdiv_sign(a * b, SCALE as int);
    } else {
        vstd::arithmetic::div_mod::lemma_div_is_ordered(-(a * b), ma * mb, SCALE as int);
        lemma_tdiv_sign(a * b, SCALE as int);
    }
}

} // verus!
