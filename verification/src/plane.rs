//! Planes and their analytic ray intersection.

use vstd::prelude::*;
use crate::fixed::{SCALE, MAX_COORD, MAX_DIST, tdiv, div_i128, lemma_tdiv_sign};
use crate::vector::{Vector3, Point, Direction, Vec3Model, v_sub, v_neg, v_dot, v_dot_raw,
    v_bounded, lemma_dot_raw_bound};
use crate::ray::{Ray, RayModel, ray_wf};
use crate::primitives::{Material, material_wf};

verus! {

/// A ray direction counts as parallel to or facing away from a plane when
/// the denominator of the distance formula does not exceed this epsilon
/// (1e-6 in real units).
pub const PLANE_EPS: i64 = 1;

/// A plane: a point on it, its unit normal and the surface material.
#[derive(Clone, Copy, Debug)]
pub struct Plane {
    pub p0: Point,
    pub normal: Direction,
    pub material: Material,
}

/// Well-formedness: point within the admissible scene region, a
/// unit-bounded normal, material well formed.
pub open spec fn plane_wf(p: Plane) -> bool {
    &&& v_bounded(p.p0@, MAX_COORD as int)
    &&& v_bounded(p.normal@, 2 * SCALE as int)
    &&& material_wf(p.material)
}

/// The denominator of the plane distance formula: the cosine between the
/// plane normal and the ray direction.
pub open spec fn pln_denom(p: Plane, r: RayModel) -> int {
    v_dot(p.normal@, r.direction)
}

/// The signed distance to the plane along the ray: the projection of
/// `p0 - origin` onto the normal (kept at scale SCALE^2 for precision)
/// divided by the denominator (scale SCALE).
pub open spec fn pln_distance(p: Plane, r: RayModel) -> int {
    tdiv(v_dot_raw(v_sub(p.p0@, r.origin), p.normal@), pln_denom(p, r))
}

/// The hit distance of a ray against a plane, or nothing: rays parallel to
/// or moving away from the plane miss, as do hits behind the origin; hits
/// beyond MAX_DIST count as misses.
pub open spec fn spec_plane_intersect(p: Plane, r: RayModel) -> Option<int> {
    if pln_denom(p, r) > PLANE_EPS {
        let t = pln_distance(p, r);
        if 0 <= t <= MAX_DIST {
            Some(t)
        } else {
            None
        }
    } else {
        None
    }
}

/// The surface normal reported for shading: the plane normal, reversed
/// toward the incoming side.
pub open spec fn spec_plane_normal(p: Plane) -> Vec3Model {
    v_neg(p.normal@)
}

/// A ray parallel to the plane or moving away from it (denominator at most
/// the epsilon) never intersects it.
pub proof fn lemma_plane_parallel_none(p: Plane, r: RayModel)
    requires
        pln_denom(p, r) <= PLANE_EPS,
    ensures
        spec_plane_intersect(p, r) is None,
{
}

/// Whenever a plane intersection exists, its distance is the signed
/// distance to the plane along the ray: the returned `t` satisfies
/// `t * denom <= (p0 - origin) . normal < (t + 1) * denom` up to one
/// denominator of rounding, so the hit point lies on the plane to within
/// one unit of the last place; and `t` is non-negative and bounded.
pub proof fn lemma_plane_distance_exact(p: Plane, r: RayModel)
    requires
        spec_plane_intersect(p, r) is Some,
    ensures
        pln_denom(p, r) > PLANE_EPS,
        0 <= spec_plane_intersect(p, r)->Some_0 <= MAX_DIST,
        spec_plane_intersect(p, r)->Some_0 * pln_denom(p, r) - pln_denom(p, r) < v_dot_raw(
            v_sub(p.p0@, r.origin),
            p.normal@,
        ) < (spec_plane_intersect(p, r)->Some_0 + 1) * pln_denom(p, r),
{
    let d = pln_denom(p, r);
    let raw = v_dot_raw(v_sub(p.p0@, r.origin), p.normal@);
    let t = tdiv(raw, d);
    crate::fixed::lemma_tdiv_fundamental(raw, d);
    assert((t - 1) * d == t * d - d) by (nonlinear_arith);
    assert((t + 1) * d == t * d + d) by (nonlinear_arith);
}

impl crate::primitives::Intersectable for Plane {
    open spec fn wf(&self) -> bool {
        plane_wf(*self)
    }

    open spec fn spec_intersect(&self, r: RayModel) -> Option<int> {
        spec_plane_intersect(*self, r)
    }

    /// Nearest non-negative intersection distance of `ray` with this
    /// plane, or nothing: rays parallel to or facing away from the plane
    /// miss, as do hits behind the origin.
    fn intersect(&self, ray: &Ray) -> (r: Option<i64>) {
        let denom = self.normal.dot(ray.direction);
        if denom > PLANE_EPS {
            proof {
                lemma_dot_raw_bound(
                    v_sub(self.p0@, ray@.origin),
                    self.normal@,
                    3_000_000_000_000,
                    2 * SCALE as int,
                );
                lemma_tdiv_sign(
                    v_dot_raw(v_sub(self.p0@, ray@.origin), self.normal@),
                    denom as int,
                );
            }
            let v = self.p0.sub(ray.origin);
            let vn: i128 = (v.x as i128) * (self.normal.x as i128) + (v.y as i128) * (
            self.normal.y as i128) + (v.z as i128) * (self.normal.z as i128);
            let t = div_i128(vn, denom as i128);
            if t >= 0 && t <= MAX_DIST as i128 {
                Some(t as i64)
            } else {
                None
            }
        } else {
            None
        }
    }

}

impl crate::primitives::Renderable for Plane {
    open spec fn wf(&self) -> bool {
        plane_wf(*self)
    }

    open spec fn spec_material(&self) -> Material {
        self.material
    }

    open spec fn spec_normal(&self, hit: Vec3Model) -> Vec3Model {
        spec_plane_normal(*self)
    }

    /// The material of this plane.
    fn material(&self) -> (m: &Material) {
        &self.material
    }

    /// The surface normal reported for shading: the plane normal, reversed
    /// toward the incoming side.
    fn surface_normal(&self, _hit_point: &Point) -> (n: Direction) {
        self.normal.neg()
    }
}

} // verus!
