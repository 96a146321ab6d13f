//! Spheres and their analytic ray intersection.

use vstd::prelude::*;
use crate::fixed::{SCALE, MAX_COORD, MAX_DIST, tdiv, sqrt_floor, is_sqrt_floor, isqrt, div_i128,
    lemma_tdiv_bounds, lemma_tdiv_sign};
use crate::vector::{Vector3, Point, Direction, Vec3Model, v_sub, v_dot_raw, v_norm2, v_normalize,
    v_bounded, lemma_dot_raw_bound, lemma_norm2_nonneg};
use crate::ray::{Ray, RayModel, ray_wf};
use crate::primitives::{Material, material_wf};

verus! {

/// A sphere: center, radius and surface material.
#[derive(Clone, Copy, Debug)]
pub struct Sphere {
    pub center: Point,
    pub radius: i64,
    pub material: Material,
}

/// Well-formedness: center and radius within the admissible scene region,
/// material well formed.
pub open spec fn sphere_wf(s: Sphere) -> bool {
    &&& v_bounded(s.center@, MAX_COORD as int)
    &&& 0 < s.radius <= MAX_COORD
    &&& material_wf(s.material)
}

/// The vector from the ray origin to the sphere center.
pub open spec fn sph_o_ray(s: Sphere, r: RayModel) -> Vec3Model {
    v_sub(s.center@, r.origin)
}

/// Projection of that vector onto the ray direction, at scale SCALE^2.
pub open spec fn sph_proj(s: Sphere, r: RayModel) -> int {
    v_dot_raw(sph_o_ray(s, r), r.direction)
}

/// Squared perpendicular distance from the center to the ray line, at
/// scale SCALE^4 (the literal is SCALE squared).
pub open spec fn sph_d2(s: Sphere, r: RayModel) -> int {
    v_norm2(sph_o_ray(s, r)) * 1_000_000_000_000 - sph_proj(s, r) * sph_proj(s, r)
}

/// Squared radius, at scale SCALE^4 (the literal is SCALE squared).
pub open spec fn sph_r2(s: Sphere) -> int {
    (s.radius as int) * (s.radius as int) * 1_000_000_000_000
}

/// The nearest non-negative hit distance of a ray against a sphere, or
/// nothing: the perpendicular-distance rejection, then the nearer
/// non-negative root; hits beyond MAX_DIST count as misses.
pub open spec fn spec_sphere_intersect(s: Sphere, r: RayModel) -> Option<int> {
    if sph_d2(s, r) > sph_r2(s) {
        None
    } else {
        let thickness = sqrt_floor(sph_r2(s) - sph_d2(s, r));
        let t0 = sph_proj(s, r) - thickness;
        let t1 = sph_proj(s, r) + thickness;
        if t0 < 0 && t1 < 0 {
            None
        } else {
            let c = if t0 < 0 {
                t1
            } else if t1 < 0 {
                t0
            } else if t0 < t1 {
                t0
            } else {
                t1
            };
            let t = tdiv(c, SCALE as int);
            if t > MAX_DIST {
                None
            } else {
                Some(t)
            }
        }
    }
}

/// The outward unit normal at a point of the sphere's surface.
pub open spec fn spec_sphere_normal(s: Sphere, hit: Vec3Model) -> Vec3Model {
    v_normalize(v_sub(hit, s.center@))
}

/// A ray whose line passes the sphere's center farther than the radius
/// never intersects the sphere.
pub proof fn lemma_sphere_miss_when_far(s: Sphere, r: RayModel)
    requires
        sph_d2(s, r) > sph_r2(s),
    ensures
        spec_sphere_intersect(s, r) is None,
{
}

/// Whenever a sphere intersection exists, its distance is non-negative and
/// at most MAX_DIST.
pub proof fn lemma_sphere_hit_nonneg(s: Sphere, r: RayModel)
    ensures
        spec_sphere_intersect(s, r) is Some ==> 0 <= spec_sphere_intersect(s, r)->Some_0
            <= MAX_DIST,
{
    if sph_d2(s, r) <= sph_r2(s) {
        crate::fixed::lemma_sqrt_floor_exists(sph_r2(s) - sph_d2(s, r));
        let thickness = sqrt_floor(sph_r2(s) - sph_d2(s, r));
        let t0 = sph_proj(s, r) - thickness;
        let t1 = sph_proj(s, r) + thickness;
        if !(t0 < 0 && t1 < 0) {
            let c = if t0 < 0 {
                t1
            } else if t1 < 0 {
                t0
            } else if t0 < t1 {
                t0
            } else {
                t1
            };
            lemma_tdiv_sign(c, SCALE as int);
        }
    }
}

impl crate::primitives::Intersectable for Sphere {
    open spec fn wf(&self) -> bool {
        sphere_wf(*self)
    }

    open spec fn spec_intersect(&self, r: RayModel) -> Option<int> {
        spec_sphere_intersect(*self, r)
    }

    /// Nearest non-negative intersection distance of `ray` with this
    /// sphere, or nothing: the perpendicular-distance rejection, then the
    /// nearer non-negative root.
    fn intersect(&self, ray: &Ray) -> (r: Option<i64>) {
        proof {
            lemma_dot_raw_bound(
                sph_o_ray(*self, ray@),
                sph_o_ray(*self, ray@),
                3_000_000_000_000,
                3_000_000_000_000,
            );
            lemma_dot_raw_bound(sph_o_ray(*self, ray@), ray@.direction, 3_000_000_000_000, SCALE as int);
            lemma_norm2_nonneg(sph_o_ray(*self, ray@));
        }
        let o_ray = self.center.sub(ray.origin);
        // projection of o_ray onto the ray direction, at scale SCALE^2
        let o_proj: i128 = (o_ray.x as i128) * (ray.direction.x as i128) + (o_ray.y as i128) * (
        ray.direction.y as i128) + (o_ray.z as i128) * (ray.direction.z as i128);
        let oo: i128 = (o_ray.x as i128) * (o_ray.x as i128) + (o_ray.y as i128) * (o_ray.y as i128)
            + (o_ray.z as i128) * (o_ray.z as i128);
        proof {
            assert((o_proj as int) * (o_proj as int) <= 81_000_000_000_000_000_000_000_000_000_000_000_000int)
                by (nonlinear_arith)
                requires
                    -9_000_000_000_000_000_000 <= o_proj as int <= 9_000_000_000_000_000_000,
            ;
            assert(0 <= (o_proj as int) * (o_proj as int)) by (nonlinear_arith);
            assert((self.radius as int) * (self.radius as int) <= 1_000_000_000_000_000_000int)
                by (nonlinear_arith)
                requires
                    0 < self.radius <= 1_000_000_000,
            ;
            assert(0 <= (self.radius as int) * (self.radius as int)) by (nonlinear_arith);
        }
        // squared perpendicular distance and squared radius, at scale SCALE^4
        let d2: i128 = oo * 1_000_000_000_000 - o_proj * o_proj;
        let r64: i128 = self.radius as i128;
        let r2: i128 = r64 * r64 * 1_000_000_000_000;
        if d2 > r2 {
            return None;
        }
        // both roots along the ray, at scale SCALE^2
        let thickness = isqrt(r2 - d2);
        let t0 = o_proj - thickness;
        let t1 = o_proj + thickness;
        if t0 < 0 && t1 < 0 {
            None
        } else {
            let c = if t0 < 0 {
                t1
            } else if t1 < 0 {
                t0
            } else if t0 < t1 {
                t0
            } else {
                t1
            };
            proof {
                lemma_tdiv_sign(c as int, SCALE as int);
                lemma_tdiv_bounds(c as int, SCALE as int, 50_000_000_000_000_000_000int);
            }
            let t = div_i128(c, 1_000_000);
            if t > MAX_DIST as i128 {
                None
            } else {
                Some(t as i64)
            }
        }
    }

}

impl crate::primitives::Renderable for Sphere {
    open spec fn wf(&self) -> bool {
        sphere_wf(*self)
    }

    open spec fn spec_material(&self) -> Material {
        self.material
    }

    open spec fn spec_normal(&self, hit: Vec3Model) -> Vec3Model {
        spec_sphere_normal(*self, hit)
    }

    /// The material of this sphere.
    fn material(&self) -> (m: &Material)
        ensures
            *m == self.spec_material(),
    {
        &self.material
    }

    /// The outward unit normal at a surface point.
    fn surface_normal(&self, hit_point: &Point) -> (n: Direction) {
        hit_point.sub(self.center).normalize()
    }
}

} // verus!
