//! Light sources: directional lights and point lights with
//! inverse-square falloff.

use vstd::prelude::*;
use crate::fixed::{SCALE, MAX_COORD, tdiv, sqrt_floor, div_i128, lemma_tdiv_bounds,
    lemma_tdiv_sign};
use crate::vector::{Vector3, Point, Direction, Vec3Model, v_sub, v_norm2, v_len, v_normalize,
    v_bounded, lemma_dot_raw_bound, lemma_norm2_nonneg};
use crate::primitives::{Color, ColorModel, c_in_unit};

verus! {

/// Largest intensity a point light can deliver at a sample point: the
/// inverse-square falloff is capped here so that shading arithmetic stays
/// representable arbitrarily close to the light.
pub const INTENSITY_CAP: i64 = 1_000_000_000_000;

/// A light of constant direction and intensity, infinitely far away.
#[derive(Clone, Copy, Debug)]
pub struct DirectionalLight {
    pub direction: Direction,
    pub color: Color,
    pub intensity: i64,
}

/// A light radiating from a position, with inverse-square falloff.
#[derive(Clone, Copy, Debug)]
pub struct PointLight {
    pub position: Point,
    pub color: Color,
    pub intensity: i64,
}

/// The closed set of light kinds.
#[derive(Clone, Copy, Debug)]
pub enum Light {
    Directional(DirectionalLight),
    Point(PointLight),
}

/// Well-formedness: vectors within the admissible scene region, color in
/// the unit interval, intensity non-negative and bounded.
pub open spec fn light_wf(l: Light) -> bool {
    match l {
        Light::Directional(d) => v_bounded(d.direction@, MAX_COORD as int) && c_in_unit(d.color@)
            && 0 <= d.intensity <= MAX_COORD,
        Light::Point(p) => v_bounded(p.position@, MAX_COORD as int) && c_in_unit(p.color@) && 0
            <= p.intensity <= MAX_COORD,
    }
}

/// The direction light travels at a sample point: constant for a
/// directional light, the unit vector from the light's position for a
/// point light.
pub open spec fn spec_light_direction(l: Light, hit: Vec3Model) -> Vec3Model {
    match l {
        Light::Directional(d) => d.direction@,
        Light::Point(p) => v_normalize(v_sub(hit, p.position@)),
    }
}

/// The color of the light at a sample point.
pub open spec fn spec_light_color(l: Light) -> ColorModel {
    match l {
        Light::Directional(d) => d.color@,
        Light::Point(p) => p.color@,
    }
}

/// Squared distance from a point light to the sample point, at scale
/// SCALE^2.
pub open spec fn spec_point_dist2(p: PointLight, hit: Vec3Model) -> int {
    v_norm2(v_sub(hit, p.position@))
}

/// The intensity delivered at a sample point: constant for a directional
/// light; `intensity / (4 pi distance^2)` for a point light (the literals
/// are SCALE^3 and 4 * FP_PI), capped at INTENSITY_CAP, and zero exactly
/// at the light's own position.
pub open spec fn spec_light_intensity(l: Light, hit: Vec3Model) -> int {
    match l {
        Light::Directional(d) => d.intensity as int,
        Light::Point(p) => {
            let dd = spec_point_dist2(p, hit);
            if dd == 0 {
                0
            } else {
                let q = tdiv(p.intensity * 1_000_000_000_000_000_000, 12_566_372 * dd);
                if q > INTENSITY_CAP {
                    INTENSITY_CAP as int
                } else {
                    q
                }
            }
        },
    }
}

/// The distance from the light to a sample point: effectively infinite for
/// a directional light (any occluder blocks it), the fixed-point distance
/// for a point light.
pub open spec fn spec_light_distance(l: Light, hit: Vec3Model) -> int {
    match l {
        Light::Directional(_) => i64::MAX as int,
        Light::Point(p) => v_len(v_sub(p.position@, hit)),
    }
}

impl Light {
    /// The direction light travels at a sample point.
    pub fn get_direction(&self, hit_point: Point) -> (r: Direction)
        requires
            light_wf(*self),
            v_bounded(hit_point@, 1_000_000_000_000),
        ensures
            r@ == spec_light_direction(*self, hit_point@),
            v_bounded(r@, MAX_COORD as int),
    {
        match self {
            Light::Directional(d) => d.direction,
            Light::Point(p) => hit_point.sub(p.position).normalize(),
        }
    }

    /// The color of the light at a sample point.
    pub fn get_color(&self, _hit_point: Point) -> (r: Color)
        requires
            light_wf(*self),
        ensures
            r@ == spec_light_color(*self),
            c_in_unit(r@),
    {
        match self {
            Light::Directional(d) => d.color,
            Light::Point(p) => p.color,
        }
    }

    /// The intensity delivered at a sample point.
    pub fn get_intensity(&self, hit_point: Point) -> (r: i64)
        requires
            light_wf(*self),
            v_bounded(hit_point@, 1_000_000_000_000),
        ensures
            r as int == spec_light_intensity(*self, hit_point@),
            0 <= r <= INTENSITY_CAP,
    {
        match self {
            Light::Directional(d) => d.intensity,
            Light::Point(p) => {
                proof {
                    lemma_dot_raw_bound(
                        v_sub(hit_point@, p.position@),
                        v_sub(hit_point@, p.position@),
                        2_000_000_000_000,
                        2_000_000_000_000,
                    );
                    lemma_norm2_nonneg(v_sub(hit_point@, p.position@));
                }
                let d = hit_point.sub(p.position);
                let dd: i128 = (d.x as i128) * (d.x as i128) + (d.y as i128) * (d.y as i128) + (
                d.z as i128) * (d.z as i128);
                if dd == 0 {
                    0
                } else {
                    let num: i128 = (p.intensity as i128) * 1_000_000_000_000_000_000;
                    let den: i128 = 12_566_372 * dd;
                    proof {
                        lemma_tdiv_sign(num as int, den as int);
                    }
                    let q = div_i128(num, den);
                    if q > INTENSITY_CAP as i128 {
                        INTENSITY_CAP
                    } else {
                        q as i64
                    }
                }
            },
        }
    }

    /// The distance from the light to a sample point.
    pub fn get_distance_to(&self, other: Point) -> (r: i64)
        requires
            light_wf(*self),
            v_bounded(other@, 1_000_000_000_000),
        ensures
            r as int == spec_light_distance(*self, other@),
            0 <= r,
    {
        match self {
            Light::Directional(_) => i64::MAX,
            Light::Point(p) => p.position.sub(other).length(),
        }
    }
}

} // verus!
