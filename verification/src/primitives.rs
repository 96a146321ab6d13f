//! Colors, materials and the closed set of renderable objects.
//!
//! A `Color` holds three linear-space channels in fixed point. Channel
//! arithmetic may leave [0, SCALE] transiently; only the final per-pixel
//! value is clamped.

use vstd::prelude::*;
use crate::fixed::{SCALE, MAX_DIST, fp_mul_s, clamp_unit_s, fp_mul, clamp_unit, lemma_tdiv_bounds};
use crate::vector::{Point, Direction, Vec3Model, v_bounded};
use crate::ray::{Ray, RayModel, ray_wf};
use crate::sphere::{Sphere, sphere_wf, spec_sphere_intersect, spec_sphere_normal};
use crate::plane::{Plane, plane_wf, spec_plane_intersect, spec_plane_normal};

verus! {

/// Mathematical model of a color: unbounded fixed-point channels.
pub struct ColorModel {
    pub r: int,
    pub g: int,
    pub b: int,
}

/// A linear-space color, each channel in fixed point (SCALE is 1.0).
#[derive(Clone, Copy, Debug, PartialEq, Eq, Structural)]
pub struct Color {
    pub r: i64,
    pub g: i64,
    pub b: i64,
}

impl View for Color {
    type V = ColorModel;

    open spec fn view(&self) -> ColorModel {
        ColorModel { r: self.r as int, g: self.g as int, b: self.b as int }
    }
}

/// Channelwise sum.
pub open spec fn c_add(a: ColorModel, b: ColorModel) -> ColorModel {
    ColorModel { r: a.r + b.r, g: a.g + b.g, b: a.b + b.b }
}

/// Channelwise fixed-point product.
pub open spec fn c_mul(a: ColorModel, b: ColorModel) -> ColorModel {
    ColorModel { r: fp_mul_s(a.r, b.r), g: fp_mul_s(a.g, b.g), b: fp_mul_s(a.b, b.b) }
}

/// Fixed-point product of every channel with a scalar.
pub open spec fn c_scale(a: ColorModel, s: int) -> ColorModel {
    ColorModel { r: fp_mul_s(a.r, s), g: fp_mul_s(a.g, s), b: fp_mul_s(a.b, s) }
}

/// Every channel clamped into [0, SCALE].
pub open spec fn c_clamp(a: ColorModel) -> ColorModel {
    ColorModel { r: clamp_unit_s(a.r), g: clamp_unit_s(a.g), b: clamp_unit_s(a.b) }
}

/// Pure black.
pub open spec fn c_black() -> ColorModel {
    ColorModel { r: 0, g: 0, b: 0 }
}

/// Every channel has magnitude at most `m`.
pub open spec fn c_bounded(a: ColorModel, m: int) -> bool {
    -m <= a.r <= m && -m <= a.g <= m && -m <= a.b <= m
}

/// Every channel lies in the unit interval [0, SCALE].
pub open spec fn c_in_unit(a: ColorModel) -> bool {
    0 <= a.r <= SCALE && 0 <= a.g <= SCALE && 0 <= a.b <= SCALE
}

/// Every channel is non-negative.
pub open spec fn c_nonneg(a: ColorModel) -> bool {
    0 <= a.r && 0 <= a.g && 0 <= a.b
}

impl Color {
    /// Build a color from its three channels.
    pub fn new(r: i64, g: i64, b: i64) -> (c: Color)
        ensures
            c@ == (ColorModel { r: r as int, g: g as int, b: b as int }),
    {
        Color { r, g, b }
    }

    /// Pure black.
    pub fn black() -> (c: Color)
        ensures
            c@ == c_black(),
    {
        Color { r: 0, g: 0, b: 0 }
    }

    /// Clamp every channel into [0, SCALE].
    pub fn clamp(&self) -> (c: Color)
        ensures
            c@ == c_clamp(self@),
            c_in_unit(c@),
    {
        Color { r: clamp_unit(self.r), g: clamp_unit(self.g), b: clamp_unit(self.b) }
    }

    /// Channelwise sum.
    pub fn add(self, o: Color) -> (c: Color)
        requires
            c_bounded(self@, 1_000_000_000_000_000_000),
            c_bounded(o@, 1_000_000_000_000_000_000),
        ensures
            c@ == c_add(self@, o@),
    {
        Color { r: self.r + o.r, g: self.g + o.g, b: self.b + o.b }
    }

    /// Channelwise fixed-point product with a unit-interval color.
    pub fn mul(self, o: Color) -> (c: Color)
        requires
            c_bounded(self@, 100_000_000_000_000_000),
            c_in_unit(o@),
        ensures
            c@ == c_mul(self@, o@),
    {
        proof {
            lemma_scale_in_range(self@.r, o@.r);
            lemma_scale_in_range(self@.g, o@.g);
            lemma_scale_in_range(self@.b, o@.b);
        }
        Color { r: fp_mul(self.r, o.r), g: fp_mul(self.g, o.g), b: fp_mul(self.b, o.b) }
    }

    /// Fixed-point product of every channel with a non-negative scalar.
    pub fn mul_scalar(self, s: i64) -> (c: Color)
        requires
            0 <= s,
            -9_000_000_000_000_000_000_000_000 <= self@.r * s <= 9_000_000_000_000_000_000_000_000,
            -9_000_000_000_000_000_000_000_000 <= self@.g * s <= 9_000_000_000_000_000_000_000_000,
            -9_000_000_000_000_000_000_000_000 <= self@.b * s <= 9_000_000_000_000_000_000_000_000,
        ensures
            c@ == c_scale(self@, s as int),
    {
        proof {
            lemma_tdiv_bounds(self@.r * s, SCALE as int, 9_000_000_000_000_000_000int);
            lemma_tdiv_bounds(self@.g * s, SCALE as int, 9_000_000_000_000_000_000int);
            lemma_tdiv_bounds(self@.b * s, SCALE as int, 9_000_000_000_000_000_000int);
        }
        Color { r: fp_mul(self.r, s), g: fp_mul(self.g, s), b: fp_mul(self.b, s) }
    }
}

/// Scaling a bounded channel by a unit-interval factor keeps it in `i64`
/// range; the product shrinks in magnitude.
pub proof fn lemma_scale_in_range(a: int, u: int)
    requires
        -100_000_000_000_000_000 <= a <= 100_000_000_000_000_000,
        0 <= u <= SCALE,
    ensures
        i64::MIN <= fp_mul_s(a, u) <= i64::MAX,
        -100_000_000_000_000_000_000_000 <= a * u <= 100_000_000_000_000_000_000_000,
        0 <= a ==> 0 <= fp_mul_s(a, u) <= a,
{
    assert(-(100_000_000_000_000_000int * (SCALE as int)) <= a * u <= 100_000_000_000_000_000int
        * (SCALE as int)) by (nonlinear_arith)
        requires
            -100_000_000_000_000_000 <= a <= 100_000_000_000_000_000,
            0 <= u <= SCALE,
    ;
    lemma_tdiv_bounds(a * u, SCALE as int, 100_000_000_000_000_000int);
    if 0 <= a {
        assert(0 <= a * u <= a * (SCALE as int)) by (nonlinear_arith)
            requires
                0 <= a,
                0 <= u <= SCALE,
        ;
        lemma_tdiv_bounds(a * u, SCALE as int, a);
        crate::fixed::lemma_tdiv_sign(a * u, SCALE as int);
    }
}

/// Scaling a unit-interval channel by a non-negative bounded scalar yields
/// a value between zero and the scalar.
pub proof fn lemma_unit_scale(a: int, s: int)
    requires
        0 <= a <= SCALE,
        0 <= s <= 10_000_000_000_000_000,
    ensures
        0 <= fp_mul_s(a, s) <= s,
        0 <= a * s <= 10_000_000_000_000_000_000_000,
{
    assert(0 <= a * s <= (SCALE as int) * s) by (nonlinear_arith)
        requires
            0 <= a <= SCALE,
            0 <= s,
    ;
    assert((SCALE as int) * s <= 10_000_000_000_000_000_000_000int);
    crate::fixed::lemma_tdiv_sign(a * s, SCALE as int);
    vstd::arithmetic::div_mod::lemma_div_is_ordered(a * s, (SCALE as int) * s, SCALE as int);
    vstd::arithmetic::div_mod::lemma_div_multiples_vanish(s, SCALE as int);
}

/// The product of unit-interval channels stays in the unit interval; the
/// clamp is the identity on unit-interval channels.
pub proof fn lemma_unit_closed(a: ColorModel, b: ColorModel)
    requires
        c_in_unit(a),
        c_in_unit(b),
    ensures
        c_in_unit(c_mul(a, b)),
        c_clamp(a) == a,
{
    lemma_scale_in_range(a.r, b.r);
    lemma_scale_in_range(a.g, b.g);
    lemma_scale_in_range(a.b, b.b);
}

/// Surface behavior of a material: Lambertian, mirror blend, or dielectric.
#[derive(Clone, Copy, Debug)]
pub enum SurfaceType {
    Diffuse,
    Reflective { reflectivity: i64, specular_color: Color },
    Refractive { index: i64, transparency: i64, reflectivity: i64 },
}

/// Smallest admissible refractive index (0.5 in real units).
pub const MIN_INDEX: i64 = 500_000;

/// Largest admissible refractive index (4 in real units).
pub const MAX_INDEX: i64 = 4 * SCALE;

/// Well-formedness of a surface description: blend weights in the unit
/// interval and a refractive index in its admissible range.
pub open spec fn surface_wf(s: SurfaceType) -> bool {
    match s {
        SurfaceType::Diffuse => true,
        SurfaceType::Reflective { reflectivity, specular_color } => 0 <= reflectivity <= SCALE
            && c_in_unit(specular_color@),
        SurfaceType::Refractive { index, transparency, reflectivity } => MIN_INDEX <= index
            <= MAX_INDEX && 0 <= transparency <= SCALE && 0 <= reflectivity <= SCALE,
    }
}

/// A surface material: base color, diffuse albedo and surface behavior.
#[derive(Clone, Copy, Debug)]
pub struct Material {
    pub color: Color,
    pub albedo: i64,
    pub surface: SurfaceType,
}

/// Well-formedness of a material: base color and albedo in the unit
/// interval, surface description well formed.
pub open spec fn material_wf(m: Material) -> bool {
    c_in_unit(m.color@) && 0 <= m.albedo <= SCALE && surface_wf(m.surface)
}

/// The intersection capability of a shape: the exact hit distance it
/// yields for a ray, stated through its own specification functions.
pub trait Intersectable {
    /// Well-formedness the shape needs for overflow-safe intersection.
    spec fn wf(&self) -> bool;

    /// The exact hit distance this shape yields for a ray, or nothing.
    spec fn spec_intersect(&self, r: RayModel) -> Option<int>;

    /// Nearest non-negative intersection distance of `ray`, or nothing.
    fn intersect(&self, ray: &Ray) -> (r: Option<i64>)
        requires
            self.wf(),
            ray_wf(ray@),
        ensures
            match r {
                Some(t) => self.spec_intersect(ray@) == Some(t as int) && 0 <= t <= MAX_DIST,
                None => self.spec_intersect(ray@) is None,
            },
    ;
}

/// The shading capability of a shape: its material and its surface
/// normals, stated through its own specification functions.
pub trait Renderable {
    /// Well-formedness the shape needs for overflow-safe normals.
    spec fn wf(&self) -> bool;

    /// The shape's material.
    spec fn spec_material(&self) -> Material;

    /// The exact normal the shape reports at a hit point.
    spec fn spec_normal(&self, hit: Vec3Model) -> Vec3Model;

    /// The material of this shape.
    fn material(&self) -> (m: &Material)
        ensures
            *m == self.spec_material(),
    ;

    /// The surface normal reported for shading at a hit point.
    fn surface_normal(&self, hit_point: &Point) -> (n: Direction)
        requires
            self.wf(),
            v_bounded(hit_point@, 1_000_000_000_000),
        ensures
            n@ == self.spec_normal(hit_point@),
            v_bounded(n@, 2 * SCALE as int),
    ;

    /// The base color of this shape's material.
    fn color(&self) -> (c: &Color)
        ensures
            *c == self.spec_material().color,
    {
        &self.material().color
    }

    /// The diffuse albedo of this shape's material.
    fn albedo(&self) -> (a: i64)
        ensures
            a == self.spec_material().albedo,
    {
        self.material().albedo
    }
}

/// A complete scene object: anything that can be hit and shaded.
pub trait Object: Renderable + Intersectable {

}

impl<T: Renderable + Intersectable> Object for T {

}

/// The closed set of renderable object kinds: everything a ray can hit.
#[derive(Clone, Copy, Debug)]
pub enum Primitive {
    Sphere(Sphere),
    Plane(Plane),
}

/// Well-formedness of an object, by kind.
pub open spec fn primitive_wf(o: Primitive) -> bool {
    match o {
        Primitive::Sphere(s) => sphere_wf(s),
        Primitive::Plane(p) => plane_wf(p),
    }
}

/// The hit distance of a ray against an object, or nothing, by kind.
pub open spec fn spec_primitive_intersect(o: Primitive, r: RayModel) -> Option<int> {
    match o {
        Primitive::Sphere(s) => spec_sphere_intersect(s, r),
        Primitive::Plane(p) => spec_plane_intersect(p, r),
    }
}

/// The surface normal reported for shading at a hit point, by kind.
pub open spec fn spec_primitive_normal(o: Primitive, hit: Vec3Model) -> Vec3Model {
    match o {
        Primitive::Sphere(s) => spec_sphere_normal(s, hit),
        Primitive::Plane(p) => spec_plane_normal(p),
    }
}

/// The material of an object, by kind.
pub open spec fn primitive_material(o: Primitive) -> Material {
    match o {
        Primitive::Sphere(s) => s.material,
        Primitive::Plane(p) => p.material,
    }
}

impl Intersectable for Primitive {
    open spec fn wf(&self) -> bool {
        primitive_wf(*self)
    }

    open spec fn spec_intersect(&self, r: RayModel) -> Option<int> {
        spec_primitive_intersect(*self, r)
    }

    fn intersect(&self, ray: &Ray) -> (r: Option<i64>) {
        match self {
            Primitive::Sphere(s) => s.intersect(ray),
            Primitive::Plane(p) => p.intersect(ray),
        }
    }
}

impl Renderable for Primitive {
    open spec fn wf(&self) -> bool {
        primitive_wf(*self)
    }

    open spec fn spec_material(&self) -> Material {
        primitive_material(*self)
    }

    open spec fn spec_normal(&self, hit: Vec3Model) -> Vec3Model {
        spec_primitive_normal(*self, hit)
    }

    fn material(&self) -> (m: &Material) {
        match self {
            Primitive::Sphere(s) => s.material(),
            Primitive::Plane(p) => p.material(),
        }
    }

    fn surface_normal(&self, hit_point: &Point) -> (n: Direction) {
        match self {
            Primitive::Sphere(s) => s.surface_normal(hit_point),
            Primitive::Plane(p) => p.surface_normal(hit_point),
        }
    }
}

} // verus!
