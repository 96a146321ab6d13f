//! The scene and the tracer: nearest-hit selection, recursive Whitted-style
//! shading with shadows, reflection, refraction and Fresnel blending, and
//! the per-pixel render loop.

use vstd::prelude::*;
use crate::fixed::{SCALE, FP_PI, MAX_COORD, MAX_DIST, tdiv, fp_mul_s, fp_div_s, fp_sqrt_s,
    clamp_unit_s, fp_mul, fp_div, fp_sqrt, clamp_unit, div_i128, lemma_tdiv_bounds,
    lemma_tdiv_sign};
use crate::vector::{Vector3, Point, Direction, Vec3Model, v_add, v_sub, v_neg, v_dot, v_dot_raw,
    v_scale, v_normalize, v_bounded, lemma_dot_raw_bound};
use crate::ray::{Ray, RayModel, ray_wf, spec_reflect_dir, spec_ref_normal, spec_cos_in,
    spec_trans_k, spec_trans_dir, lemma_fp_mul_range, lemma_fp_square_bounds};
use crate::primitives::{Color, ColorModel, c_add, c_mul, c_scale, c_clamp, c_black, c_bounded,
    c_in_unit, c_nonneg, Material, SurfaceType, material_wf, Primitive, primitive_wf,
    spec_primitive_intersect, spec_primitive_normal, primitive_material, lemma_unit_closed,
    Intersectable, Renderable};
use crate::light::{Light, light_wf, spec_light_direction, spec_light_color, spec_light_intensity,
    spec_light_distance, INTENSITY_CAP};

verus! {

/// The scene failed validation before rendering: the image must be
/// landscape (width above height) and every quantity must lie within the
/// admissible fixed-point ranges.
#[derive(Clone, Copy, Debug, PartialEq, Eq, Structural)]
pub struct ConfigError;

/// A scene: image geometry, camera field of view (stored as the
/// fixed-point tangent of half the field-of-view angle), the primitives
/// and lights, the shadow bias and the recursion budget.
pub struct Scene {
    pub width: u32,
    pub height: u32,
    pub fov_adjustment: i64,
    pub objects: Vec<Primitive>,
    pub lights: Vec<Light>,
    pub shadow_bias: i64,
    pub max_recursion_depth: u32,
}

/// The camera constraints: a landscape image of bounded size and a
/// positive, bounded field-of-view tangent.
pub open spec fn camera_wf(s: &Scene) -> bool {
    &&& 0 < s.height < s.width <= 4096
    &&& 0 < s.fov_adjustment <= 100 * SCALE
}

impl Scene {
    /// Well-formedness of the whole scene: camera constraints, every
    /// object and light well formed, bounded light count, bias in [0, 1]
    /// and a bounded recursion budget.
    pub open spec fn wf(&self) -> bool {
        &&& camera_wf(self)
        &&& 0 <= self.shadow_bias <= SCALE
        &&& self.max_recursion_depth <= 32
        &&& self.lights@.len() <= 1000
        &&& forall|i: int| 0 <= i < self.objects@.len() ==> primitive_wf(#[trigger] self.objects@[i])
        &&& forall|i: int| 0 <= i < self.lights@.len() ==> light_wf(#[trigger] self.lights@[i])
    }

    /// Check every validation condition of `wf`, so that rendering can
    /// reject a bad configuration instead of failing midway.
    pub fn validate(&self) -> (r: bool)
        ensures
            r == self.wf(),
    {
        if !(0 < self.height && self.height < self.width && self.width <= 4096) {
            return false;
        }
        if !(0 < self.fov_adjustment && self.fov_adjustment <= 100 * SCALE) {
            return false;
        }
        if !(0 <= self.shadow_bias && self.shadow_bias <= SCALE) {
            return false;
        }
        if self.max_recursion_depth > 32 {
            return false;
        }
        if self.lights.len() > 1000 {
            return false;
        }
        let mut i: usize = 0;
        while i < self.objects.len()
            invariant
                0 <= i <= self.objects@.len(),
                forall|j: int| 0 <= j < i ==> primitive_wf(#[trigger] self.objects@[j]),
            decreases self.objects@.len() - i,
        {
            if !object_valid(&self.objects[i]) {
                return false;
            }
            i = i + 1;
        }
        let mut i: usize = 0;
        while i < self.lights.len()
            invariant
                0 <= i <= self.lights@.len(),
                forall|j: int| 0 <= j < i ==> light_wf(#[trigger] self.lights@[j]),
            decreases self.lights@.len() - i,
        {
            if !light_valid(&self.lights[i]) {
                return false;
            }
            i = i + 1;
        }
        true
    }
}

/// Check that a vector's components all have magnitude at most `m`.
fn vector_within(v: &Vector3, m: i64) -> (r: bool)
    requires
        0 <= m,
    ensures
        r == v_bounded(v@, m as int),
{
    -m <= v.x && v.x <= m && -m <= v.y && v.y <= m && -m <= v.z && v.z <= m
}

/// Check that a color's channels all lie in the unit interval.
fn color_valid(c: &Color) -> (r: bool)
    ensures
        r == c_in_unit(c@),
{
    0 <= c.r && c.r <= SCALE && 0 <= c.g && c.g <= SCALE && 0 <= c.b && c.b <= SCALE
}

/// Check well-formedness of a material.
fn material_valid(m: &Material) -> (r: bool)
    ensures
        r == material_wf(*m),
{
    let surface_ok = match m.surface {
        SurfaceType::Diffuse => true,
        SurfaceType::Reflective { reflectivity, specular_color } => 0 <= reflectivity
            && reflectivity <= SCALE && color_valid(&specular_color),
        SurfaceType::Refractive { index, transparency, reflectivity } => {
            crate::primitives::MIN_INDEX <= index && index <= crate::primitives::MAX_INDEX && 0
                <= transparency && transparency <= SCALE && 0 <= reflectivity && reflectivity
                <= SCALE
        },
    };
    color_valid(&m.color) && 0 <= m.albedo && m.albedo <= SCALE && surface_ok
}

/// Check well-formedness of an object.
fn object_valid(o: &Primitive) -> (r: bool)
    ensures
        r == primitive_wf(*o),
{
    match o {
        Primitive::Sphere(s) => vector_within(&s.center, MAX_COORD) && 0 < s.radius && s.radius
            <= MAX_COORD && material_valid(&s.material),
        Primitive::Plane(p) => vector_within(&p.p0, MAX_COORD) && vector_within(&p.normal, 2 * SCALE)
            && material_valid(&p.material),
    }
}

/// Check well-formedness of a light.
fn light_valid(l: &Light) -> (r: bool)
    ensures
        r == light_wf(*l),
{
    match l {
        Light::Directional(d) => vector_within(&d.direction, MAX_COORD) && color_valid(&d.color)
            && 0 <= d.intensity && d.intensity <= MAX_COORD,
        Light::Point(p) => vector_within(&p.position, MAX_COORD) && color_valid(&p.color) && 0
            <= p.intensity && p.intensity <= MAX_COORD,
    }
}

/// Fresnel reflectance of a dielectric boundary: the fraction of light
/// reflected rather than transmitted, from the full (non-Schlick) Fresnel
/// equations. Entering and exiting rays select the index pair from the
/// sign of `d . n`; a transmitted-angle sine above one means total internal
/// reflection (reflectance one); otherwise the s- and p-polarized
/// amplitudes are formed from the incidence cosine `|d . n|` and the
/// transmitted-angle cosine, and their squares are averaged. A vanishing
/// denominator (grazing incidence) also yields reflectance one.
pub open spec fn spec_fresnel(d: Vec3Model, n: Vec3Model, index: int) -> int {
    let ddn = v_dot(d, n);
    let eta_i = if ddn > 0 {
        index
    } else {
        SCALE as int
    };
    let eta_t = if ddn > 0 {
        SCALE as int
    } else {
        index
    };
    let cos_i = spec_cos_in(d, n);
    let base = SCALE - fp_mul_s(ddn, ddn);
    let clamped_base = if base < 0 {
        0
    } else {
        base
    };
    let sin_t = fp_mul_s(fp_div_s(eta_i, eta_t), fp_sqrt_s(clamped_base));
    if sin_t > SCALE {
        SCALE as int
    } else {
        let ct_base = SCALE - fp_mul_s(sin_t, sin_t);
        let clamped_ct = if ct_base < 0 {
            0
        } else {
            ct_base
        };
        let cos_t = fp_sqrt_s(clamped_ct);
        let ii = fp_mul_s(eta_i, cos_i);
        let tt = fp_mul_s(eta_t, cos_t);
        let ti = fp_mul_s(eta_t, cos_i);
        let it = fp_mul_s(eta_i, cos_t);
        if ii + tt == 0 || ti + it == 0 {
            SCALE as int
        } else {
            let r_s = fp_div_s(ii - tt, ii + tt);
            let r_p = fp_div_s(ti - it, ti + it);
            tdiv(fp_mul_s(r_s, r_s) + fp_mul_s(r_p, r_p), 2)
        }
    }
}

/// Fresnel reflectance at a surface point; always within [0, SCALE].
pub fn fresnel(surface_normal: Direction, direction: Direction, index: i64) -> (r: i64)
    requires
        v_bounded(surface_normal@, 2 * SCALE as int),
        v_bounded(direction@, SCALE as int),
        crate::primitives::MIN_INDEX <= index <= crate::primitives::MAX_INDEX,
    ensures
        r as int == spec_fresnel(direction@, surface_normal@, index as int),
        0 <= r <= SCALE,
{
    proof {
        lemma_dot_raw_bound(direction@, surface_normal@, SCALE as int, 2 * SCALE as int);
        lemma_tdiv_bounds(
            v_dot_raw(direction@, surface_normal@),
            SCALE as int,
            6 * SCALE as int,
        );
    }
    let d_dot_n = direction.dot(surface_normal);
    let mut eta_i = SCALE;
    let mut eta_t = index;
    if d_dot_n > 0 {
        eta_i = index;
        eta_t = SCALE;
    }
    let cos_i = if d_dot_n < 0 {
        -d_dot_n
    } else {
        d_dot_n
    };
    proof {
        lemma_fp_square_bounds(d_dot_n as int, 6 * SCALE as int);
        lemma_tdiv_bounds(eta_i as int * SCALE as int, eta_t as int, 8 * SCALE as int);
        lemma_tdiv_sign(eta_i as int * SCALE as int, eta_t as int);
    }
    let base = SCALE - fp_mul(d_dot_n, d_dot_n);
    let clamped_base = if base < 0 {
        0
    } else {
        base
    };
    let root = fp_sqrt(clamped_base);
    let eta = fp_div(eta_i, eta_t);
    proof {
        crate::fixed::lemma_sqrt_le(root as int, SCALE as int);
        lemma_fp_mul_range(eta as int, root as int, 8 * SCALE as int, SCALE as int);
        assert((eta as int) * (root as int) >= 0) by (nonlinear_arith)
            requires
                eta >= 0,
                root >= 0,
        ;
        lemma_tdiv_sign(eta as int * root as int, SCALE as int);
    }
    let sin_t = fp_mul(eta, root);
    if sin_t > SCALE {
        // total internal reflection
        SCALE
    } else {
        proof {
            lemma_fp_square_bounds(sin_t as int, SCALE as int);
        }
        let ct_base = SCALE - fp_mul(sin_t, sin_t);
        let clamped_ct = if ct_base < 0 {
            0
        } else {
            ct_base
        };
        let cos_t = fp_sqrt(clamped_ct);
        proof {
            crate::fixed::lemma_sqrt_le(cos_t as int, SCALE as int);
            lemma_fp_mul_range(eta_i as int, cos_i as int, 4 * SCALE as int, 6 * SCALE as int);
            lemma_fp_mul_range(eta_t as int, cos_t as int, 4 * SCALE as int, SCALE as int);
            lemma_fp_mul_range(eta_t as int, cos_i as int, 4 * SCALE as int, 6 * SCALE as int);
            lemma_fp_mul_range(eta_i as int, cos_t as int, 4 * SCALE as int, SCALE as int);
            assert((eta_i as int) * (cos_i as int) >= 0) by (nonlinear_arith)
                requires
                    eta_i >= 0,
                    cos_i >= 0,
            ;
            assert((eta_t as int) * (cos_t as int) >= 0) by (nonlinear_arith)
                requires
                    eta_t >= 0,
                    cos_t >= 0,
            ;
            assert((eta_t as int) * (cos_i as int) >= 0) by (nonlinear_arith)
                requires
                    eta_t >= 0,
                    cos_i >= 0,
            ;
            assert((eta_i as int) * (cos_t as int) >= 0) by (nonlinear_arith)
                requires
                    eta_i >= 0,
                    cos_t >= 0,
            ;
            lemma_tdiv_sign(eta_i as int * cos_i as int, SCALE as int);
            lemma_tdiv_sign(eta_t as int * cos_t as int, SCALE as int);
            lemma_tdiv_sign(eta_t as int * cos_i as int, SCALE as int);
            lemma_tdiv_sign(eta_i as int * cos_t as int, SCALE as int);
        }
        let ii = fp_mul(eta_i, cos_i);
        let tt = fp_mul(eta_t, cos_t);
        let ti = fp_mul(eta_t, cos_i);
        let it = fp_mul(eta_i, cos_t);
        if ii + tt == 0 || ti + it == 0 {
            SCALE
        } else {
            proof {
                lemma_tdiv_bounds((ii - tt) as int * SCALE as int, (ii + tt) as int, SCALE as int);
                lemma_tdiv_bounds((ti - it) as int * SCALE as int, (ti + it) as int, SCALE as int);
            }
            let r_s = fp_div(ii - tt, ii + tt);
            let r_p = fp_div(ti - it, ti + it);
            proof {
                lemma_fp_square_bounds(r_s as int, SCALE as int);
                lemma_fp_square_bounds(r_p as int, SCALE as int);
                lemma_tdiv_bounds(
                    (fp_mul_s(r_s as int, r_s as int) + fp_mul_s(r_p as int, r_p as int)),
                    2,
                    SCALE as int,
                );
                lemma_tdiv_sign(
                    (fp_mul_s(r_s as int, r_s as int) + fp_mul_s(r_p as int, r_p as int)),
                    2,
                );
            }
            let sum = fp_mul(r_s, r_s) + fp_mul(r_p, r_p);
            let kr = div_i128(sum as i128, 2);
            kr as i64
        }
    }
}

/// A nearest hit: the distance along the ray and the object that was hit,
/// valid only for the ray that produced it.
pub struct Intersection<'a> {
    pub distance: i64,
    pub object: &'a Primitive,
}

impl<'a> Intersection<'a> {
    /// Package a hit distance with the object that was hit.
    pub fn new(distance: i64, object: &'a Primitive) -> (r: Intersection<'a>)
        ensures
            r.distance == distance,
            r.object == object,
    {
        Intersection { distance, object }
    }
}

/// The nearest hit among the first `n` objects: the minimal hit distance
/// with the index of the first object attaining it.
pub open spec fn spec_trace_prefix(objects: Seq<Primitive>, r: RayModel, n: int) -> Option<(int, int)>
    decreases n,
{
    if n <= 0 {
        None
    } else {
        let prev = spec_trace_prefix(objects, r, n - 1);
        match spec_primitive_intersect(objects[n - 1], r) {
            Some(t) => match prev {
                Some(p) => if t < p.0 {
                    Some((t, n - 1))
                } else {
                    Some(p)
                },
                None => Some((t, n - 1)),
            },
            None => prev,
        }
    }
}

/// The nearest hit of a ray in the scene: the minimal intersection
/// distance over all objects; on an exact tie the earliest object wins.
pub open spec fn spec_trace(objects: Seq<Primitive>, r: RayModel) -> Option<(int, int)> {
    spec_trace_prefix(objects, r, objects.len() as int)
}

/// Nearest-hit selection over the first `n` objects is sound and minimal.
proof fn lemma_trace_prefix_nearest(objects: Seq<Primitive>, r: RayModel, n: int)
    requires
        0 <= n <= objects.len(),
    ensures
        spec_trace_prefix(objects, r, n) is None ==> forall|i: int|
            0 <= i < n ==> spec_primitive_intersect(#[trigger] objects[i], r) is None,
        spec_trace_prefix(objects, r, n) matches Some(p) ==> {
            &&& 0 <= p.1 < n
            &&& spec_primitive_intersect(objects[p.1], r) == Some(p.0)
            &&& forall|i: int|
                0 <= i < n ==> match spec_primitive_intersect(#[trigger] objects[i], r) {
                    Some(t) => p.0 <= t,
                    None => true,
                }
            &&& forall|i: int|
                0 <= i < p.1 ==> match spec_primitive_intersect(#[trigger] objects[i], r) {
                    Some(t) => p.0 < t,
                    None => true,
                }
        },
    decreases n,
{
    if n > 0 {
        lemma_trace_prefix_nearest(objects, r, n - 1);
    }
}

/// The tracer returns the nearest hit: whatever object it names was really
/// hit at the returned distance, no object in the scene is hit closer, and
/// every earlier object in the collection is hit strictly farther or not
/// at all (on an exact tie, the earliest object wins). A miss means no
/// object intersects the ray.
pub proof fn lemma_trace_nearest(objects: Seq<Primitive>, r: RayModel)
    ensures
        spec_trace(objects, r) is None ==> forall|i: int|
            0 <= i < objects.len() ==> spec_primitive_intersect(#[trigger] objects[i], r) is None,
        spec_trace(objects, r) matches Some(p) ==> {
            &&& 0 <= p.1 < objects.len()
            &&& spec_primitive_intersect(objects[p.1], r) == Some(p.0)
            &&& forall|i: int|
                0 <= i < objects.len() ==> match spec_primitive_intersect(
                    #[trigger] objects[i],
                    r,
                ) {
                    Some(t) => p.0 <= t,
                    None => true,
                }
            &&& forall|i: int|
                0 <= i < p.1 ==> match spec_primitive_intersect(#[trigger] objects[i], r) {
                    Some(t) => p.0 < t,
                    None => true,
                }
        },
{
    lemma_trace_prefix_nearest(objects, r, objects.len() as int);
}

impl Scene {
    /// Trace a ray against every object and keep the nearest hit.
    pub fn trace(&self, ray: &Ray) -> (r: Option<Intersection>)
        requires
            self.wf(),
            ray_wf(ray@),
        ensures
            match r {
                Some(i) => {
                    &&& spec_trace(self.objects@, ray@) is Some
                    &&& i.distance as int == spec_trace(self.objects@, ray@)->Some_0.0
                    &&& 0 <= spec_trace(self.objects@, ray@)->Some_0.1 < self.objects@.len()
                    &&& *i.object == self.objects@[spec_trace(self.objects@, ray@)->Some_0.1]
                    &&& 0 <= i.distance <= MAX_DIST
                },
                None => spec_trace(self.objects@, ray@) is None,
            },
    {
        let mut best: Option<(i64, usize)> = None;
        let mut i: usize = 0;
        while i < self.objects.len()
            invariant
                self.wf(),
                ray_wf(ray@),
                0 <= i <= self.objects@.len(),
                match best {
                    Some(p) => {
                        &&& spec_trace_prefix(self.objects@, ray@, i as int) == Some(
                            (p.0 as int, p.1 as int),
                        )
                        &&& 0 <= p.1 < i
                        &&& 0 <= p.0 <= MAX_DIST
                    },
                    None => spec_trace_prefix(self.objects@, ray@, i as int) is None,
                },
            decreases self.objects@.len() - i,
        {
            match self.objects[i].intersect(ray) {
                Some(t) => {
                    match best {
                        Some(p) => {
                            if t < p.0 {
                                best = Some((t, i));
                            }
                        },
                        None => {
                            best = Some((t, i));
                        },
                    }
                },
                None => {},
            }
            i = i + 1;
        }
        match best {
            Some(p) => Some(Intersection::new(p.0, &self.objects[p.1])),
            None => None,
        }
    }
}

/// One light's contribution at a hit point: the shadow ray is offset along
/// the surface normal by the shadow bias and traced; the point is lit by
/// the light only if nothing blocks it closer than the light itself. The
/// lit contribution is
/// `object_color * light_color * max(0, N . L) * intensity * albedo / pi`.
pub open spec fn spec_light_term(s: Scene, o: Primitive, hit: Vec3Model, normal: Vec3Model, l: Light)
    -> ColorModel {
    let dtl = v_neg(v_normalize(spec_light_direction(l, hit)));
    let shadow = RayModel { origin: v_add(hit, v_scale(normal, s.shadow_bias as int)), direction: dtl };
    let in_light = match spec_trace(s.objects@, shadow) {
        Some(p) => p.0 > spec_light_distance(l, hit),
        None => true,
    };
    let intensity = if in_light {
        spec_light_intensity(l, hit)
    } else {
        0
    };
    let d = v_dot(normal, dtl);
    let power = fp_mul_s(
        if d < 0 {
            0
        } else {
            d
        },
        intensity,
    );
    let reflected = fp_div_s(primitive_material(o).albedo as int, FP_PI as int);
    c_scale(c_scale(c_mul(primitive_material(o).color@, spec_light_color(l)), power), reflected)
}

/// The sum of the first `n` lights' contributions.
pub open spec fn spec_shade_acc(s: Scene, o: Primitive, hit: Vec3Model, normal: Vec3Model, n: int)
    -> ColorModel
    decreases n,
{
    if n <= 0 {
        c_black()
    } else {
        c_add(
            spec_shade_acc(s, o, hit, normal, n - 1),
            spec_light_term(s, o, hit, normal, s.lights@[n - 1]),
        )
    }
}

/// Direct diffuse lighting at a hit point: every light's shadowed
/// Lambertian contribution summed, then clamped into the unit interval.
pub open spec fn spec_shade_diffuse(s: Scene, o: Primitive, hit: Vec3Model, normal: Vec3Model)
    -> ColorModel {
    c_clamp(spec_shade_acc(s, o, hit, normal, s.lights@.len() as int))
}

/// Direct diffuse lighting at a hit point, over all lights of the scene.
pub fn shade_diffuse(scene: &Scene, hit_point: Point, surface_normal: Direction, object: &Primitive)
    -> (r: Color)
    requires
        scene.wf(),
        v_bounded(hit_point@, 500_000_000_000),
        v_bounded(surface_normal@, 2 * SCALE as int),
        primitive_wf(*object),
    ensures
        r@ == spec_shade_diffuse(*scene, *object, hit_point@, surface_normal@),
        c_in_unit(r@),
{
    let mut color = Color::black();
    let mut i: usize = 0;
    while i < scene.lights.len()
        invariant
            scene.wf(),
            v_bounded(hit_point@, 500_000_000_000),
            v_bounded(surface_normal@, 2 * SCALE as int),
            primitive_wf(*object),
            0 <= i <= scene.lights@.len(),
            color@ == spec_shade_acc(*scene, *object, hit_point@, surface_normal@, i as int),
            c_nonneg(color@),
            c_bounded(color@, 6_000_000_000_000 * i as int),
        decreases scene.lights@.len() - i,
    {
        let light = &scene.lights[i];
        let direction_to_light = light.get_direction(hit_point).normalize().neg();
        proof {
            lemma_scale_stays_bounded_shading(surface_normal@, scene.shadow_bias as int);
        }
        let shadow_ray = Ray {
            origin: hit_point.add(surface_normal.scale(scene.shadow_bias)),
            direction: direction_to_light,
        };
        let in_light = match scene.trace(&shadow_ray) {
            Some(isect) => isect.distance > light.get_distance_to(hit_point),
            None => true,
        };
        let light_intensity = if in_light {
            light.get_intensity(hit_point)
        } else {
            0
        };
        proof {
            lemma_dot_raw_bound(surface_normal@, direction_to_light@, 2 * SCALE as int, SCALE as int);
            lemma_tdiv_bounds(
                v_dot_raw(surface_normal@, direction_to_light@),
                SCALE as int,
                6 * SCALE as int,
            );
        }
        let d = surface_normal.dot(direction_to_light);
        let d_max = if d < 0 {
            0
        } else {
            d
        };
        proof {
            lemma_fp_mul_range(d_max as int, light_intensity as int, 6 * SCALE as int,
                INTENSITY_CAP as int);
            assert((d_max as int) * (light_intensity as int) >= 0) by (nonlinear_arith)
                requires
                    d_max >= 0,
                    light_intensity >= 0,
            ;
            lemma_tdiv_sign((d_max as int) * (light_intensity as int), SCALE as int);
            lemma_tdiv_bounds((primitive_material(*object).albedo as int) * (SCALE as int),
                FP_PI as int, SCALE as int);
            lemma_tdiv_sign((primitive_material(*object).albedo as int) * (SCALE as int), FP_PI as int);
        }
        let light_power = fp_mul(d_max, light_intensity);
        let light_reflected = fp_div(object.albedo(), FP_PI);
        let light_color = light.get_color(hit_point);
        let base = object.color().mul(light_color);
        proof {
            crate::primitives::lemma_unit_closed(primitive_material(*object).color@, light_color@);
            crate::primitives::lemma_unit_scale(base@.r, light_power as int);
            crate::primitives::lemma_unit_scale(base@.g, light_power as int);
            crate::primitives::lemma_unit_scale(base@.b, light_power as int);
        }
        let powered = base.mul_scalar(light_power);
        proof {
            crate::primitives::lemma_scale_in_range(powered@.r, light_reflected as int);
            crate::primitives::lemma_scale_in_range(powered@.g, light_reflected as int);
            crate::primitives::lemma_scale_in_range(powered@.b, light_reflected as int);
        }
        let term = powered.mul_scalar(light_reflected);
        color = color.add(term);
        i = i + 1;
    }
    color.clamp()
}

/// The point a ray reaches after traveling `dist`.
pub open spec fn spec_hit_point(r: RayModel, dist: int) -> Vec3Model {
    v_add(r.origin, v_scale(r.direction, dist))
}

/// Termination measure of `spec_cast_ray`: twice the remaining recursion
/// budget.
pub open spec fn cast_measure(s: Scene, depth: int) -> int {
    if s.max_recursion_depth - depth >= 0 {
        2 * (s.max_recursion_depth - depth)
    } else {
        0
    }
}

/// Termination measure of `spec_get_color`: strictly between the measures
/// of the cast that produced the hit and the casts it spawns at the next
/// depth.
pub open spec fn color_measure(s: Scene, depth: int) -> int {
    if s.max_recursion_depth - depth >= 1 {
        2 * (s.max_recursion_depth - depth) - 1
    } else {
        1
    }
}

/// How many recursion levels remain below `depth`.
pub open spec fn levels(s: Scene, depth: int) -> nat {
    if s.max_recursion_depth - depth >= 0 {
        (s.max_recursion_depth - depth) as nat
    } else {
        0
    }
}

/// An upper bound on the channels a cast at `depth` can return: black at
/// the recursion limit, and each level of shading at most doubles the
/// deeper bound and adds two units.
pub open spec fn chan_budget(s: Scene, depth: int) -> int
    decreases levels(s, depth),
{
    if depth >= s.max_recursion_depth {
        0
    } else {
        2 * SCALE + 2 * chan_budget(s, depth + 1)
    }
}

/// The channel budget is exactly `2 * SCALE * (2^levels - 1)`.
proof fn lemma_chan_budget_exact(s: Scene, depth: int)
    ensures
        chan_budget(s, depth) == 2 * SCALE * (vstd::arithmetic::power2::pow2(levels(s, depth))
            - 1),
    decreases levels(s, depth),
{
    if depth >= s.max_recursion_depth {
        vstd::arithmetic::power2::lemma2_to64();
    } else {
        lemma_chan_budget_exact(s, depth + 1);
        let k = levels(s, depth);
        vstd::arithmetic::power2::lemma_pow2_unfold(k);
        assert(2 * SCALE + 2 * (2 * SCALE * (vstd::arithmetic::power2::pow2((k - 1) as nat) - 1))
            == 2 * SCALE * (2 * vstd::arithmetic::power2::pow2((k - 1) as nat) - 1))
            by (nonlinear_arith);
    }
}

/// With a recursion budget of at most 32 levels and a non-negative depth,
/// every cast's channels stay below 2e16.
pub proof fn lemma_chan_budget_le(s: Scene, depth: int)
    requires
        s.max_recursion_depth <= 32,
        depth >= 0,
    ensures
        0 <= chan_budget(s, depth) <= 20_000_000_000_000_000,
{
    lemma_chan_budget_exact(s, depth);
    let k = levels(s, depth);
    assert(k <= 32);
    if k < 32 {
        vstd::arithmetic::power2::lemma_pow2_strictly_increases(k, 32);
    }
    vstd::arithmetic::power2::lemma2_to64();
    vstd::arithmetic::power2::lemma_pow2_pos(k);
    let p = vstd::arithmetic::power2::pow2(k) as int;
    assert(0 <= 2 * SCALE * (p - 1) <= 20_000_000_000_000_000int) by (nonlinear_arith)
        requires
            1 <= p <= 0x100000000,
            SCALE == 1_000_000,
    ;
}

/// Every ray origin reachable after `depth` bounces: the scene region plus
/// one maximal hit offset and bias per bounce.
pub open spec fn origin_budget(depth: int) -> int {
    MAX_COORD + (depth + 1) * (MAX_DIST + 2 * SCALE)
}

/// Over the admissible recursion depths, ray origins stay far below the
/// overflow limits, and one more bounce adds one maximal hit offset plus
/// the bias allowance.
pub proof fn lemma_origin_budget(depth: int)
    requires
        0 <= depth <= 41,
    ensures
        MAX_COORD <= origin_budget(depth) <= 460_000_000_000,
        origin_budget(depth + 1) == origin_budget(depth) + MAX_DIST + 2 * SCALE,
{
    let g = MAX_DIST as int + 2 * SCALE as int;
    assert(0 <= (depth + 1) * g <= 430_000_000_000int) by (nonlinear_arith)
        requires
            0 <= depth <= 41,
            g == 10_002_000_000int,
    ;
    assert((depth + 2) * g == (depth + 1) * g + g) by (nonlinear_arith);
}

/// The recursively shaded color of a hit: Lambertian shading for a diffuse
/// surface; for a reflective surface the diffuse part faded by the
/// reflectivity plus the traced mirror color, tinted; for a refractive
/// surface the Fresnel-weighted blend of diffuse, reflected and
/// transmitted colors (total internal reflection contributes black).
pub open spec fn spec_get_color(s: Scene, r: RayModel, dist: int, o: Primitive, depth: int)
    -> ColorModel
    decreases color_measure(s, depth),
{
    let hit = spec_hit_point(r, dist);
    let normal = spec_primitive_normal(o, hit);
    match primitive_material(o).surface {
        SurfaceType::Diffuse => spec_shade_diffuse(s, o, hit, normal),
        SurfaceType::Reflective { reflectivity, specular_color } => {
            let diffuse = spec_shade_diffuse(s, o, hit, normal);
            let refl_ray = RayModel {
                origin: v_add(hit, v_scale(normal, s.shadow_bias as int)),
                direction: v_normalize(spec_reflect_dir(r.direction, normal)),
            };
            c_add(
                c_scale(diffuse, SCALE - reflectivity),
                c_mul(
                    c_scale(spec_cast_ray(s, refl_ray, depth + 1), reflectivity as int),
                    specular_color@,
                ),
            )
        },
        SurfaceType::Refractive { index, transparency, reflectivity } => {
            let kr = spec_fresnel(r.direction, normal, index as int);
            let refraction = if kr < SCALE && spec_trans_k(r.direction, normal, index as int)
                >= 0 {
                let trans_ray = RayModel {
                    origin: v_add(
                        hit,
                        v_scale(spec_ref_normal(r.direction, normal), -(s.shadow_bias as int)),
                    ),
                    direction: v_normalize(spec_trans_dir(r.direction, normal, index as int)),
                };
                spec_cast_ray(s, trans_ray, depth + 1)
            } else {
                c_black()
            };
            let refl_ray = RayModel {
                origin: v_add(hit, v_scale(normal, s.shadow_bias as int)),
                direction: v_normalize(spec_reflect_dir(r.direction, normal)),
            };
            let reflection = spec_cast_ray(s, refl_ray, depth + 1);
            let diffuse = spec_shade_diffuse(s, o, hit, normal);
            c_add(
                c_scale(diffuse, 2 * SCALE - transparency - reflectivity),
                c_add(
                    c_scale(c_scale(reflection, reflectivity as int), kr),
                    c_scale(c_scale(refraction, transparency as int), SCALE - kr),
                ),
            )
        },
    }
}

/// The color a ray gathers at a given depth: black once the recursion
/// budget is exhausted, black on a miss, and the recursively shaded hit
/// color otherwise.
pub open spec fn spec_cast_ray(s: Scene, r: RayModel, depth: int) -> ColorModel
    decreases cast_measure(s, depth),
{
    if depth >= s.max_recursion_depth {
        c_black()
    } else {
        match spec_trace(s.objects@, r) {
            Some(p) => spec_get_color(s, r, p.0, s.objects@[p.1], depth),
            None => c_black(),
        }
    }
}

/// Recursively shade the hit a ray produced, dispatching on the material's
/// surface kind.
#[verifier::rlimit(100)]
pub fn get_color(scene: &Scene, ray: &Ray, intersection: &Intersection, depth: u32) -> (r: Color)
    requires
        scene.wf(),
        v_bounded(ray@.direction, SCALE as int),
        v_bounded(ray@.origin, origin_budget(depth as int)),
        0 <= intersection.distance <= MAX_DIST,
        primitive_wf(*intersection.object),
        depth <= 39,
    ensures
        r@ == spec_get_color(
            *scene,
            ray@,
            intersection.distance as int,
            *intersection.object,
            depth as int,
        ),
        c_nonneg(r@),
        c_bounded(r@, 2 * SCALE + 2 * chan_budget(*scene, depth as int + 1)),
    decreases color_measure(*scene, depth as int),
{
    proof {
        lemma_origin_budget(depth as int);
        crate::ray::lemma_scale_stays_bounded(
            ray@.direction,
            SCALE as int,
            intersection.distance as int,
            MAX_DIST as int,
            MAX_DIST as int,
        );
        lemma_chan_budget_le(*scene, depth as int + 1);
    }
    let hit_point = ray.origin.add(ray.direction.scale(intersection.distance));
    let surface_normal = intersection.object.surface_normal(&hit_point);
    let material = intersection.object.material();
    match material.surface {
        SurfaceType::Diffuse => shade_diffuse(scene, hit_point, surface_normal, intersection.object),
        SurfaceType::Reflective { reflectivity, specular_color } => {
            let color = shade_diffuse(scene, hit_point, surface_normal, intersection.object);
            proof {
                lemma_scale_stays_bounded_shading(surface_normal@, scene.shadow_bias as int);
            }
            let reflection = Ray::create_reflection(
                surface_normal,
                ray.direction,
                hit_point,
                scene.shadow_bias,
            );
            let cast = cast_ray(scene, &reflection, depth + 1);
            proof {
                crate::primitives::lemma_scale_in_range(cast@.r, reflectivity as int);
                crate::primitives::lemma_scale_in_range(cast@.g, reflectivity as int);
                crate::primitives::lemma_scale_in_range(cast@.b, reflectivity as int);
            }
            let scaled = cast.mul_scalar(reflectivity);
            proof {
                crate::primitives::lemma_scale_in_range(scaled@.r, specular_color@.r);
                crate::primitives::lemma_scale_in_range(scaled@.g, specular_color@.g);
                crate::primitives::lemma_scale_in_range(scaled@.b, specular_color@.b);
                crate::primitives::lemma_unit_scale(color@.r, SCALE - reflectivity as int);
                crate::primitives::lemma_unit_scale(color@.g, SCALE - reflectivity as int);
                crate::primitives::lemma_unit_scale(color@.b, SCALE - reflectivity as int);
            }
            let tinted = scaled.mul(specular_color);
            let dimmed = color.mul_scalar(SCALE - reflectivity);
            dimmed.add(tinted)
        },
        SurfaceType::Refractive { index, transparency, reflectivity } => {
            let kr = fresnel(surface_normal, ray.direction, index);
            proof {
                lemma_scale_stays_bounded_shading(surface_normal@, scene.shadow_bias as int);
                crate::ray::lemma_scale_stays_bounded(
                    spec_ref_normal(ray@.direction, surface_normal@),
                    2 * SCALE as int,
                    -(scene.shadow_bias as int),
                    SCALE as int,
                    2 * SCALE as int,
                );
            }
            let refraction_color = if kr < SCALE {
                match Ray::create_transmission(
                    surface_normal,
                    ray.direction,
                    hit_point,
                    scene.shadow_bias,
                    index,
                ) {
                    Some(transmission_ray) => cast_ray(scene, &transmission_ray, depth + 1),
                    None => Color::black(),
                }
            } else {
                Color::black()
            };
            let reflection_ray = Ray::create_reflection(
                surface_normal,
                ray.direction,
                hit_point,
                scene.shadow_bias,
            );
            let reflection_color = cast_ray(scene, &reflection_ray, depth + 1);
            let diffuse = shade_diffuse(scene, hit_point, surface_normal, intersection.object);
            proof {
                crate::primitives::lemma_unit_scale(diffuse@.r, 2 * SCALE - transparency
                    - reflectivity as int);
                crate::primitives::lemma_unit_scale(diffuse@.g, 2 * SCALE - transparency
                    - reflectivity as int);
                crate::primitives::lemma_unit_scale(diffuse@.b, 2 * SCALE - transparency
                    - reflectivity as int);
                crate::primitives::lemma_scale_in_range(reflection_color@.r, reflectivity as int);
                crate::primitives::lemma_scale_in_range(reflection_color@.g, reflectivity as int);
                crate::primitives::lemma_scale_in_range(reflection_color@.b, reflectivity as int);
                crate::primitives::lemma_scale_in_range(refraction_color@.r, transparency as int);
                crate::primitives::lemma_scale_in_range(refraction_color@.g, transparency as int);
                crate::primitives::lemma_scale_in_range(refraction_color@.b, transparency as int);
            }
            let dimmed = diffuse.mul_scalar(2 * SCALE - transparency - reflectivity);
            let refl_scaled = reflection_color.mul_scalar(reflectivity);
            let refr_scaled = refraction_color.mul_scalar(transparency);
            proof {
                crate::primitives::lemma_scale_in_range(refl_scaled@.r, kr as int);
                crate::primitives::lemma_scale_in_range(refl_scaled@.g, kr as int);
                crate::primitives::lemma_scale_in_range(refl_scaled@.b, kr as int);
                crate::primitives::lemma_scale_in_range(refr_scaled@.r, SCALE - kr as int);
                crate::primitives::lemma_scale_in_range(refr_scaled@.g, SCALE - kr as int);
                crate::primitives::lemma_scale_in_range(refr_scaled@.b, SCALE - kr as int);
            }
            let refl_part = refl_scaled.mul_scalar(kr);
            let refr_part = refr_scaled.mul_scalar(SCALE - kr);
            dimmed.add(refl_part.add(refr_part))
        },
    }
}

/// Trace a ray and shade what it hits: black once the recursion budget is
/// exhausted, black on a miss.
pub fn cast_ray(scene: &Scene, ray: &Ray, depth: u32) -> (r: Color)
    requires
        scene.wf(),
        v_bounded(ray@.direction, SCALE as int),
        v_bounded(ray@.origin, origin_budget(depth as int)),
        depth <= 40,
    ensures
        r@ == spec_cast_ray(*scene, ray@, depth as int),
        c_nonneg(r@),
        c_bounded(r@, chan_budget(*scene, depth as int)),
    decreases cast_measure(*scene, depth as int),
{
    proof {
        lemma_chan_budget_le(*scene, depth as int);
        lemma_origin_budget(depth as int);
    }
    if depth >= scene.max_recursion_depth {
        return Color::black();
    }
    match scene.trace(ray) {
        Some(intersect) => get_color(scene, ray, &intersect, depth),
        None => Color::black(),
    }
}

/// The termination guarantee of the recursion: a cast at or beyond the
/// maximum recursion depth is pure black, whatever the ray holds.
pub proof fn lemma_cast_ray_terminates(s: Scene, r: RayModel, depth: int)
    requires
        depth >= s.max_recursion_depth,
    ensures
        spec_cast_ray(s, r, depth) == c_black(),
{
}

/// The final color of a pixel: the camera ray traced against the scene and
/// shaded from depth one, clamped into the unit interval; black where
/// nothing is hit.
pub open spec fn spec_pixel(s: Scene, x: int, y: int) -> ColorModel {
    let ray = crate::ray::spec_prime_ray(x, y, s);
    match spec_trace(s.objects@, ray) {
        Some(p) => c_clamp(spec_get_color(s, ray, p.0, s.objects@[p.1], 1)),
        None => c_black(),
    }
}

/// Every pixel's channels lie in the unit interval after the final clamp,
/// whatever the scene holds.
pub proof fn lemma_pixel_in_unit(s: Scene, x: int, y: int)
    ensures
        c_in_unit(spec_pixel(s, x, y)),
{
}

/// A perfect mirror whose reflection ray cannot be traced shades to pure
/// black: with reflectivity one the diffuse term is faded to nothing, and
/// once the next depth exhausts the recursion budget the traced mirror
/// color is black, so nothing remains.
pub proof fn lemma_exhausted_perfect_mirror_is_black(
    s: Scene,
    r: RayModel,
    dist: int,
    o: Primitive,
    depth: int,
)
    requires
        primitive_material(o).surface matches SurfaceType::Reflective { reflectivity, .. }
            && reflectivity == SCALE,
        depth + 1 >= s.max_recursion_depth,
    ensures
        spec_get_color(s, r, dist, o, depth) == c_black(),
{
    let hit = spec_hit_point(r, dist);
    let normal = spec_primitive_normal(o, hit);
    let diffuse = spec_shade_diffuse(s, o, hit, normal);
    vstd::arithmetic::div_mod::lemma_div_of0(SCALE as int);
    assert(fp_mul_s(diffuse.r, 0) == 0 && fp_mul_s(diffuse.g, 0) == 0 && fp_mul_s(diffuse.b, 0)
        == 0);
    match primitive_material(o).surface {
        SurfaceType::Reflective { reflectivity, specular_color } => {
            let refl_ray = RayModel {
                origin: v_add(hit, v_scale(normal, s.shadow_bias as int)),
                direction: v_normalize(spec_reflect_dir(r.direction, normal)),
            };
            lemma_cast_ray_terminates(s, refl_ray, depth + 1);
            assert(fp_mul_s(0, reflectivity as int) == 0);
            assert(fp_mul_s(0, specular_color@.r) == 0 && fp_mul_s(0, specular_color@.g) == 0
                && fp_mul_s(0, specular_color@.b) == 0);
        },
        _ => {
        },
    }
}

impl Scene {
    /// Render the scene into a row-major buffer of clamped linear colors,
    /// one per pixel, or report a configuration error when validation
    /// fails before any rendering begins.
    pub fn render(&self) -> (r: Result<Vec<Color>, ConfigError>)
        ensures
            r is Ok <==> self.wf(),
            r is Ok ==> (r->Ok_0)@.len() == self.width * self.height,
            r is Ok ==> forall|x: int, y: int|
                0 <= x < self.width && 0 <= y < self.height ==> (#[trigger] (r->Ok_0)@[y
                    * self.width + x])@ == spec_pixel(*self, x, y),
            r is Ok ==> forall|i: int|
                0 <= i < (r->Ok_0)@.len() ==> c_in_unit((#[trigger] (r->Ok_0)@[i])@),
    {
        if !self.validate() {
            return Err(ConfigError);
        }
        proof {
            lemma_origin_budget(1);
        }
        let mut image: Vec<Color> = Vec::new();
        let mut y: u32 = 0;
        while y < self.height
            invariant
                self.wf(),
                0 <= y <= self.height,
                image@.len() == y * self.width,
                forall|yy: int, xx: int|
                    0 <= yy < y && 0 <= xx < self.width ==> (#[trigger] image@[yy * self.width
                        + xx])@ == spec_pixel(*self, xx, yy),
                forall|i: int| 0 <= i < image@.len() ==> c_in_unit((#[trigger] image@[i])@),
            decreases self.height - y,
        {
            let mut x: u32 = 0;
            while x < self.width
                invariant
                    self.wf(),
                    0 <= y < self.height,
                    0 <= x <= self.width,
                    image@.len() == y * self.width + x,
                    forall|yy: int, xx: int|
                        0 <= yy < y && 0 <= xx < self.width ==> (#[trigger] image@[yy * self.width
                            + xx])@ == spec_pixel(*self, xx, yy),
                    forall|xx: int|
                        0 <= xx < x ==> (#[trigger] image@[y * self.width + xx])@ == spec_pixel(
                            *self,
                            xx,
                            y as int,
                        ),
                    forall|i: int| 0 <= i < image@.len() ==> c_in_unit((#[trigger] image@[i])@),
                decreases self.width - x,
            {
                proof {
                    lemma_origin_budget(1);
                }
                let ray = Ray::create_prime(x, y, self);
                let pixel = match self.trace(&ray) {
                    Some(intersect) => get_color(self, &ray, &intersect, 1).clamp(),
                    None => Color::black(),
                };
                image.push(pixel);
                proof {
                    assert forall|yy: int, xx: int|
                        0 <= yy < y && 0 <= xx < self.width implies (#[trigger] image@[yy
                        * self.width + xx])@ == spec_pixel(*self, xx, yy) by {
                        assert(yy * self.width + xx < y * self.width + x) by (nonlinear_arith)
                            requires
                                0 <= yy < y as int,
                                0 <= xx < self.width as int,
                                0 <= x as int,
                        ;
                    }
                }
                x = x + 1;
            }
            proof {
                assert((y + 1) * self.width == y * self.width + self.width) by (nonlinear_arith);
            }
            y = y + 1;
        }
        proof {
            assert(self.height * self.width == self.width * self.height) by (nonlinear_arith);
        }
        Ok(image)
    }
}

/// Offsetting a surface normal by the shadow bias keeps the products
/// within range and the offset within twice SCALE.
proof fn lemma_scale_stays_bounded_shading(n: Vec3Model, bias: int)
    requires
        v_bounded(n, 2 * SCALE as int),
        0 <= bias <= SCALE,
    ensures
        -9_000_000_000_000_000_000_000_000 <= n.x * bias <= 9_000_000_000_000_000_000_000_000,
        -9_000_000_000_000_000_000_000_000 <= n.y * bias <= 9_000_000_000_000_000_000_000_000,
        -9_000_000_000_000_000_000_000_000 <= n.z * bias <= 9_000_000_000_000_000_000_000_000,
        v_bounded(v_scale(n, bias), 2 * SCALE as int),
{
    crate::ray::lemma_scale_stays_bounded(n, 2 * SCALE as int, bias, SCALE as int, 2 * SCALE as int);
}

} // verus!
