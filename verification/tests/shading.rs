use raytracer::light::{Light, DirectionalLight, PointLight};
use raytracer::primitives::{Color, Material, SurfaceType, Primitive, Intersectable, Renderable};
use raytracer::ray::Ray;
use raytracer::scene::{Scene, Intersection, cast_ray, get_color, fresnel, shade_diffuse};
use raytracer::sphere::Sphere;
use raytracer::plane::Plane;
use raytracer::vector::Vector3;

fn white() -> Color {
    Color::new(1_000_000, 1_000_000, 1_000_000)
}

fn unit_sphere_at(z: i64, surface: SurfaceType) -> Primitive {
    Primitive::Sphere(
        Sphere {
            center: Vector3::new(0, 0, z),
            radius: 1_000_000,
            material: Material { color: white(), albedo: 1_000_000, surface },
        },
    )
}

fn top_light(intensity: i64) -> Light {
    Light::Directional(
        DirectionalLight {
            direction: Vector3::new(0, -1_000_000, 0),
            color: white(),
            intensity,
        },
    )
}

fn head_light(intensity: i64) -> Light {
    Light::Directional(
        DirectionalLight {
            direction: Vector3::new(0, 0, -1_000_000),
            color: white(),
            intensity,
        },
    )
}

fn one_sphere_scene(surface: SurfaceType, light: Light, max_recursion_depth: u32) -> Scene {
    Scene {
        width: 800,
        height: 600,
        fov_adjustment: 577_350,
        objects: vec![unit_sphere_at(-5_000_000, surface)],
        lights: vec![light],
        shadow_bias: 1_000,
        max_recursion_depth,
    }
}

#[test]
fn trace_breaks_exact_ties_by_collection_order() {
    let mut scene = one_sphere_scene(SurfaceType::Diffuse, top_light(100_000), 6);
    let first = Material {
        color: Color::new(1_000_000, 0, 0),
        albedo: 1_000_000,
        surface: SurfaceType::Diffuse,
    };
    let second = Material {
        color: Color::new(0, 1_000_000, 0),
        albedo: 1_000_000,
        surface: SurfaceType::Diffuse,
    };
    scene.objects = vec![
        Primitive::Sphere(
            Sphere { center: Vector3::new(0, 0, -5_000_000), radius: 1_000_000, material: first },
        ),
        Primitive::Sphere(
            Sphere { center: Vector3::new(0, 0, -5_000_000), radius: 1_000_000, material: second },
        ),
    ];
    let ray = Ray { origin: Vector3::zero(), direction: Vector3::new(0, 0, -1_000_000) };
    let hit = scene.trace(&ray).unwrap();
    assert_eq!(hit.distance, 4_000_000);
    assert_eq!(hit.object.material().color, Color::new(1_000_000, 0, 0));
}

#[test]
fn occluders_beyond_a_point_light_do_not_block_it() {
    // a lit floor point, a point light two units above it, and a sphere
    // well above the light: the shadow ray hits the sphere, but farther
    // away than the light, so the point stays lit
    let floor = Primitive::Plane(
        Plane {
            p0: Vector3::new(0, -2_000_000, 0),
            normal: Vector3::new(0, -1_000_000, 0),
            material: Material { color: white(), albedo: 1_000_000, surface: SurfaceType::Diffuse },
        },
    );
    let blocker = Primitive::Sphere(
        Sphere {
            center: Vector3::new(0, 5_000_000, 0),
            radius: 1_000_000,
            material: Material { color: white(), albedo: 1_000_000, surface: SurfaceType::Diffuse },
        },
    );
    let lamp = Light::Point(
        PointLight {
            position: Vector3::new(0, 0, 0),
            color: white(),
            intensity: 50_000_000,
        },
    );
    let mut scene = one_sphere_scene(SurfaceType::Diffuse, lamp, 6);
    scene.objects = vec![floor, blocker];
    let hit = Vector3::new(0, -2_000_000, 0);
    let normal = Vector3::new(0, 1_000_000, 0);
    let lit = shade_diffuse(&scene, hit, normal, &scene.objects[0]);
    assert!(lit.r > 0 && lit.g > 0 && lit.b > 0);
    // the same geometry under a directional light from above is blocked:
    // directional lights are infinitely far away, so any occluder counts
    scene.lights = vec![top_light(1_000_000)];
    let dark = shade_diffuse(&scene, hit, normal, &scene.objects[0]);
    assert_eq!(dark, Color::black());
}

#[test]
fn fresnel_at_normal_incidence_matches_the_closed_form() {
    // at index 1.5 and normal incidence, kr = ((1.5 - 1) / (1.5 + 1))^2 = 0.04
    let n = Vector3::new(0, 0, 1_000_000);
    let d = Vector3::new(0, 0, -1_000_000);
    assert_eq!(fresnel(n, d, 1_500_000), 40_000);
}

#[test]
fn fresnel_grows_with_the_angle_of_incidence() {
    // entering glass (index 1.5) at 60 degrees from the normal: the s- and
    // p-polarized reflectances are 0.1766 and 0.0018, averaging to about
    // 0.089 -- more than twice the normal-incidence 0.04
    let n = Vector3::new(0, 0, 1_000_000);
    let d = Vector3::new(0, 866_025, -500_000);
    assert_eq!(fresnel(n, d, 1_500_000), 89_186);
}

#[test]
fn fresnel_stays_within_the_unit_interval() {
    let n = Vector3::new(0, 0, 1_000_000);
    let samples = [
        Vector3::new(0, 0, -1_000_000),
        Vector3::new(0, 707_106, -707_106),
        Vector3::new(0, 866_025, -500_000),
        Vector3::new(0, 999_999, -1_414),
        Vector3::new(0, 0, 1_000_000),
        Vector3::new(0, 866_025, 500_000),
    ];
    for index in [500_000i64, 1_020_000, 1_500_000, 4_000_000] {
        for d in samples {
            let kr = fresnel(n, d, index);
            assert!(0 <= kr && kr <= 1_000_000);
        }
    }
}

#[test]
fn cast_ray_at_the_recursion_limit_is_black_whatever_the_ray() {
    let scene = one_sphere_scene(SurfaceType::Diffuse, head_light(100_000), 6);
    let into_the_sphere = Ray {
        origin: Vector3::zero(),
        direction: Vector3::new(0, 0, -1_000_000),
    };
    assert_eq!(cast_ray(&scene, &into_the_sphere, 6), Color::black());
    assert_eq!(cast_ray(&scene, &into_the_sphere, 7), Color::black());
    // below the limit the same ray is shaded
    assert_ne!(cast_ray(&scene, &into_the_sphere, 5), Color::black());
}

#[test]
fn a_fully_mirrored_closed_box_terminates_with_a_finite_color() {
    let mirror = SurfaceType::Reflective { reflectivity: 1_000_000, specular_color: white() };
    let wall = |p0: Vector3, normal: Vector3| {
        Primitive::Plane(
            Plane {
                p0,
                normal,
                material: Material { color: white(), albedo: 1_000_000, surface: mirror },
            },
        )
    };
    let r = 10_000_000i64;
    let scene = Scene {
        width: 2,
        height: 1,
        fov_adjustment: 577_350,
        objects: vec![
            wall(Vector3::new(r, 0, 0), Vector3::new(1_000_000, 0, 0)),
            wall(Vector3::new(-r, 0, 0), Vector3::new(-1_000_000, 0, 0)),
            wall(Vector3::new(0, r, 0), Vector3::new(0, 1_000_000, 0)),
            wall(Vector3::new(0, -r, 0), Vector3::new(0, -1_000_000, 0)),
            wall(Vector3::new(0, 0, r), Vector3::new(0, 0, 1_000_000)),
            wall(Vector3::new(0, 0, -r), Vector3::new(0, 0, -1_000_000)),
        ],
        lights: vec![top_light(1_000_000)],
        shadow_bias: 1_000,
        max_recursion_depth: 32,
    };
    let image = scene.render().unwrap();
    assert_eq!(image.len(), 2);
    for pixel in image {
        assert!(0 <= pixel.r && pixel.r <= 1_000_000);
        assert!(0 <= pixel.g && pixel.g <= 1_000_000);
        assert!(0 <= pixel.b && pixel.b <= 1_000_000);
    }
}

#[test]
fn diffuse_shading_is_clamped_even_under_blinding_light() {
    let scene = Scene {
        width: 2,
        height: 1,
        fov_adjustment: 577_350,
        objects: vec![unit_sphere_at(-5_000_000, SurfaceType::Diffuse)],
        lights: vec![top_light(1_000_000_000), top_light(1_000_000_000)],
        shadow_bias: 1_000,
        max_recursion_depth: 6,
    };
    let object = &scene.objects[0];
    // the top of the sphere, fully lit
    let hit = Vector3::new(0, 1_000_000, -5_000_000);
    let normal = Vector3::new(0, 1_000_000, 0);
    let c = shade_diffuse(&scene, hit, normal, object);
    assert_eq!(c, white());
}

#[test]
fn get_color_of_a_diffuse_hit_equals_its_shadowed_lambertian_term() {
    let scene = one_sphere_scene(SurfaceType::Diffuse, top_light(100_000), 6);
    let ray = Ray { origin: Vector3::zero(), direction: Vector3::new(0, 0, -1_000_000) };
    let distance = scene.objects[0].intersect(&ray).unwrap();
    assert_eq!(distance, 4_000_000);
    let isect = Intersection::new(distance, &scene.objects[0]);
    // the forward pole has a horizontal normal, so straight-down light
    // contributes nothing there
    assert_eq!(get_color(&scene, &ray, &isect, 1), Color::black());
}
