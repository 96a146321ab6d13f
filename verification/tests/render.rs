use raytracer::light::{Light, DirectionalLight, PointLight};
use raytracer::primitives::{Color, Material, SurfaceType, Primitive};
use raytracer::scene::Scene;
use raytracer::sphere::Sphere;
use raytracer::plane::Plane;
use raytracer::vector::Vector3;

fn white() -> Color {
    Color::new(1_000_000, 1_000_000, 1_000_000)
}

fn pixel(image: &[Color], width: u32, x: u32, y: u32) -> Color {
    image[(y * width + x) as usize]
}

fn single_sphere_scene(surface: SurfaceType, max_recursion_depth: u32) -> Scene {
    Scene {
        width: 800,
        height: 600,
        fov_adjustment: 577_350,  // tan(30 degrees): a 60 degree field of view
        objects: vec![
            Primitive::Sphere(
                Sphere {
                    center: Vector3::new(0, 0, -5_000_000),
                    radius: 1_000_000,
                    material: Material { color: white(), albedo: 1_000_000, surface },
                },
            ),
        ],
        lights: vec![
            Light::Directional(
                DirectionalLight {
                    direction: Vector3::new(0, -1_000_000, 0),
                    color: white(),
                    intensity: 100_000,  // 0.1
                },
            ),
        ],
        shadow_bias: 1_000,
        max_recursion_depth,
    }
}

#[test]
fn diffuse_sphere_lights_the_silhouette_and_leaves_the_corner_black() {
    let scene = single_sphere_scene(SurfaceType::Diffuse, 6);
    let image = scene.render().unwrap();
    assert_eq!(image.len(), 800 * 600);
    // just above the image center: inside the silhouette, on the lit side
    // of the top-lit sphere (the exact center row already faces away)
    let lit = pixel(&image, 800, 400, 299);
    assert!(lit.r > 0 && lit.g > 0 && lit.b > 0);
    // the far corner hits nothing: exactly black
    assert_eq!(pixel(&image, 800, 799, 599), Color::black());
}

#[test]
fn perfect_mirror_with_empty_reflections_renders_black() {
    // reflectivity one leaves no diffuse term, and with a recursion budget
    // of one the reflected ray is never traced: every pixel is black
    let scene = single_sphere_scene(
        SurfaceType::Reflective { reflectivity: 1_000_000, specular_color: white() },
        1,
    );
    let image = scene.render().unwrap();
    assert_eq!(pixel(&image, 800, 400, 299), Color::black());
    assert_eq!(pixel(&image, 800, 400, 300), Color::black());
    assert_eq!(pixel(&image, 800, 799, 599), Color::black());
}

#[test]
fn portrait_dimensions_are_rejected_before_rendering() {
    let mut scene = single_sphere_scene(SurfaceType::Diffuse, 6);
    scene.width = 600;
    scene.height = 800;
    assert!(scene.render().is_err());
}

#[test]
fn every_rendered_channel_lies_in_the_unit_interval() {
    let scene = single_sphere_scene(SurfaceType::Diffuse, 6);
    let image = scene.render().unwrap();
    for c in image {
        assert!(0 <= c.r && c.r <= 1_000_000);
        assert!(0 <= c.g && c.g <= 1_000_000);
        assert!(0 <= c.b && c.b <= 1_000_000);
    }
}

#[test]
fn showcase_scene_renders_every_material_kind() {
    let gray = Color::new(300_000, 300_000, 300_000);
    let scene = Scene {
        width: 160,
        height: 120,
        fov_adjustment: 577_350,  // tan of half of a 60 degree field of view
        objects: vec![
            Primitive::Sphere(
                Sphere {
                    center: Vector3::new(-1_000_000, 0, -3_000_000),
                    radius: 1_000_000,
                    material: Material {
                        color: Color::new(100_000, 900_000, 100_000),
                        albedo: 1_000_000,
                        surface: SurfaceType::Refractive {
                            index: 1_020_000,
                            transparency: 800_000,
                            reflectivity: 800_000,
                        },
                    },
                },
            ),
            Primitive::Sphere(
                Sphere {
                    center: Vector3::new(600_000, 0, -5_000_000),
                    radius: 1_000_000,
                    material: Material {
                        color: Color::new(1_000_000, 0, 0),
                        albedo: 1_000_000,
                        surface: SurfaceType::Reflective {
                            reflectivity: 800_000,
                            specular_color: Color::new(1_000_000, 0, 0),
                        },
                    },
                },
            ),
            Primitive::Sphere(
                Sphere {
                    center: Vector3::new(2_200_000, 0, -7_000_000),
                    radius: 1_000_000,
                    material: Material {
                        color: Color::new(100_000, 200_000, 1_000_000),
                        albedo: 1_000_000,
                        surface: SurfaceType::Diffuse,
                    },
                },
            ),
            Primitive::Plane(
                Plane {
                    p0: Vector3::new(0, -1_100_000, 0),
                    normal: Vector3::new(0, -1_000_000, 0),
                    material: Material {
                        color: gray,
                        albedo: 800_000,
                        surface: SurfaceType::Reflective {
                            reflectivity: 800_000,
                            specular_color: white(),
                        },
                    },
                },
            ),
            Primitive::Plane(
                Plane {
                    p0: Vector3::new(-3_000_000, 0, -20_000_000),
                    normal: Vector3::new(-1_000_000, 0, -1_000_000),
                    material: Material { color: gray, albedo: 1_000_000, surface: SurfaceType::Diffuse },
                },
            ),
            Primitive::Plane(
                Plane {
                    p0: Vector3::new(3_000_000, 0, -20_000_000),
                    normal: Vector3::new(1_000_000, 0, -1_000_000),
                    material: Material { color: gray, albedo: 1_000_000, surface: SurfaceType::Diffuse },
                },
            ),
            Primitive::Plane(
                Plane {
                    p0: Vector3::new(3_000_000, 0, 20_000_000),
                    normal: Vector3::new(1_000_000, 0, 1_000_000),
                    material: Material { color: gray, albedo: 1_000_000, surface: SurfaceType::Diffuse },
                },
            ),
            Primitive::Plane(
                Plane {
                    p0: Vector3::new(3_000_000, 0, 20_000_000),
                    normal: Vector3::new(-1_000_000, 0, 1_000_000),
                    material: Material { color: gray, albedo: 1_000_000, surface: SurfaceType::Diffuse },
                },
            ),
        ],
        lights: vec![
            Light::Directional(
                DirectionalLight {
                    direction: Vector3::new(0, -1_000_000, 0),
                    color: Color::new(800_000, 900_000, 900_000),
                    intensity: 1_000_000,
                },
            ),
            Light::Point(
                PointLight {
                    position: Vector3::new(0, 8_000_000, 0),
                    color: Color::new(800_000, 800_000, 500_000),
                    intensity: 50_000_000,
                },
            ),
            Light::Point(
                PointLight {
                    position: Vector3::new(0, 10_000_000, -5_000_000),
                    color: Color::new(1_000_000, 500_000, 300_000),
                    intensity: 40_000_000,
                },
            ),
            Light::Point(
                PointLight {
                    position: Vector3::new(-1_000_000, -500_000, -1_500_000),
                    color: Color::new(1_000_000, 200_000, 100_000),
                    intensity: 30_000_000,
                },
            ),
        ],
        shadow_bias: 0,
        max_recursion_depth: 3,
    };
    let image = scene.render().unwrap();
    assert_eq!(image.len(), 160 * 120);
    // something in the scene is visible
    assert!(image.iter().any(|c| c.r > 0 || c.g > 0 || c.b > 0));
}
