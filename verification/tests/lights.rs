use raytracer::light::{Light, DirectionalLight, PointLight};
use raytracer::primitives::Color;
use raytracer::vector::Vector3;

fn white() -> Color {
    Color::new(1_000_000, 1_000_000, 1_000_000)
}

#[test]
fn directional_light_is_constant_everywhere() {
    let l = Light::Directional(
        DirectionalLight {
            direction: Vector3::new(0, -1_000_000, 0),
            color: white(),
            intensity: 300_000,
        },
    );
    let p = Vector3::new(5_000_000, 0, -3_000_000);
    assert_eq!(l.get_direction(p), Vector3::new(0, -1_000_000, 0));
    assert_eq!(l.get_color(p), white());
    assert_eq!(l.get_intensity(p), 300_000);
    assert_eq!(l.get_distance_to(p), i64::MAX);
}

#[test]
fn point_light_direction_points_from_the_light_to_the_point() {
    let l = Light::Point(
        PointLight {
            position: Vector3::new(0, 2_000_000, 0),
            color: white(),
            intensity: 1_000_000,
        },
    );
    let p = Vector3::zero();
    assert_eq!(l.get_direction(p), Vector3::new(0, -1_000_000, 0));
    assert_eq!(l.get_distance_to(p), 2_000_000);
}

#[test]
fn point_light_intensity_follows_inverse_square_falloff() {
    let l = Light::Point(
        PointLight {
            position: Vector3::new(0, 2_000_000, 0),
            color: white(),
            intensity: 1_000_000,
        },
    );
    // intensity / (4 pi d^2) with d = 2: floor(1e24 / (12_566_372 * 4e12))
    assert_eq!(l.get_intensity(Vector3::zero()), 19_894);
    // twice as far: a quarter of the delivered intensity, up to truncation
    let farther = l.get_intensity(Vector3::new(0, -2_000_000, 0));
    assert_eq!(farther, 4_973);
}
