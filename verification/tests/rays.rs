use raytracer::ray::Ray;
use raytracer::scene::Scene;
use raytracer::vector::Vector3;

fn camera_only_scene() -> Scene {
    Scene {
        width: 800,
        height: 600,
        fov_adjustment: 577_350,  // tan(30 degrees), for a 60 degree field of view
        objects: vec![],
        lights: vec![],
        shadow_bias: 1_000,
        max_recursion_depth: 6,
    }
}

fn squared_length(v: Vector3) -> i128 {
    (v.x as i128) * (v.x as i128) + (v.y as i128) * (v.y as i128) + (v.z as i128) * (v.z as i128)
}

#[test]
fn camera_rays_have_unit_length_directions() {
    let scene = camera_only_scene();
    let one = 1_000_000_000_000i128;  // SCALE squared
    let tolerance = 10_000_000i128;
    for (x, y) in [(0u32, 0u32), (400, 300), (799, 599), (400, 299), (13, 580)] {
        let ray = Ray::create_prime(x, y, &scene);
        assert_eq!(ray.origin, Vector3::zero());
        let n2 = squared_length(ray.direction);
        assert!(one - tolerance <= n2 && n2 <= one + tolerance);
    }
}

#[test]
fn camera_rays_look_forward_and_spread_with_the_pixel() {
    let scene = camera_only_scene();
    let center = Ray::create_prime(400, 300, &scene);
    assert!(center.direction.z < 0);
    let left = Ray::create_prime(0, 300, &scene);
    let right = Ray::create_prime(799, 300, &scene);
    assert!(left.direction.x < 0 && right.direction.x > 0);
    let top = Ray::create_prime(400, 0, &scene);
    let bottom = Ray::create_prime(400, 599, &scene);
    assert!(top.direction.y > 0 && bottom.direction.y < 0);
}

#[test]
fn reflection_preserves_length_and_changes_direction_along_the_normal() {
    let d = Vector3::new(0, 707_106, -707_106).normalize();
    let n = Vector3::new(0, 0, 1_000_000);
    let hit = Vector3::new(0, 0, -2_000_000);
    let r = Ray::create_reflection(n, d, hit, 1_000);
    // origin offset along the normal by the bias
    assert_eq!(r.origin, Vector3::new(0, 0, -1_999_000));
    // |d'| = |d| up to rounding
    let tolerance = 10_000_000i128;
    assert!((squared_length(r.direction) - squared_length(d)).abs() <= tolerance);
    // (d' - d) is parallel to the normal (z axis): x and y barely change
    let delta = r.direction.sub(d);
    assert!(delta.x.abs() <= 2 && delta.y.abs() <= 2);
    assert!(delta.z > 1_000_000);
}

#[test]
fn transmission_at_normal_incidence_passes_straight_through() {
    let d = Vector3::new(0, 0, -1_000_000);
    let n = Vector3::new(0, 0, 1_000_000);
    let hit = Vector3::new(0, 0, -4_000_000);
    let r = Ray::create_transmission(n, d, hit, 1_000, 1_500_000).unwrap();
    assert_eq!(r.direction, Vector3::new(0, 0, -1_000_000));
    // origin offset against the oriented normal by the bias
    assert_eq!(r.origin, Vector3::new(0, 0, -4_001_000));
}

#[test]
fn transmission_fails_on_total_internal_reflection() {
    // exiting glass at 60 degrees from the normal: sin of the transmitted
    // angle would be 1.5 * sin(60) > 1
    let d = Vector3::new(0, 866_025, 500_000);
    let n = Vector3::new(0, 0, 1_000_000);
    let hit = Vector3::new(0, 0, 0);
    let r = Ray::create_transmission(n, d, hit, 1_000, 1_500_000);
    assert!(r.is_none());
}
