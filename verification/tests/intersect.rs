use raytracer::primitives::{Color, Material, SurfaceType, Intersectable, Renderable};
use raytracer::ray::Ray;
use raytracer::sphere::Sphere;
use raytracer::plane::Plane;
use raytracer::vector::Vector3;

fn plain_material() -> Material {
    Material {
        color: Color::new(1_000_000, 1_000_000, 1_000_000),
        albedo: 1_000_000,
        surface: SurfaceType::Diffuse,
    }
}

fn forward_ray() -> Ray {
    Ray { origin: Vector3::zero(), direction: Vector3::new(0, 0, -1_000_000) }
}

#[test]
fn sphere_hit_straight_at_center_returns_center_distance_minus_radius() {
    let s = Sphere {
        center: Vector3::new(0, 0, -5_000_000),
        radius: 1_000_000,
        material: plain_material(),
    };
    assert_eq!(s.intersect(&forward_ray()), Some(4_000_000));
}

#[test]
fn sphere_misses_when_perpendicular_distance_exceeds_radius() {
    let s = Sphere {
        center: Vector3::new(0, 3_000_000, -5_000_000),
        radius: 1_000_000,
        material: plain_material(),
    };
    assert_eq!(s.intersect(&forward_ray()), None);
}

#[test]
fn sphere_behind_the_origin_is_not_hit() {
    let s = Sphere {
        center: Vector3::new(0, 0, 5_000_000),
        radius: 1_000_000,
        material: plain_material(),
    };
    assert_eq!(s.intersect(&forward_ray()), None);
}

#[test]
fn sphere_hit_from_inside_returns_the_forward_root() {
    let s = Sphere {
        center: Vector3::new(0, 0, 0),
        radius: 1_000_000,
        material: plain_material(),
    };
    assert_eq!(s.intersect(&forward_ray()), Some(1_000_000));
}

#[test]
fn sphere_grazing_ray_reports_nonnegative_distance() {
    let s = Sphere {
        center: Vector3::new(0, 999_999, -5_000_000),
        radius: 1_000_000,
        material: plain_material(),
    };
    let hit = s.intersect(&forward_ray());
    assert!(hit.is_some());
    assert!(hit.unwrap() >= 0);
}

#[test]
fn plane_hit_returns_the_signed_distance_and_the_hit_lies_on_the_plane() {
    let p = Plane {
        p0: Vector3::new(0, -2_000_000, 0),
        normal: Vector3::new(0, -1_000_000, 0),
        material: plain_material(),
    };
    let ray = Ray { origin: Vector3::zero(), direction: Vector3::new(0, -1_000_000, 0) };
    let t = p.intersect(&ray);
    assert_eq!(t, Some(2_000_000));
    // the hit point lies on the plane: (hit - p0) . normal == 0
    let hit = ray.origin.add(ray.direction.scale(t.unwrap()));
    assert_eq!(hit.sub(p.p0).dot(p.normal), 0);
}

#[test]
fn plane_parallel_ray_misses() {
    let p = Plane {
        p0: Vector3::new(0, -2_000_000, 0),
        normal: Vector3::new(0, -1_000_000, 0),
        material: plain_material(),
    };
    let ray = Ray { origin: Vector3::zero(), direction: Vector3::new(1_000_000, 0, 0) };
    assert_eq!(p.intersect(&ray), None);
}

#[test]
fn plane_ray_moving_away_misses() {
    let p = Plane {
        p0: Vector3::new(0, -2_000_000, 0),
        normal: Vector3::new(0, -1_000_000, 0),
        material: plain_material(),
    };
    let ray = Ray { origin: Vector3::zero(), direction: Vector3::new(0, 1_000_000, 0) };
    assert_eq!(p.intersect(&ray), None);
}

#[test]
fn surface_normals_point_outward() {
    let s = Sphere {
        center: Vector3::new(0, 0, -5_000_000),
        radius: 1_000_000,
        material: plain_material(),
    };
    let n = s.surface_normal(&Vector3::new(0, 0, -4_000_000));
    assert_eq!(n, Vector3::new(0, 0, 1_000_000));
    let p = Plane {
        p0: Vector3::new(0, -2_000_000, 0),
        normal: Vector3::new(0, -1_000_000, 0),
        material: plain_material(),
    };
    let pn = p.surface_normal(&Vector3::zero());
    assert_eq!(pn, Vector3::new(0, 1_000_000, 0));
}
