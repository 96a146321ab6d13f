use raytracer::fixed::{SCALE, fp_mul, fp_div, fp_sqrt, clamp_unit, isqrt};
use raytracer::primitives::Color;
use raytracer::vector::Vector3;

#[test]
fn clamp_restricts_channels_to_unit_interval() {
    let c = Color::new(-5, 2_000_000, 500_000);
    let k = c.clamp();
    assert_eq!(k, Color::new(0, 1_000_000, 500_000));
    let already = Color::new(0, 1_000_000, 250_000);
    assert_eq!(already.clamp(), already);
}

#[test]
fn black_is_all_zero() {
    assert_eq!(Color::black(), Color::new(0, 0, 0));
}

#[test]
fn color_addition_is_channelwise() {
    let a = Color::new(100_000, 200_000, 300_000);
    let b = Color::new(50_000, 60_000, 70_000);
    assert_eq!(a.add(b), Color::new(150_000, 260_000, 370_000));
}

#[test]
fn color_product_is_channelwise_fixed_point() {
    let a = Color::new(500_000, 1_000_000, 250_000);
    let b = Color::new(500_000, 500_000, 1_000_000);
    assert_eq!(a.mul(b), Color::new(250_000, 500_000, 250_000));
}

#[test]
fn color_scalar_product_scales_every_channel() {
    let a = Color::new(1_000_000, 500_000, 0);
    assert_eq!(a.mul_scalar(500_000), Color::new(500_000, 250_000, 0));
}

#[test]
fn fixed_point_ops_match_their_formulas() {
    assert_eq!(fp_mul(2_000_000, 3_000_000), 6_000_000);
    assert_eq!(fp_mul(-2_000_000, 3_000_000), -6_000_000);
    assert_eq!(fp_mul(1, 999_999), 0);
    assert_eq!(fp_div(1_000_000, 3_000_000), 333_333);
    assert_eq!(fp_div(-1_000_000, 3_000_000), -333_333);
    assert_eq!(fp_sqrt(4_000_000), 2_000_000);
    assert_eq!(fp_sqrt(2_000_000), 1_414_213);
    assert_eq!(isqrt(1_000_000_000_000), 1_000_000);
    assert_eq!(clamp_unit(SCALE + 1), SCALE);
    assert_eq!(clamp_unit(-1), 0);
    assert_eq!(clamp_unit(123), 123);
}

#[test]
fn dot_product_and_length_are_exact() {
    let a = Vector3::new(1_000_000, 2_000_000, 3_000_000);
    let b = Vector3::new(1_000_000, 1_000_000, 1_000_000);
    assert_eq!(a.dot(b), 6_000_000);
    let v = Vector3::new(3_000_000, 4_000_000, 0);
    assert_eq!(v.length(), 5_000_000);
}

#[test]
fn normalization_yields_a_unit_vector() {
    let v = Vector3::new(3_000_000, 4_000_000, 0);
    let n = v.normalize();
    assert_eq!(n, Vector3::new(600_000, 800_000, 0));
    assert_eq!(Vector3::zero().normalize(), Vector3::zero());
}
