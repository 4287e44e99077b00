//! Vector algebra.

use raymarcher::vecmath::Vec3;

#[test]
fn add_sub_componentwise() {
    let a = Vec3::from(1_000_000, 2_000_000, 3_000_000);
    let b = Vec3::from(400_000, -500_000, 600_000);
    assert_eq!(a.add(&b), Vec3::from(1_400_000, 1_500_000, 3_600_000));
    assert_eq!(a.sub(&b), Vec3::from(600_000, 2_500_000, 2_400_000));
}

#[test]
fn scale_and_times() {
    let a = Vec3::from(1_000_000, -2_000_000, 500_000);
    assert_eq!(a.scale(2_000_000), Vec3::from(2_000_000, -4_000_000, 1_000_000));
    let b = Vec3::from(500_000, 500_000, 2_000_000);
    assert_eq!(a.times(&b), Vec3::from(500_000, -1_000_000, 1_000_000));
}

#[test]
fn dot_product() {
    let a = Vec3::from(1_000_000, 2_000_000, 3_000_000);
    let b = Vec3::from(4_000_000, -5_000_000, 6_000_000);
    // 4 - 10 + 18 == 12
    assert_eq!(a.dot(&b), 12_000_000);
}

#[test]
fn length_of_pythagorean_triple() {
    let v = Vec3::from(3_000_000, 4_000_000, 0);
    assert_eq!(v.length(), 5_000_000);
}

#[test]
fn normalize_axis() {
    let v = Vec3::from(0, 2_000_000, 0);
    assert_eq!(v.normalize(), Vec3::from(0, 1_000_000, 0));
}

#[test]
fn normalize_zero_vector_stays_zero() {
    // Dividing by a zero length is defined as zero, so the zero vector
    // normalizes to itself instead of failing.
    let v = Vec3::from(0, 0, 0);
    assert_eq!(v.normalize(), Vec3::from(0, 0, 0));
}

#[test]
fn reflect_about_y_axis() {
    // v == (1, -1, 0) about n == (0, 1, 0) mirrors the y component.
    let v = Vec3::from(1_000_000, -1_000_000, 0);
    let n = Vec3::from(0, 1_000_000, 0);
    assert_eq!(v.reflect(&n), Vec3::from(1_000_000, 1_000_000, 0));
}

#[test]
fn reflect_about_x_axis() {
    let v = Vec3::from(-2_000_000, 700_000, 300_000);
    let n = Vec3::from(1_000_000, 0, 0);
    assert_eq!(v.reflect(&n), Vec3::from(2_000_000, 700_000, 300_000));
}
