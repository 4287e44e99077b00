//! The marching loop, normal estimation, and shading.

use raymarcher::raymarch::{calc_norm, march, raymarch, MarchResult, EPSILON};
use raymarcher::scene::{Material, Obj, Scene, SDF};
use raymarcher::screen::Channel;
use raymarcher::vecmath::Vec3;

fn single_sphere_scene(mat: Material) -> Scene {
    Scene {
        lpos: Vec3::from(0, 2_000_000, -3_000_000),
        cpos: Vec3::from(0, 0, -5_000_000),
        lcol: Vec3::from(1_000_000, 600_000, 400_000),
        acol: Vec3::from(0, 0, 0),
        objs: vec![Obj { sdf: SDF::Sphere { pos: Vec3::from(0, 0, 0), rad: 1_000_000 }, mat }],
    }
}

fn empty_scene(acol: Vec3) -> Scene {
    Scene {
        lpos: Vec3::from(0, 2_000_000, -3_000_000),
        cpos: Vec3::from(0, 0, -5_000_000),
        lcol: Vec3::from(1_000_000, 600_000, 400_000),
        acol,
        objs: Vec::new(),
    }
}

#[test]
fn march_straight_at_a_sphere_hits_at_its_distance() {
    // Camera at z == -5 looking toward +z at a unit sphere at the
    // origin: the hit must come at travel 4, within the hit threshold.
    let scene = single_sphere_scene(Material::Color {
        col: Vec3::from(1_000_000, 200_000, 200_000),
        shine: 32,
    });
    let ro = Vec3::from(0, 0, -5_000_000);
    let rd = Vec3::from(0, 0, 1_000_000);
    match march(&ro, &rd, &scene) {
        MarchResult::Hit { pos, t, mat } => {
            assert!((t - 4_000_000).abs() <= EPSILON as i64);
            assert!((pos.z + 1_000_000).abs() <= EPSILON as i64);
            assert_eq!(pos.x, 0);
            assert_eq!(pos.y, 0);
            assert!(matches!(mat, Material::Color { .. }));
        }
        MarchResult::Miss => panic!("the ray points at the sphere and must hit"),
    }
}

#[test]
fn march_away_from_all_geometry_misses() {
    let scene = single_sphere_scene(Material::Reflect);
    let ro = Vec3::from(0, 0, -5_000_000);
    let rd = Vec3::from(0, 0, -1_000_000);
    assert!(matches!(march(&ro, &rd, &scene), MarchResult::Miss));
}

#[test]
fn missed_ray_yields_the_background_color() {
    // The background is the ambient color scaled by 0.2, alpha 1.
    let scene = empty_scene(Vec3::from(1_000_000, 500_000, 0));
    let ro = Vec3::from(0, 0, -5_000_000);
    let rd = Vec3::from(0, 0, 1_000_000);
    let px = raymarch(&ro, &rd, &ro, &scene, 8).unwrap();
    assert_eq!(px.get_ch(&Channel::Red), 200_000);
    assert_eq!(px.get_ch(&Channel::Green), 100_000);
    assert_eq!(px.get_ch(&Channel::Blue), 0);
    assert_eq!(px.get_ch(&Channel::Alpha), 1_000_000);
}

#[test]
fn normal_at_the_front_pole_points_at_the_camera() {
    // On the unit sphere at the origin seen from z == -5, the estimated
    // normal at (0, 0, -1) points along (0, 0, -1).
    let scene = single_sphere_scene(Material::Color {
        col: Vec3::from(1_000_000, 200_000, 200_000),
        shine: 32,
    });
    let p = Vec3::from(0, 0, -1_000_000);
    let n = calc_norm(&p, &scene);
    assert_eq!(n, Vec3::from(0, 0, -1_000_000));
}

#[test]
fn mirror_with_nothing_behind_reflects_to_the_background() {
    // A single reflective sphere and no other geometry: shading must
    // recurse at least one bounce and come back with the background
    // color rather than fail.
    let scene = single_sphere_scene(Material::Reflect);
    let ro = Vec3::from(0, 0, -5_000_000);
    let rd = Vec3::from(0, 0, 1_000_000);
    match march(&ro, &rd, &scene) {
        MarchResult::Hit { mat, .. } => assert!(matches!(mat, Material::Reflect)),
        MarchResult::Miss => panic!("the ray points at the mirror and must hit"),
    }
    let px = raymarch(&ro, &rd, &ro, &scene, 8).unwrap();
    assert_eq!(px.get_ch(&Channel::Red), 0);
    assert_eq!(px.get_ch(&Channel::Green), 0);
    assert_eq!(px.get_ch(&Channel::Blue), 0);
    assert_eq!(px.get_ch(&Channel::Alpha), 1_000_000);
}

#[test]
fn spent_bounce_budget_reads_as_a_miss() {
    // With no bounces left, hitting the mirror yields the background
    // directly.
    let scene = single_sphere_scene(Material::Reflect);
    let ro = Vec3::from(0, 0, -5_000_000);
    let rd = Vec3::from(0, 0, 1_000_000);
    let px = raymarch(&ro, &rd, &ro, &scene, 0).unwrap();
    assert_eq!(px.get_ch(&Channel::Red), 0);
    assert_eq!(px.get_ch(&Channel::Alpha), 1_000_000);
}

#[test]
fn lit_surface_shades_brighter_than_the_background() {
    let scene = single_sphere_scene(Material::Color {
        col: Vec3::from(1_000_000, 1_000_000, 1_000_000),
        shine: 32,
    });
    let ro = Vec3::from(0, 0, -5_000_000);
    let rd = Vec3::from(0, 0, 1_000_000);
    let px = raymarch(&ro, &rd, &ro, &scene, 8).unwrap();
    assert!(px.get_ch(&Channel::Red) > 0);
    assert_eq!(px.get_ch(&Channel::Alpha), 1_000_000);
}
