//! Primitive distances and the closest-object query.

use raymarcher::scene::{create_scene, Material, Obj, Scene, SDF};
use raymarcher::vecmath::Vec3;

fn lighting_only_scene(objs: Vec<Obj>) -> Scene {
    Scene {
        lpos: Vec3::from(0, 2_000_000, -3_000_000),
        cpos: Vec3::from(0, 0, -5_000_000),
        lcol: Vec3::from(1_000_000, 1_000_000, 1_000_000),
        acol: Vec3::from(0, 0, 0),
        objs,
    }
}

#[test]
fn sphere_distance_at_center_is_minus_radius() {
    let s = SDF::Sphere { pos: Vec3::from(300_000, -700_000, 2_000_000), rad: 1_500_000 };
    assert_eq!(s.evaluate(&Vec3::from(300_000, -700_000, 2_000_000)), -1_500_000);
}

#[test]
fn sphere_distance_on_surface_is_zero() {
    let s = SDF::Sphere { pos: Vec3::from(0, 0, 0), rad: 1_000_000 };
    assert_eq!(s.evaluate(&Vec3::from(1_000_000, 0, 0)), 0);
    assert_eq!(s.evaluate(&Vec3::from(0, -1_000_000, 0)), 0);
}

#[test]
fn sphere_distance_outside() {
    let s = SDF::Sphere { pos: Vec3::from(0, 0, 0), rad: 1_000_000 };
    assert_eq!(s.evaluate(&Vec3::from(0, 0, -5_000_000)), 4_000_000);
}

#[test]
fn plane_distance_on_surface_is_zero() {
    // With the bias h, the zero set sits at y == -h for a y-up plane
    // through the origin.
    let p = SDF::Plane {
        pos: Vec3::from(0, 0, 0),
        nor: Vec3::from(0, 1_000_000, 0),
        h: 10_000,
    };
    assert_eq!(p.evaluate(&Vec3::from(5_000_000, -10_000, 3_000_000)), 0);
}

#[test]
fn plane_distance_above_and_below() {
    let p = SDF::Plane {
        pos: Vec3::from(0, 0, 0),
        nor: Vec3::from(0, 1_000_000, 0),
        h: 0,
    };
    assert_eq!(p.evaluate(&Vec3::from(0, 2_500_000, 0)), 2_500_000);
    assert_eq!(p.evaluate(&Vec3::from(0, -2_500_000, 0)), -2_500_000);
}

#[test]
fn eval_returns_minimum_distance() {
    let near = Obj {
        sdf: SDF::Sphere { pos: Vec3::from(0, 0, 2_000_000), rad: 1_000_000 },
        mat: Material::Color { col: Vec3::from(1_000_000, 0, 0), shine: 32 },
    };
    let far = Obj {
        sdf: SDF::Sphere { pos: Vec3::from(0, 0, 9_000_000), rad: 1_000_000 },
        mat: Material::Color { col: Vec3::from(0, 1_000_000, 0), shine: 32 },
    };
    let scene = lighting_only_scene(vec![far, near]);
    let r = scene.eval(&Vec3::from(0, 0, 0));
    assert_eq!(r.sdfv, 1_000_000);
    assert_eq!(r.mat, Material::Color { col: Vec3::from(1_000_000, 0, 0), shine: 32 });
}

#[test]
fn eval_ties_go_to_the_earliest_object() {
    // Two spheres at the same distance from the query point: the first
    // one's material must win.
    let first = Obj {
        sdf: SDF::Sphere { pos: Vec3::from(3_000_000, 0, 0), rad: 1_000_000 },
        mat: Material::Color { col: Vec3::from(1_000_000, 0, 0), shine: 32 },
    };
    let second = Obj {
        sdf: SDF::Sphere { pos: Vec3::from(-3_000_000, 0, 0), rad: 1_000_000 },
        mat: Material::Reflect,
    };
    let scene = lighting_only_scene(vec![first, second]);
    let r = scene.eval(&Vec3::from(0, 0, 0));
    assert_eq!(r.sdfv, 2_000_000);
    assert_eq!(r.mat, Material::Color { col: Vec3::from(1_000_000, 0, 0), shine: 32 });
}

#[test]
fn eval_with_no_objects_keeps_the_starting_state() {
    let scene = lighting_only_scene(Vec::new());
    let r = scene.eval(&Vec3::from(0, 0, 0));
    assert_eq!(r.sdfv, i64::MAX);
    assert_eq!(r.mat, Material::Reflect);
}

#[test]
fn create_scene_shape() {
    let s = create_scene();
    assert_eq!(s.objs.len(), 6);
    assert_eq!(s.cpos, Vec3::from(0, 0, -5_000_000));
    assert_eq!(s.lpos, Vec3::from(0, 2_000_000, -3_000_000));
    assert_eq!(s.lcol, Vec3::from(1_000_000, 600_000, 400_000));
    assert_eq!(s.acol, Vec3::from(0, 0, 0));
    assert!(matches!(s.objs[1].mat, Material::Reflect));
    match s.objs[0].sdf {
        SDF::Sphere { pos, rad } => {
            assert_eq!(pos, Vec3::from(-1_500_000, 0, -2_000_000));
            assert_eq!(rad, 1_000_000);
        }
        _ => panic!("first object should be a sphere"),
    }
    match s.objs[4].sdf {
        SDF::Plane { pos, nor, h } => {
            assert_eq!(pos, Vec3::from(0, -3_000_000, -3_000_000));
            assert_eq!(nor, Vec3::from(0, 2_000_000, -1_000_000).normalize());
            assert_eq!(h, 10_000);
        }
        _ => panic!("fifth object should be a plane"),
    }
}
