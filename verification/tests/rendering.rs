//! The two render loops: the scene renderer and the disk test pattern.

use raymarcher::render;
use raymarcher::scene::{create_scene, Scene};
use raymarcher::screen;
use raymarcher::vecmath::Vec3;

fn empty_scene(acol: Vec3) -> Scene {
    Scene {
        lpos: Vec3::from(0, 2_000_000, -3_000_000),
        cpos: Vec3::from(0, 0, -5_000_000),
        lcol: Vec3::from(1_000_000, 600_000, 400_000),
        acol,
        objs: Vec::new(),
    }
}

#[test]
fn scene_render_emits_four_bytes_per_pixel() {
    let scene = create_scene();
    let mut data = Vec::new();
    screen::render(4, 3, &mut data, &scene);
    assert_eq!(data.len(), 4 * 4 * 3);
    // Every path sets alpha to 1, so every fourth byte is 255.
    for px in data.chunks(4) {
        assert_eq!(px[3], 255);
    }
}

#[test]
fn scene_render_appends_after_existing_bytes() {
    let scene = create_scene();
    let mut data = vec![7u8, 9u8];
    screen::render(2, 2, &mut data, &scene);
    assert_eq!(data.len(), 2 + 16);
    assert_eq!(data[0], 7);
    assert_eq!(data[1], 9);
}

#[test]
fn empty_scene_renders_the_scaled_ambient_background() {
    // Ambient (1, 0.5, 0) scaled by 0.2 is (0.2, 0.1, 0): bytes
    // (51, 25, 0, 255) for every pixel.
    let scene = empty_scene(Vec3::from(1_000_000, 500_000, 0));
    let mut data = Vec::new();
    screen::render(2, 2, &mut data, &scene);
    assert_eq!(data.len(), 16);
    for px in data.chunks(4) {
        assert_eq!(px, [51, 25, 0, 255]);
    }
}

#[test]
fn disk_pattern_two_by_two_is_all_black() {
    // All four screen coordinates land on the corners (+-1, +-1),
    // outside the unit disk.
    let mut data = Vec::new();
    render::render(2, 2, &mut data);
    assert_eq!(data.len(), 16);
    for px in data.chunks(4) {
        assert_eq!(px, [0, 0, 0, 255]);
    }
}

#[test]
fn disk_pattern_three_by_three_has_a_white_center() {
    // Only the center pixel maps to (0, 0), inside the disk; the edge
    // and corner pixels land on or outside the unit circle.
    let mut data = Vec::new();
    render::render(3, 3, &mut data);
    assert_eq!(data.len(), 36);
    for (k, px) in data.chunks(4).enumerate() {
        if k == 4 {
            assert_eq!(px, [255, 255, 255, 255]);
        } else {
            assert_eq!(px, [0, 0, 0, 255]);
        }
    }
}

#[test]
fn disk_pattern_appends_after_existing_bytes() {
    let mut data = vec![1u8];
    render::render(2, 2, &mut data);
    assert_eq!(data.len(), 17);
    assert_eq!(data[0], 1);
}
