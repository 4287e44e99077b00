//! Sphere tracing: the marching loop, normal estimation, and shading.
//!
//! A ray `(origin, direction)` is stepped forward by the scene's signed
//! distance at the current point until that distance falls below
//! `EPSILON` (a hit) or either budget runs out: the accumulated travel
//! passes `MAX_DIST`, or `MAX_ITER` steps have been taken (a miss). A
//! miss yields a dim scaling of the scene's ambient color. A hit is
//! shaded by the material: a Phong-style sum for colored surfaces, or a
//! recursive march along the reflected ray for mirrors.
//!
//! The reflected march sees the hit point as its camera position. That
//! override is threaded as the explicit `cpos` argument of `raymarch`
//! rather than by copying the scene with its camera field replaced; the
//! scene itself is never changed. Two facing mirrors would otherwise
//! recurse as long as the marching budgets allow on every bounce, so the
//! recursion also carries an explicit bounce cap, `MAX_BOUNCE`; a ray
//! that exhausts it is treated as a miss.

use vstd::prelude::*;

verus! {

use crate::fixed::{fx_pow, fx_pow_s, sat64, sat_add, sat_sub, SCALE};
use crate::scene::{scene_eval_s, MatV, Material, Scene, SceneV};
use crate::screen::{px_of4, px_wf, Px, PxV};
use crate::vecmath::{v_add, v_dot, v_norm, v_reflect, v_scale, v_sub, v_times, Vec3, V3};

/// The farthest a ray may travel before the march gives up.
pub const MAX_DIST: i64 = 2_500_000_000;

/// The most steps one march may take.
pub const MAX_ITER: u32 = 1000;

/// The hit threshold and finite-difference step: 0.001 in fixed point.
pub const EPSILON: i64 = 1_000;

/// The most mirror bounces one ray may take.
pub const MAX_BOUNCE: u32 = 8;

/// The ambient coefficient of the Phong shade: 0.1 in fixed point.
pub const AMBIENT_COEF: i64 = 100_000;

/// The scaling of the ambient color a missed ray returns: 0.2 in fixed
/// point.
pub const BACKGROUND_COEF: i64 = 200_000;

/// The fixed specular exponent of the Phong shade. The material's own
/// `shine` field is carried but not consulted here.
pub const SPECULAR_EXP: u32 = 32;

/// How one march ends: at a surface point with its material, or out of
/// budget.
#[derive(Clone, Copy, Debug)]
pub enum MarchResult {
    Hit { pos: Vec3, t: i64, mat: Material },
    Miss,
}

/// The mathematical model of a march outcome.
pub ghost enum MarchV {
    Hit { pos: V3, t: int, mat: MatV },
    Miss,
}

impl View for MarchResult {
    type V = MarchV;

    open spec fn view(&self) -> MarchV {
        match *self {
            MarchResult::Hit { pos, t, mat } => MarchV::Hit {
                pos: pos@,
                t: t as int,
                mat: mat@,
            },
            MarchResult::Miss => MarchV::Miss,
        }
    }
}

/// The rest of a march that has already taken `i` steps and travelled
/// `dist`: step by the scene's distance at the current point until it
/// drops below `EPSILON`, or a budget runs out.
pub open spec fn march_from(s: SceneV, ro: V3, rd: V3, i: int, dist: int) -> MarchV
    decreases MAX_ITER - i,
{
    if i < 0 || i >= MAX_ITER {
        MarchV::Miss
    } else {
        let pos = v_add(ro, v_scale(rd, dist));
        let d = scene_eval_s(s, pos).0;
        if d < EPSILON {
            MarchV::Hit { pos, t: dist, mat: scene_eval_s(s, pos).1 }
        } else if dist > MAX_DIST {
            MarchV::Miss
        } else {
            march_from(s, ro, rd, i + 1, sat64(dist + d))
        }
    }
}

/// A whole march, from the ray origin.
pub open spec fn march_s(s: SceneV, ro: V3, rd: V3) -> MarchV {
    march_from(s, ro, rd, 0, 0)
}

/// The background color of a missed ray: the ambient color dimmed by
/// `BACKGROUND_COEF`, alpha 1.
pub open spec fn bg_s(acol: V3) -> PxV {
    let ac = v_scale(acol, BACKGROUND_COEF as int);
    px_of4(ac.x, ac.y, ac.z, SCALE as int)
}

/// The surface normal at `p`, estimated by central differences of the
/// scene's distance field along each axis, then normalized.
pub open spec fn calc_norm_s(p: V3, s: SceneV) -> V3 {
    let dx = V3 { x: EPSILON as int, y: 0, z: 0 };
    let dy = V3 { x: 0, y: EPSILON as int, z: 0 };
    let dz = V3 { x: 0, y: 0, z: EPSILON as int };
    v_norm(
        V3 {
            x: sat64(scene_eval_s(s, v_add(p, dx)).0 - scene_eval_s(s, v_sub(p, dx)).0),
            y: sat64(scene_eval_s(s, v_add(p, dy)).0 - scene_eval_s(s, v_sub(p, dy)).0),
            z: sat64(scene_eval_s(s, v_add(p, dz)).0 - scene_eval_s(s, v_sub(p, dz)).0),
        },
    )
}

/// The Phong shade of a colored surface: ambient plus diffuse plus
/// specular, each channel clamped on pixel construction.
pub open spec fn phong_s(p: V3, n: V3, dir_to_cam: V3, s: SceneV, col: V3) -> PxV {
    let ambi_c = v_scale(s.acol, AMBIENT_COEF as int);
    let dtl = v_norm(v_sub(s.lpos, p));
    let diff = if v_dot(dtl, n) > 0 {
        v_dot(dtl, n)
    } else {
        0
    };
    let diff_c = v_times(v_scale(col, diff), s.lcol);
    let refl = v_norm(v_reflect(v_scale(dtl, -(SCALE as int)), n));
    let spec_raw = if v_dot(dir_to_cam, refl) > 0 {
        v_dot(dir_to_cam, refl)
    } else {
        0
    };
    let spec_c = fx_pow_s(spec_raw, SPECULAR_EXP as nat);
    let spec_v = v_scale(s.lcol, spec_c);
    let sum = v_add(v_add(spec_v, diff_c), ambi_c);
    px_of4(sum.x, sum.y, sum.z, SCALE as int)
}

/// The shade of a hit: Phong for a colored material; for a mirror, the
/// color of the reflected march, with the hit point as the new vantage,
/// or the background once the bounce budget is spent.
pub open spec fn shade_s(p: V3, n: V3, cpos: V3, s: SceneV, mat: MatV, depth: nat) -> PxV
    decreases depth, 0nat,
{
    let dir_to_cam = v_norm(v_sub(cpos, p));
    match mat {
        MatV::Reflect => {
            if depth == 0 {
                bg_s(s.acol)
            } else {
                let rd = v_norm(v_reflect(v_scale(dir_to_cam, -(SCALE as int)), n));
                let ro = v_add(p, v_scale(rd, 2 * EPSILON as int));
                raymarch_s(ro, rd, p, s, (depth - 1) as nat)
            }
        },
        MatV::Color { col, shine } => phong_s(p, n, dir_to_cam, s, col),
    }
}

/// The color a ray yields: the background on a miss, the shade of the
/// hit otherwise.
pub open spec fn raymarch_s(ro: V3, rd: V3, cpos: V3, s: SceneV, depth: nat) -> PxV
    decreases depth, 1nat,
{
    match march_s(s, ro, rd) {
        MarchV::Miss => bg_s(s.acol),
        MarchV::Hit { pos, t, mat } => shade_s(pos, calc_norm_s(pos, s), cpos, s, mat, depth),
    }
}

/// Every color a march yields has all channels in `[0, SCALE]`.
pub proof fn lemma_raymarch_s_wf(ro: V3, rd: V3, cpos: V3, s: SceneV, depth: nat)
    ensures
        px_wf(raymarch_s(ro, rd, cpos, s, depth)),
    decreases depth,
{
    match march_s(s, ro, rd) {
        MarchV::Miss => {},
        MarchV::Hit { pos, t, mat } => {
            match mat {
                MatV::Reflect => {
                    if depth > 0 {
                        let n = calc_norm_s(pos, s);
                        let dir_to_cam = v_norm(v_sub(cpos, pos));
                        let rd2 = v_norm(v_reflect(v_scale(dir_to_cam, -(SCALE as int)), n));
                        let ro2 = v_add(pos, v_scale(rd2, 2 * EPSILON as int));
                        lemma_raymarch_s_wf(ro2, rd2, pos, s, (depth - 1) as nat);
                    }
                },
                MatV::Color { col, shine } => {},
            }
        },
    }
}

/// March a ray until it hits a surface or runs out of budget.
pub fn march(ro: &Vec3, rd: &Vec3, scene: &Scene) -> (r: MarchResult)
    ensures
        r@ == march_s(scene@, ro@, rd@),
{
    let mut dist: i64 = 0;
    let mut i: u32 = 0;
    while i < MAX_ITER
        invariant
            i <= MAX_ITER,
            march_from(scene@, ro@, rd@, i as int, dist as int) == march_s(scene@, ro@, rd@),
        decreases MAX_ITER - i,
    {
        let pos = ro.add(&rd.scale(dist));
        let obj = scene.eval(&pos);
        if obj.sdfv < EPSILON {
            return MarchResult::Hit { pos, t: dist, mat: obj.mat };
        }
        if dist > MAX_DIST {
            return MarchResult::Miss;
        }
        dist = sat_add(dist, obj.sdfv);
        i = i + 1;
    }
    MarchResult::Miss
}

/// Estimate the surface normal at `p` by central differences of the
/// scene's distance field.
pub fn calc_norm(p: &Vec3, scene: &Scene) -> (n: Vec3)
    ensures
        n@ == calc_norm_s(p@, scene@),
{
    let dx = Vec3 { x: EPSILON, y: 0, z: 0 };
    let dy = Vec3 { x: 0, y: EPSILON, z: 0 };
    let dz = Vec3 { x: 0, y: 0, z: EPSILON };
    let gx = sat_sub(scene.eval(&p.add(&dx)).sdfv, scene.eval(&p.sub(&dx)).sdfv);
    let gy = sat_sub(scene.eval(&p.add(&dy)).sdfv, scene.eval(&p.sub(&dy)).sdfv);
    let gz = sat_sub(scene.eval(&p.add(&dz)).sdfv, scene.eval(&p.sub(&dz)).sdfv);
    let g = Vec3 { x: gx, y: gy, z: gz };
    g.normalize()
}

/// Shade a hit point. Colored materials get the Phong sum; a mirror
/// marches the reflected ray with the hit point as the new vantage,
/// until the bounce budget runs out.
pub fn shade(p: &Vec3, n: &Vec3, cpos: &Vec3, scene: &Scene, mat: &Material, depth: u32) -> (r:
    Option<Px>)
    ensures
        (r matches Some(px) && px@ == shade_s(p@, n@, cpos@, scene@, mat@, depth as nat)),
    decreases depth as int, 0int,
{
    let dir_to_cam = cpos.sub(p).normalize();
    match mat {
        Material::Reflect => {
            if depth == 0 {
                let ac = scene.acol.scale(BACKGROUND_COEF);
                Px::from(&vec![ac.x, ac.y, ac.z, SCALE])
            } else {
                let rd = dir_to_cam.scale(-SCALE).reflect(n).normalize();
                let ro = p.add(&rd.scale(2 * EPSILON));
                raymarch(&ro, &rd, p, scene, depth - 1)
            }
        },
        Material::Color { col, shine: _ } => {
            let ambi_c = scene.acol.scale(AMBIENT_COEF);
            let dir_to_light = scene.lpos.sub(p).normalize();
            let mut diff: i64 = dir_to_light.dot(n);
            if diff < 0 {
                diff = 0;
            }
            let diff_c = col.scale(diff).times(&scene.lcol);
            let refl = dir_to_light.scale(-SCALE).reflect(n).normalize();
            let mut spec_raw: i64 = dir_to_cam.dot(&refl);
            if spec_raw < 0 {
                spec_raw = 0;
            }
            let spec_c = fx_pow(spec_raw, SPECULAR_EXP);
            let spec_v = scene.lcol.scale(spec_c);
            let sum_c = spec_v.add(&diff_c).add(&ambi_c);
            Px::from(&vec![sum_c.x, sum_c.y, sum_c.z, SCALE])
        },
    }
}

/// March a ray and color it: the shaded hit, or the background on a
/// miss. `cpos` is the vantage the shader measures view directions
/// from; `depth` is the remaining bounce budget.
pub fn raymarch(ro: &Vec3, rd: &Vec3, cpos: &Vec3, scene: &Scene, depth: u32) -> (r: Option<Px>)
    ensures
        (r matches Some(px) && px@ == raymarch_s(ro@, rd@, cpos@, scene@, depth as nat)),
    decreases depth as int, 1int,
{
    match march(ro, rd, scene) {
        MarchResult::Miss => {
            let ac = scene.acol.scale(BACKGROUND_COEF);
            Px::from(&vec![ac.x, ac.y, ac.z, SCALE])
        },
        MarchResult::Hit { pos, t: _, mat } => {
            let normal = calc_norm(&pos, scene);
            shade(&pos, &normal, cpos, scene, &mat, depth)
        },
    }
}

} // verus!
