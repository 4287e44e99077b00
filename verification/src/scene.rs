//! Scene representation and the closest-surface query.
//!
//! A scene is an ordered list of signed-distance primitives, each paired
//! with a material, plus the light, camera and ambient state. `Scene::eval`
//! returns the minimum signed distance over all objects at a point and the
//! material of the object attaining it; on exact ties the earliest object
//! in the list wins, by strict less-than comparison.

use vstd::prelude::*;

verus! {

use crate::fixed::{
    sat_add, sat_sub, sat64, SCALE, lemma_fx_mul_s_zero, lemma_sqrt_i_is, is_isqrt,
};
use crate::vecmath::{Vec3, V3, v3_in_range, v_dot, v_len, v_norm, v_sub};

/// A surface material: a perfect mirror, or a colored Phong surface.
#[derive(Clone, Copy, Debug, PartialEq, Eq, Structural)]
pub enum Material {
    Reflect,
    Color { col: Vec3, shine: i32 },
}

/// The mathematical model of a material.
pub ghost enum MatV {
    Reflect,
    Color { col: V3, shine: int },
}

impl View for Material {
    type V = MatV;

    open spec fn view(&self) -> MatV {
        match *self {
            Material::Reflect => MatV::Reflect,
            Material::Color { col, shine } => MatV::Color { col: col@, shine: shine as int },
        }
    }
}

/// A signed-distance primitive: a sphere, or a plane with a small
/// thickness bias `h`.
#[derive(Clone, Copy, Debug)]
pub enum SDF {
    Sphere { pos: Vec3, rad: i64 },
    Plane { pos: Vec3, nor: Vec3, h: i64 },
}

/// The mathematical model of a primitive.
pub ghost enum SdfV {
    Sphere { pos: V3, rad: int },
    Plane { pos: V3, nor: V3, h: int },
}

impl View for SDF {
    type V = SdfV;

    open spec fn view(&self) -> SdfV {
        match *self {
            SDF::Sphere { pos, rad } => SdfV::Sphere { pos: pos@, rad: rad as int },
            SDF::Plane { pos, nor, h } => SdfV::Plane { pos: pos@, nor: nor@, h: h as int },
        }
    }
}

/// What the closest-surface query returns: the minimum signed distance
/// and the material of the object attaining it.
pub struct ObjRet {
    pub sdfv: i64,
    pub mat: Material,
}

/// One scene object: a primitive paired with a material.
#[derive(Clone, Copy, Debug)]
pub struct Obj {
    pub sdf: SDF,
    pub mat: Material,
}

/// The mathematical model of a scene object.
pub ghost struct ObjV {
    pub sdf: SdfV,
    pub mat: MatV,
}

impl View for Obj {
    type V = ObjV;

    open spec fn view(&self) -> ObjV {
        ObjV { sdf: self.sdf@, mat: self.mat@ }
    }
}

/// The signed distance from `p` to the primitive's surface: negative
/// inside, positive outside.
pub open spec fn sdf_eval(s: SdfV, p: V3) -> int {
    match s {
        SdfV::Sphere { pos, rad } => sat64(v_len(v_sub(p, pos)) - rad),
        SdfV::Plane { pos, nor, h } => sat64(v_dot(v_sub(p, pos), nor) + h),
    }
}

impl SDF {
    /// Evaluate the signed distance from `p` to this primitive.
    pub fn evaluate(&self, p: &Vec3) -> (r: i64)
        ensures
            r as int == sdf_eval(self@, p@),
    {
        match self {
            SDF::Sphere { pos, rad } => {
                let d = p.sub(pos).length();
                sat_sub(d, *rad)
            },
            SDF::Plane { pos, nor, h } => {
                let d = p.sub(pos).dot(nor);
                sat_add(d, *h)
            },
        }
    }
}

/// A scene: the object list, light position and color, ambient color,
/// and the camera position the shader measures view directions from.
#[derive(Clone)]
pub struct Scene {
    pub lpos: Vec3,
    pub cpos: Vec3,
    pub lcol: Vec3,
    pub acol: Vec3,
    pub objs: Vec<Obj>,
}

/// The mathematical model of a scene.
#[verifier::ext_equal]
pub ghost struct SceneV {
    pub lpos: V3,
    pub cpos: V3,
    pub lcol: V3,
    pub acol: V3,
    pub objs: Seq<ObjV>,
}

impl View for Scene {
    type V = SceneV;

    open spec fn view(&self) -> SceneV {
        SceneV {
            lpos: self.lpos@,
            cpos: self.cpos@,
            lcol: self.lcol@,
            acol: self.acol@,
            objs: self.objs@.map_values(|o: Obj| o@),
        }
    }
}

/// The fold of the closest-object scan from index `i` onward, given the
/// best distance and material seen so far. A candidate wins only by
/// strict less-than, so the earliest object keeps exact ties.
pub open spec fn scene_eval_from(objs: Seq<ObjV>, p: V3, i: int, min: int, mat: MatV) -> (
    int,
    MatV,
)
    decreases objs.len() - i,
{
    if i < 0 || i >= objs.len() {
        (min, mat)
    } else {
        let cand = sdf_eval(objs[i].sdf, p);
        if cand < min {
            scene_eval_from(objs, p, i + 1, cand, objs[i].mat)
        } else {
            scene_eval_from(objs, p, i + 1, min, mat)
        }
    }
}

/// The closest-object query over the whole scene, starting from the
/// largest representable distance and a mirror material.
pub open spec fn scene_eval_s(s: SceneV, p: V3) -> (int, MatV) {
    scene_eval_from(s.objs, p, 0, i64::MAX as int, MatV::Reflect)
}

impl Scene {
    /// The minimum signed distance over all objects at `p`, and the
    /// material of the first object attaining it.
    pub fn eval(&self, p: &Vec3) -> (r: ObjRet)
        ensures
            r.sdfv as int == scene_eval_s(self@, p@).0,
            r.mat@ == scene_eval_s(self@, p@).1,
    {
        let mut min: i64 = i64::MAX;
        let mut mat: Material = Material::Reflect;
        let n = self.objs.len();
        let mut i: usize = 0;
        while i < n
            invariant
                i <= n,
                n == self.objs.len(),
                scene_eval_from(self@.objs, p@, i as int, min as int, mat@) == scene_eval_s(
                    self@,
                    p@,
                ),
            decreases n - i,
        {
            let cand = self.objs[i].sdf.evaluate(p);
            if cand < min {
                min = cand;
                mat = self.objs[i].mat;
            }
            i += 1;
        }
        ObjRet { sdfv: min, mat }
    }
}

/// The scene `create_scene` builds: four unit spheres (one a mirror)
/// over two tilted planes, one warm light, a camera on the negative z
/// axis, and a black ambient color.
pub open spec fn create_scene_s() -> SceneV {
    SceneV {
        lpos: V3 { x: 0, y: 2_000_000, z: -3_000_000 },
        cpos: V3 { x: 0, y: 0, z: -5_000_000 },
        lcol: V3 { x: 1_000_000, y: 600_000, z: 400_000 },
        acol: V3 { x: 0, y: 0, z: 0 },
        objs: seq![
            ObjV {
                sdf: SdfV::Sphere { pos: V3 { x: -1_500_000, y: 0, z: -2_000_000 }, rad: 1_000_000 },
                mat: MatV::Color { col: V3 { x: 1_000_000, y: 200_000, z: 200_000 }, shine: 32 },
            },
            ObjV {
                sdf: SdfV::Sphere { pos: V3 { x: 2_500_000, y: -1_000_000, z: -300_000 }, rad: 1_000_000 },
                mat: MatV::Reflect,
            },
            ObjV {
                sdf: SdfV::Sphere { pos: V3 { x: 2_500_000, y: 3_000_000, z: -300_000 }, rad: 1_000_000 },
                mat: MatV::Color { col: V3 { x: 1_000_000, y: 900_000, z: 300_000 }, shine: 32 },
            },
            ObjV {
                sdf: SdfV::Sphere { pos: V3 { x: -2_000_000, y: 4_000_000, z: 0 }, rad: 1_000_000 },
                mat: MatV::Color { col: V3 { x: 400_000, y: 800_000, z: 400_000 }, shine: 32 },
            },
            ObjV {
                sdf: SdfV::Plane {
                    pos: V3 { x: 0, y: -3_000_000, z: -3_000_000 },
                    nor: v_norm(V3 { x: 0, y: 2_000_000, z: -1_000_000 }),
                    h: 10_000,
                },
                mat: MatV::Color { col: V3 { x: 100_000, y: 100_000, z: 300_000 }, shine: 32 },
            },
            ObjV {
                sdf: SdfV::Plane {
                    pos: V3 { x: 0, y: 7_000_000, z: -3_000_000 },
                    nor: v_norm(V3 { x: 0, y: -105_000_000, z: -100_000_000 }),
                    h: 10_000,
                },
                mat: MatV::Color { col: V3 { x: 400_000, y: 300_000, z: 700_000 }, shine: 32 },
            },
        ],
    }
}

/// Build the scene described by `create_scene_s`.
pub fn create_scene() -> (s: Scene)
    ensures
        s@ == create_scene_s(),
{
    let mut objs: Vec<Obj> = Vec::new();

    let s1 = Obj {
        sdf: SDF::Sphere { pos: Vec3::from(-1_500_000, 0, -2_000_000), rad: 1_000_000 },
        mat: Material::Color { col: Vec3::from(1_000_000, 200_000, 200_000), shine: 32 },
    };
    objs.push(s1);

    let s2 = Obj {
        sdf: SDF::Sphere { pos: Vec3::from(2_500_000, -1_000_000, -300_000), rad: 1_000_000 },
        mat: Material::Reflect,
    };
    objs.push(s2);

    let s3 = Obj {
        sdf: SDF::Sphere { pos: Vec3::from(2_500_000, 3_000_000, -300_000), rad: 1_000_000 },
        mat: Material::Color { col: Vec3::from(1_000_000, 900_000, 300_000), shine: 32 },
    };
    objs.push(s3);

    let s4 = Obj {
        sdf: SDF::Sphere { pos: Vec3::from(-2_000_000, 4_000_000, 0), rad: 1_000_000 },
        mat: Material::Color { col: Vec3::from(400_000, 800_000, 400_000), shine: 32 },
    };
    objs.push(s4);

    let p1 = Obj {
        sdf: SDF::Plane {
            pos: Vec3::from(0, -3_000_000, -3_000_000),
            nor: Vec3::from(0, 2_000_000, -1_000_000).normalize(),
            h: 10_000,
        },
        mat: Material::Color { col: Vec3::from(100_000, 100_000, 300_000), shine: 32 },
    };
    objs.push(p1);

    let p2 = Obj {
        sdf: SDF::Plane {
            pos: Vec3::from(0, 7_000_000, -3_000_000),
            nor: Vec3::from(0, -105_000_000, -100_000_000).normalize(),
            h: 10_000,
        },
        mat: Material::Color { col: Vec3::from(400_000, 300_000, 700_000), shine: 32 },
    };
    objs.push(p2);

    let s = Scene {
        lpos: Vec3::from(0, 2_000_000, -3_000_000),
        cpos: Vec3::from(0, 0, -5_000_000),
        lcol: Vec3::from(1_000_000, 600_000, 400_000),
        acol: Vec3::from(0, 0, 0),
        objs,
    };
    proof {
        assert(s@.objs =~= create_scene_s().objs);
        assert(s@ =~= create_scene_s());
    }
    s
}

/// A sphere's distance at its own center is exactly minus its radius.
pub proof fn lemma_sphere_center_eval(pos: V3, rad: int)
    requires
        v3_in_range(pos),
        0 <= rad <= i64::MAX,
    ensures
        sdf_eval((SdfV::Sphere { pos, rad }), pos) == -rad,
{
    let zero = v_sub(pos, pos);
    assert(zero == (V3 { x: 0, y: 0, z: 0 }));
    lemma_fx_mul_s_zero(0);
    assert(v_dot(zero, zero) == 0);
    assert(is_isqrt(0 * SCALE as int, 0));
    lemma_sqrt_i_is(0 * SCALE as int, 0);
    assert(v_len(zero) == 0);
}

/// A sphere's distance is exactly zero at any point whose fixed-point
/// distance to the center equals the radius.
pub proof fn lemma_sphere_on_surface_eval(pos: V3, rad: int, p: V3)
    requires
        v_len(v_sub(p, pos)) == rad,
    ensures
        sdf_eval((SdfV::Sphere { pos, rad }), p) == 0,
{
}

/// A plane's distance is exactly zero at any point whose offset dot the
/// normal, plus the bias, is zero.
pub proof fn lemma_plane_on_surface_eval(pos: V3, nor: V3, h: int, p: V3)
    requires
        v_dot(v_sub(p, pos), nor) + h == 0,
    ensures
        sdf_eval((SdfV::Plane { pos, nor, h }), p) == 0,
{
}

/// The scan's result never exceeds the running minimum it started from.
proof fn lemma_eval_from_le_min(objs: Seq<ObjV>, p: V3, i: int, min: int, mat: MatV)
    requires
        0 <= i <= objs.len(),
    ensures
        scene_eval_from(objs, p, i, min, mat).0 <= min,
    decreases objs.len() - i,
{
    if i < objs.len() {
        let cand = sdf_eval(objs[i].sdf, p);
        if cand < min {
            lemma_eval_from_le_min(objs, p, i + 1, cand, objs[i].mat);
        } else {
            lemma_eval_from_le_min(objs, p, i + 1, min, mat);
        }
    }
}

/// The scan's result never exceeds the distance of any object it visits.
proof fn lemma_eval_from_lower_bound(objs: Seq<ObjV>, p: V3, i: int, min: int, mat: MatV, k: int)
    requires
        0 <= i <= k < objs.len(),
    ensures
        scene_eval_from(objs, p, i, min, mat).0 <= sdf_eval(objs[k].sdf, p),
    decreases objs.len() - i,
{
    let cand = sdf_eval(objs[i].sdf, p);
    if i == k {
        if cand < min {
            lemma_eval_from_le_min(objs, p, i + 1, cand, objs[i].mat);
        } else {
            lemma_eval_from_le_min(objs, p, i + 1, min, mat);
        }
    } else {
        if cand < min {
            lemma_eval_from_lower_bound(objs, p, i + 1, cand, objs[i].mat, k);
        } else {
            lemma_eval_from_lower_bound(objs, p, i + 1, min, mat, k);
        }
    }
}

/// If no remaining object beats the running minimum, the scan keeps it.
proof fn lemma_eval_from_stable(objs: Seq<ObjV>, p: V3, i: int, min: int, mat: MatV)
    requires
        0 <= i <= objs.len(),
        forall|j: int| i <= j < objs.len() ==> sdf_eval(#[trigger] objs[j].sdf, p) >= min,
    ensures
        scene_eval_from(objs, p, i, min, mat) == (min, mat),
    decreases objs.len() - i,
{
    if i < objs.len() {
        lemma_eval_from_stable(objs, p, i + 1, min, mat);
    }
}

/// If `k` is the first index attaining the strict minimum of the
/// remaining distances, the scan returns that object's distance and
/// material.
proof fn lemma_eval_from_first(objs: Seq<ObjV>, p: V3, i: int, min: int, mat: MatV, k: int)
    requires
        0 <= i <= k < objs.len(),
        sdf_eval(objs[k].sdf, p) < min,
        forall|j: int| i <= j < k ==> sdf_eval(#[trigger] objs[j].sdf, p) > sdf_eval(objs[k].sdf, p),
        forall|j: int|
            i <= j < objs.len() ==> sdf_eval(#[trigger] objs[j].sdf, p) >= sdf_eval(
                objs[k].sdf,
                p,
            ),
    ensures
        scene_eval_from(objs, p, i, min, mat) == (sdf_eval(objs[k].sdf, p), objs[k].mat),
    decreases objs.len() - i,
{
    let dk = sdf_eval(objs[k].sdf, p);
    let cand = sdf_eval(objs[i].sdf, p);
    if i == k {
        lemma_eval_from_stable(objs, p, i + 1, dk, objs[k].mat);
    } else {
        if cand < min {
            lemma_eval_from_first(objs, p, i + 1, cand, objs[i].mat, k);
        } else {
            lemma_eval_from_first(objs, p, i + 1, min, mat, k);
        }
    }
}

/// The scan's result is a lower bound on every object's distance: the
/// query returns the algebraic minimum.
pub proof fn lemma_scene_eval_is_min(s: SceneV, p: V3, k: int)
    requires
        0 <= k < s.objs.len(),
    ensures
        scene_eval_s(s, p).0 <= sdf_eval(s.objs[k].sdf, p),
{
    lemma_eval_from_lower_bound(s.objs, p, 0, i64::MAX as int, MatV::Reflect, k);
}

/// The result is either attained by some object, or no object beat the
/// starting state and the query returns it unchanged.
pub proof fn lemma_scene_eval_attained(s: SceneV, p: V3)
    ensures
        (scene_eval_s(s, p) == (i64::MAX as int, MatV::Reflect)) || (exists|k: int|
            0 <= k < s.objs.len() && scene_eval_s(s, p) == (
                sdf_eval(#[trigger] s.objs[k].sdf, p),
                s.objs[k].mat,
            )),
{
    lemma_eval_from_attained(s.objs, p, 0, i64::MAX as int, MatV::Reflect);
}

/// The scan either keeps its starting state or returns the distance and
/// material of some visited object.
proof fn lemma_eval_from_attained(objs: Seq<ObjV>, p: V3, i: int, min: int, mat: MatV)
    requires
        0 <= i <= objs.len(),
    ensures
        (scene_eval_from(objs, p, i, min, mat) == (min, mat)) || (exists|k: int|
            i <= k < objs.len() && scene_eval_from(objs, p, i, min, mat) == (
                sdf_eval(#[trigger] objs[k].sdf, p),
                objs[k].mat,
            )),
    decreases objs.len() - i,
{
    if i < objs.len() {
        let cand = sdf_eval(objs[i].sdf, p);
        if cand < min {
            lemma_eval_from_attained(objs, p, i + 1, cand, objs[i].mat);
            if scene_eval_from(objs, p, i + 1, cand, objs[i].mat) == (cand, objs[i].mat) {
                assert(scene_eval_from(objs, p, i, min, mat) == (
                    sdf_eval(objs[i].sdf, p),
                    objs[i].mat,
                ));
            }
        } else {
            lemma_eval_from_attained(objs, p, i + 1, min, mat);
        }
    }
}

/// On exact ties the earliest object wins: when `k` is the first index
/// attaining the minimum distance, the query returns exactly that
/// object's distance and material.
pub proof fn lemma_scene_eval_first_wins(s: SceneV, p: V3, k: int)
    requires
        0 <= k < s.objs.len(),
        sdf_eval(s.objs[k].sdf, p) < i64::MAX,
        forall|j: int|
            0 <= j < k ==> sdf_eval(#[trigger] s.objs[j].sdf, p) > sdf_eval(s.objs[k].sdf, p),
        forall|j: int|
            0 <= j < s.objs.len() ==> sdf_eval(#[trigger] s.objs[j].sdf, p) >= sdf_eval(
                s.objs[k].sdf,
                p,
            ),
    ensures
        scene_eval_s(s, p) == (sdf_eval(s.objs[k].sdf, p), s.objs[k].mat),
{
    lemma_eval_from_first(s.objs, p, 0, i64::MAX as int, MatV::Reflect, k);
}

} // verus!
