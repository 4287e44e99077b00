//! 3D vector algebra on fixed-point scalars.
//!
//! `Vec3` is an immutable value type; every operation returns a new
//! vector. The mathematical model `V3` carries the same three components
//! as unbounded integers, and each executable operation is pinned to a
//! spec function over that model.

use vstd::prelude::*;

verus! {

use crate::fixed::{
    fx_div, fx_div_s, fx_mul, fx_mul_s, fx_sqrt, fx_sqrt_s, sat_add, sat_sub, sat64, SCALE,
    lemma_fx_mul_s_self_nonneg, lemma_fx_mul_s_unit, lemma_fx_mul_s_zero,
};

/// A 3D vector of fixed-point components.
#[derive(Clone, Copy, Debug, PartialEq, Eq, Structural)]
pub struct Vec3 {
    pub x: i64,
    pub y: i64,
    pub z: i64,
}

/// The mathematical model of a vector: three unbounded integers, still
/// counting units of `1 / SCALE`.
pub ghost struct V3 {
    pub x: int,
    pub y: int,
    pub z: int,
}

impl View for Vec3 {
    type V = V3;

    open spec fn view(&self) -> V3 {
        V3 { x: self.x as int, y: self.y as int, z: self.z as int }
    }
}

/// All three components fit in an `i64`.
pub open spec fn v3_in_range(v: V3) -> bool {
    &&& i64::MIN <= v.x <= i64::MAX
    &&& i64::MIN <= v.y <= i64::MAX
    &&& i64::MIN <= v.z <= i64::MAX
}

/// Componentwise saturating sum.
pub open spec fn v_add(a: V3, b: V3) -> V3 {
    V3 { x: sat64(a.x + b.x), y: sat64(a.y + b.y), z: sat64(a.z + b.z) }
}

/// Componentwise saturating difference.
pub open spec fn v_sub(a: V3, b: V3) -> V3 {
    V3 { x: sat64(a.x - b.x), y: sat64(a.y - b.y), z: sat64(a.z - b.z) }
}

/// Each component multiplied by the fixed-point scalar `s`.
pub open spec fn v_scale(a: V3, s: int) -> V3 {
    V3 { x: fx_mul_s(a.x, s), y: fx_mul_s(a.y, s), z: fx_mul_s(a.z, s) }
}

/// The dot product: the three componentwise fixed-point products, summed
/// exactly, then saturated once.
pub open spec fn v_dot(a: V3, b: V3) -> int {
    sat64(fx_mul_s(a.x, b.x) + fx_mul_s(a.y, b.y) + fx_mul_s(a.z, b.z))
}

/// Componentwise (Hadamard) product.
pub open spec fn v_times(a: V3, b: V3) -> V3 {
    V3 { x: fx_mul_s(a.x, b.x), y: fx_mul_s(a.y, b.y), z: fx_mul_s(a.z, b.z) }
}

/// The Euclidean norm: the fixed-point square root of the self dot
/// product.
pub open spec fn v_len(a: V3) -> int {
    fx_sqrt_s(v_dot(a, a))
}

/// Each component divided by the length. A zero-length vector normalizes
/// to the zero vector, since fixed-point division by zero is zero.
pub open spec fn v_norm(a: V3) -> V3 {
    let l = v_len(a);
    V3 { x: fx_div_s(a.x, l), y: fx_div_s(a.y, l), z: fx_div_s(a.z, l) }
}

/// Mirror reflection about a unit normal: `v - n * (2 * (v . n))`.
pub open spec fn v_reflect(v: V3, n: V3) -> V3 {
    v_sub(v, v_scale(n, sat64(2 * v_dot(v, n))))
}

/// The dot product of a vector with itself is non-negative.
pub proof fn lemma_v_dot_self_nonneg(a: V3)
    ensures
        v_dot(a, a) >= 0,
{
    lemma_fx_mul_s_self_nonneg(a.x);
    lemma_fx_mul_s_self_nonneg(a.y);
    lemma_fx_mul_s_self_nonneg(a.z);
}

/// Reflecting about the unit y axis mirrors exactly the y component,
/// whenever twice that component still fits in an `i64`.
pub proof fn lemma_reflect_mirrors_y(v: V3)
    requires
        v3_in_range(v),
        -(i64::MAX as int) <= 2 * v.y <= i64::MAX as int,
    ensures
        v_reflect(v, V3 { x: 0, y: SCALE as int, z: 0 }) == (V3 { x: v.x, y: -v.y, z: v.z }),
{
    let n = V3 { x: 0, y: SCALE as int, z: 0 };
    lemma_fx_mul_s_zero(v.x);
    lemma_fx_mul_s_zero(v.z);
    lemma_fx_mul_s_unit(v.y);
    assert(v_dot(v, n) == v.y);
    let t = sat64(2 * v.y);
    assert(t == 2 * v.y);
    lemma_fx_mul_s_zero(t);
    lemma_fx_mul_s_unit(t);
    assert(v_scale(n, t) == (V3 { x: 0, y: t, z: 0 }));
}

impl Vec3 {
    /// Build a vector from its three components.
    pub fn from(x: i64, y: i64, z: i64) -> (v: Vec3)
        ensures
            v@ == (V3 { x: x as int, y: y as int, z: z as int }),
    {
        Vec3 { x, y, z }
    }

    /// Vector sum.
    pub fn add(&self, oth: &Vec3) -> (r: Vec3)
        ensures
            r@ == v_add(self@, oth@),
    {
        Vec3 {
            x: sat_add(self.x, oth.x),
            y: sat_add(self.y, oth.y),
            z: sat_add(self.z, oth.z),
        }
    }

    /// Vector difference.
    pub fn sub(&self, oth: &Vec3) -> (r: Vec3)
        ensures
            r@ == v_sub(self@, oth@),
    {
        Vec3 {
            x: sat_sub(self.x, oth.x),
            y: sat_sub(self.y, oth.y),
            z: sat_sub(self.z, oth.z),
        }
    }

    /// Euclidean length.
    pub fn length(&self) -> (r: i64)
        ensures
            r as int == v_len(self@),
            r >= 0,
    {
        proof {
            lemma_v_dot_self_nonneg(self@);
        }
        let d = self.dot(self);
        fx_sqrt(d)
    }

    /// The vector scaled to unit length; the zero vector stays zero.
    pub fn normalize(&self) -> (r: Vec3)
        ensures
            r@ == v_norm(self@),
    {
        let len = self.length();
        Vec3 {
            x: fx_div(self.x, len),
            y: fx_div(self.y, len),
            z: fx_div(self.z, len),
        }
    }

    /// The vector scaled by a fixed-point scalar.
    pub fn scale(&self, scalar: i64) -> (r: Vec3)
        ensures
            r@ == v_scale(self@, scalar as int),
    {
        Vec3 {
            x: fx_mul(self.x, scalar),
            y: fx_mul(self.y, scalar),
            z: fx_mul(self.z, scalar),
        }
    }

    /// Dot product.
    pub fn dot(&self, oth: &Vec3) -> (r: i64)
        ensures
            r as int == v_dot(self@, oth@),
    {
        let px = fx_mul(self.x, oth.x);
        let py = fx_mul(self.y, oth.y);
        let pz = fx_mul(self.z, oth.z);
        let s: i128 = px as i128 + py as i128 + pz as i128;
        if s > i64::MAX as i128 {
            i64::MAX
        } else if s < i64::MIN as i128 {
            i64::MIN
        } else {
            s as i64
        }
    }

    /// Mirror reflection about a unit normal.
    pub fn reflect(&self, normal: &Vec3) -> (r: Vec3)
        ensures
            r@ == v_reflect(self@, normal@),
    {
        let dp = self.dot(normal);
        let minus = normal.scale(sat_add(dp, dp));
        self.sub(&minus)
    }

    /// Componentwise (Hadamard) product.
    pub fn times(&self, oth: &Vec3) -> (r: Vec3)
        ensures
            r@ == v_times(self@, oth@),
    {
        Vec3 {
            x: fx_mul(self.x, oth.x),
            y: fx_mul(self.y, oth.y),
            z: fx_mul(self.z, oth.z),
        }
    }
}

} // verus!
