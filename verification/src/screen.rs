//! Pixels, screen coordinates, and the per-pixel render loop.
//!
//! A pixel holds four fixed-point channel values, each clamped to
//! `[0, SCALE]` on construction. The render loop walks the image top row
//! first, maps each pixel index to a screen coordinate, casts a ray from
//! the camera through it, and appends the marched color as four bytes.

use vstd::prelude::*;

verus! {

use crate::fixed::{fx_div, fx_div_s, fx_mul, fx_mul_s, sat_add, sat_sub, sat64, SCALE};
use crate::raymarch::{lemma_raymarch_s_wf, raymarch, raymarch_s, MAX_BOUNCE};
use crate::scene::{Scene, SceneV};
use crate::vecmath::{v_norm, v_sub, Vec3, V3};

/// One color channel of a pixel.
#[derive(Clone, Copy, Debug, PartialEq, Eq, Structural)]
pub enum Channel {
    Red,
    Green,
    Blue,
    Alpha,
}

/// A pixel: four fixed-point channel values in `[0, SCALE]`.
#[derive(Clone, Copy, Debug, PartialEq, Eq, Structural)]
pub struct Px {
    r: i64,
    g: i64,
    b: i64,
    a: i64,
}

/// The mathematical model of a pixel.
pub ghost struct PxV {
    pub r: int,
    pub g: int,
    pub b: int,
    pub a: int,
}

impl View for Px {
    type V = PxV;

    closed spec fn view(&self) -> PxV {
        PxV { r: self.r as int, g: self.g as int, b: self.b as int, a: self.a as int }
    }
}

/// A channel value clamped to `[0, SCALE]`.
pub open spec fn clamp_unit(v: int) -> int {
    if v < 0 {
        0
    } else if v > SCALE {
        SCALE as int
    } else {
        v
    }
}

/// The pixel built from four channel values, each clamped.
pub open spec fn px_of4(r: int, g: int, b: int, a: int) -> PxV {
    PxV { r: clamp_unit(r), g: clamp_unit(g), b: clamp_unit(b), a: clamp_unit(a) }
}

/// Every channel lies in `[0, SCALE]`.
pub open spec fn px_wf(p: PxV) -> bool {
    &&& 0 <= p.r <= SCALE
    &&& 0 <= p.g <= SCALE
    &&& 0 <= p.b <= SCALE
    &&& 0 <= p.a <= SCALE
}

/// Clamping channel values that already lie in `[0, SCALE]` changes
/// nothing: the pixel returns them exactly.
pub proof fn lemma_px_clamp_noop(r: int, g: int, b: int, a: int)
    requires
        0 <= r <= SCALE,
        0 <= g <= SCALE,
        0 <= b <= SCALE,
        0 <= a <= SCALE,
    ensures
        px_of4(r, g, b, a) == (PxV { r, g, b, a }),
{
}

/// The channel of a pixel selected by a `Channel` tag.
pub open spec fn ch_of(p: PxV, c: Channel) -> int {
    match c {
        Channel::Red => p.r,
        Channel::Green => p.g,
        Channel::Blue => p.b,
        Channel::Alpha => p.a,
    }
}

/// Clamp one channel value to `[0, SCALE]`.
fn clamp01(v: i64) -> (r: i64)
    ensures
        r as int == clamp_unit(v as int),
{
    if v < 0 {
        0
    } else if v > SCALE {
        SCALE
    } else {
        v
    }
}

impl Px {
    /// Build a pixel from a list of exactly four channel values,
    /// clamping each to `[0, SCALE]`; any other length is rejected.
    pub fn from(vals: &Vec<i64>) -> (r: Option<Px>)
        ensures
            vals@.len() == 4 ==> (r matches Some(px) && px@ == px_of4(
                vals@[0] as int,
                vals@[1] as int,
                vals@[2] as int,
                vals@[3] as int,
            )),
            vals@.len() != 4 ==> (r matches None),
    {
        let l = vals.len();
        if l != 4 {
            return None;
        }
        let px = Px {
            r: clamp01(vals[0]),
            g: clamp01(vals[1]),
            b: clamp01(vals[2]),
            a: clamp01(vals[3]),
        };
        Some(px)
    }

    /// Read one channel.
    pub fn get_ch(&self, channel: &Channel) -> (r: i64)
        ensures
            r as int == ch_of(self@, *channel),
    {
        match channel {
            Channel::Red => self.r,
            Channel::Green => self.g,
            Channel::Blue => self.b,
            Channel::Alpha => self.a,
        }
    }
}

/// A point on the screen plane, in fixed-point screen coordinates.
struct ScreenCoord {
    x: i64,
    y: i64,
}

/// The aspect ratio of a `w` by `h` image, as a fixed-point quotient.
pub open spec fn aspect_s(w: int, h: int) -> int {
    fx_div_s(w * SCALE, h * SCALE)
}

/// The horizontal screen coordinate of pixel column `x`: the column
/// mapped into `[-1, 1]` across `w - 1` steps, times the aspect ratio.
pub open spec fn screen_x_s(x: int, w: int, asp: int) -> int {
    let q = fx_div_s(x * SCALE, (w - 1) * SCALE);
    fx_mul_s(asp, sat64(sat64(q + q) - SCALE))
}

/// The vertical screen coordinate of pixel row `y`, mapped into
/// `[-1, 1]` across `h - 1` steps.
pub open spec fn screen_y_s(y: int, h: int) -> int {
    let q = fx_div_s(y * SCALE, (h - 1) * SCALE);
    sat64(sat64(q + q) - SCALE)
}

/// Map a pixel index to screen coordinates.
fn px_to_screen(x: u32, y: u32, w: u32, h: u32, asp_rat: i64) -> (sc: ScreenCoord)
    requires
        w >= 1,
        h >= 1,
    ensures
        sc.x as int == screen_x_s(x as int, w as int, asp_rat as int),
        sc.y as int == screen_y_s(y as int, h as int),
{
    let xf = (x as i64) * SCALE;
    let yf = (y as i64) * SCALE;
    let wf = ((w - 1) as i64) * SCALE;
    let hf = ((h - 1) as i64) * SCALE;
    let qx = fx_div(xf, wf);
    let sx = fx_mul(asp_rat, sat_sub(sat_add(qx, qx), SCALE));
    let qy = fx_div(yf, hf);
    let sy = sat_sub(sat_add(qy, qy), SCALE);
    ScreenCoord { x: sx, y: sy }
}

/// The color of the pixel whose screen coordinates are `(sx, sy)`: a ray
/// from the scene's camera through the screen plane one unit ahead,
/// marched with the full bounce budget.
pub open spec fn draw_s(sx: int, sy: int, s: SceneV) -> PxV {
    let ro = s.cpos;
    let screen = V3 { x: sx, y: sy, z: sat64(ro.z + SCALE) };
    let rd = v_norm(v_sub(screen, ro));
    raymarch_s(ro, rd, ro, s, MAX_BOUNCE as nat)
}

/// Cast and march the ray for one screen coordinate.
fn draw(screen_c: ScreenCoord, scene: &Scene) -> (px: Px)
    ensures
        px@ == draw_s(screen_c.x as int, screen_c.y as int, scene@),
        px_wf(px@),
{
    let ro = scene.cpos;
    let screen = Vec3::from(screen_c.x, screen_c.y, sat_add(ro.z, SCALE));
    let rd = screen.sub(&ro).normalize();
    proof {
        lemma_raymarch_s_wf(ro@, rd@, ro@, scene@, MAX_BOUNCE as nat);
    }
    let r = raymarch(&ro, &rd, &ro, scene, MAX_BOUNCE);
    r.unwrap()
}

/// A channel value in `[0, SCALE]` scaled to an 8-bit value: times 255,
/// divided by `SCALE`, rounded down.
pub open spec fn byte_of(v: int) -> int
    recommends
        0 <= v <= SCALE,
{
    (255 * v) / (SCALE as int)
}

/// Scale one channel to a byte.
fn to_byte(ch: i64) -> (b: u8)
    requires
        0 <= ch <= SCALE,
    ensures
        b as int == byte_of(ch as int),
{
    proof {
        vstd::arithmetic::div_mod::lemma_div_is_ordered(
            255 * ch as int,
            255 * SCALE as int,
            SCALE as int,
        );
        vstd::arithmetic::div_mod::lemma_div_multiples_vanish(255, SCALE as int);
    }
    let t: u64 = 255u64 * (ch as u64) / (SCALE as u64);
    t as u8
}

/// The pixel at column `c` of output row `r` of a `w` by `h` image:
/// rows are emitted top first, so output row `r` shows pixel row
/// `h - 1 - r`.
pub open spec fn render_px_s(c: int, r: int, w: int, h: int, s: SceneV) -> PxV {
    draw_s(screen_x_s(c, w, aspect_s(w, h)), screen_y_s(h - 1 - r, h), s)
}

/// A channel value in `[0, SCALE]` scales to a byte.
pub proof fn lemma_byte_of_range(v: int)
    requires
        0 <= v <= SCALE,
    ensures
        0 <= byte_of(v) <= 255,
{
    vstd::arithmetic::div_mod::lemma_div_pos_is_pos(255 * v, SCALE as int);
    vstd::arithmetic::div_mod::lemma_div_is_ordered(255 * v, 255 * SCALE as int, SCALE as int);
    vstd::arithmetic::div_mod::lemma_div_multiples_vanish(255, SCALE as int);
}

/// The four bytes of one pixel: each channel scaled to 8 bits.
pub open spec fn px_bytes(px: PxV) -> Seq<u8> {
    seq![
        byte_of(px.r) as u8,
        byte_of(px.g) as u8,
        byte_of(px.b) as u8,
        byte_of(px.a) as u8,
    ]
}

/// The bytes of the first `c` pixels of output row `r`.
pub open spec fn row_bytes(r: int, c: int, w: int, h: int, s: SceneV) -> Seq<u8>
    decreases c,
{
    if c <= 0 {
        Seq::empty()
    } else {
        row_bytes(r, c - 1, w, h, s) + px_bytes(render_px_s(c - 1, r, w, h, s))
    }
}

/// The bytes of the first `r` output rows, each `w` pixels wide.
pub open spec fn image_bytes(r: int, w: int, h: int, s: SceneV) -> Seq<u8>
    decreases r,
{
    if r <= 0 {
        Seq::empty()
    } else {
        image_bytes(r - 1, w, h, s) + row_bytes(r - 1, w, w, h, s)
    }
}

/// A row prefix holds four bytes per pixel.
pub proof fn lemma_row_bytes_len(r: int, c: int, w: int, h: int, s: SceneV)
    requires
        0 <= c,
    ensures
        row_bytes(r, c, w, h, s).len() == 4 * c,
    decreases c,
{
    if c > 0 {
        lemma_row_bytes_len(r, c - 1, w, h, s);
    }
}

/// An image prefix holds four bytes per pixel of each full row.
pub proof fn lemma_image_bytes_len(r: int, w: int, h: int, s: SceneV)
    requires
        0 <= r,
        0 <= w,
    ensures
        image_bytes(r, w, h, s).len() == 4 * r * w,
    decreases r,
{
    if r > 0 {
        lemma_image_bytes_len(r - 1, w, h, s);
        lemma_row_bytes_len(r - 1, w, w, h, s);
        assert(4 * (r - 1) * w + 4 * w == 4 * r * w) by (nonlinear_arith);
    } else {
        assert(4 * r * w == 0) by (nonlinear_arith)
            requires
                r == 0,
        ;
    }
}

/// Render a `w` by `h` image of the scene, appending one 4-byte RGBA
/// pixel per point in row-major order, top row first.
pub fn render(w: u32, h: u32, data: &mut Vec<u8>, scene: &Scene)
    requires
        w >= 1,
        h >= 1,
    ensures
        final(data)@ == old(data)@ + image_bytes(h as int, w as int, h as int, scene@),
        final(data)@.len() == old(data)@.len() + 4 * (w as int) * (h as int),
{
    let aspect_ratio: i64 = fx_div((w as i64) * SCALE, (h as i64) * SCALE);
    let ghost s = scene@;
    let ghost wi = w as int;
    let ghost hi = h as int;
    let mut r: u32 = 0;
    while r < h
        invariant
            w >= 1,
            h >= 1,
            r <= h,
            s == scene@,
            wi == w as int,
            hi == h as int,
            aspect_ratio as int == aspect_s(wi, hi),
            data@ == old(data)@ + image_bytes(r as int, wi, hi, s),
        decreases h - r,
    {
        let j = h - 1 - r;
        let mut c: u32 = 0;
        while c < w
            invariant
                w >= 1,
                h >= 1,
                r < h,
                c <= w,
                j == h - 1 - r,
                s == scene@,
                wi == w as int,
                hi == h as int,
                aspect_ratio as int == aspect_s(wi, hi),
                data@ == old(data)@ + image_bytes(r as int, wi, hi, s) + row_bytes(
                    r as int,
                    c as int,
                    wi,
                    hi,
                    s,
                ),
            decreases w - c,
        {
            let sc = px_to_screen(c, j, w, h, aspect_ratio);
            let px = draw(sc, scene);
            let ghost pre = data@;
            data.push(to_byte(px.get_ch(&Channel::Red)));
            data.push(to_byte(px.get_ch(&Channel::Green)));
            data.push(to_byte(px.get_ch(&Channel::Blue)));
            data.push(to_byte(px.get_ch(&Channel::Alpha)));
            proof {
                lemma_byte_of_range(px@.r);
                lemma_byte_of_range(px@.g);
                lemma_byte_of_range(px@.b);
                lemma_byte_of_range(px@.a);
                assert(px@ == render_px_s(c as int, r as int, wi, hi, s));
                assert(data@ =~= pre + px_bytes(px@));
                assert(row_bytes(r as int, c as int + 1, wi, hi, s) == row_bytes(
                    r as int,
                    c as int,
                    wi,
                    hi,
                    s,
                ) + px_bytes(render_px_s(c as int, r as int, wi, hi, s)));
                assert(data@ =~= old(data)@ + image_bytes(r as int, wi, hi, s) + row_bytes(
                    r as int,
                    c as int + 1,
                    wi,
                    hi,
                    s,
                ));
            }
            c = c + 1;
        }
        proof {
            assert(image_bytes(r as int + 1, wi, hi, s) == image_bytes(r as int, wi, hi, s)
                + row_bytes(r as int, wi, wi, hi, s));
            assert(data@ =~= old(data)@ + image_bytes(r as int + 1, wi, hi, s));
        }
        r = r + 1;
    }
    proof {
        lemma_image_bytes_len(hi, wi, hi, s);
        assert(4 * hi * wi == 4 * wi * hi) by (nonlinear_arith);
    }
}

} // verus!
