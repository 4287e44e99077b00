//! A self-contained test-pattern render pass.
//!
//! Each pixel is white inside the unit disk of the screen plane and
//! black outside it. This exercises the pixel-to-screen coordinate
//! transform on its own, with no scene and no marching: a quick check
//! that the image comes out the right size and the right way up.

use vstd::prelude::*;

verus! {

use crate::fixed::{fx_div, fx_mul, fx_mul_s, sat_add, sat_sub, sat64, SCALE};
use crate::screen::{aspect_s, screen_x_s, screen_y_s};

/// A test-pattern pixel, as four bytes.
struct Px {
    r: u8,
    g: u8,
    b: u8,
    a: u8,
}

/// Whether the screen coordinate `(x, y)` lies inside the unit disk.
pub open spec fn disk_hit(x: int, y: int) -> bool {
    sat64(fx_mul_s(x, x) + fx_mul_s(y, y)) < SCALE
}

/// The red, green and blue byte of the pattern at `(x, y)`: white
/// inside the disk, black outside.
pub open spec fn disk_rgb(x: int, y: int) -> u8 {
    if disk_hit(x, y) {
        255u8
    } else {
        0u8
    }
}

/// The four bytes of the pattern pixel at `(x, y)`: opaque white or
/// opaque black.
pub open spec fn disk_px_bytes(x: int, y: int) -> Seq<u8> {
    seq![disk_rgb(x, y), disk_rgb(x, y), disk_rgb(x, y), 255u8]
}

/// One pixel of the test pattern.
fn raymarch(screen_c: (i64, i64)) -> (px: Px)
    ensures
        px.r == disk_rgb(screen_c.0 as int, screen_c.1 as int),
        px.g == disk_rgb(screen_c.0 as int, screen_c.1 as int),
        px.b == disk_rgb(screen_c.0 as int, screen_c.1 as int),
        px.a == 255,
{
    let x = screen_c.0;
    let y = screen_c.1;
    let d = sat_add(fx_mul(x, x), fx_mul(y, y));
    if d < SCALE {
        return Px { r: 255, g: 255, b: 255, a: 255 };
    }
    Px { r: 0, g: 0, b: 0, a: 255 }
}

/// Map a pixel index to screen coordinates.
fn px_to_screen(x: u32, y: u32, w: u32, h: u32, asp_rat: i64) -> (sc: (i64, i64))
    requires
        w >= 1,
        h >= 1,
    ensures
        sc.0 as int == screen_x_s(x as int, w as int, asp_rat as int),
        sc.1 as int == screen_y_s(y as int, h as int),
{
    let xf = (x as i64) * SCALE;
    let yf = (y as i64) * SCALE;
    let wf = ((w - 1) as i64) * SCALE;
    let hf = ((h - 1) as i64) * SCALE;
    let qx = fx_div(xf, wf);
    let sx = fx_mul(asp_rat, sat_sub(sat_add(qx, qx), SCALE));
    let qy = fx_div(yf, hf);
    let sy = sat_sub(sat_add(qy, qy), SCALE);
    (sx, sy)
}

/// The pattern pixel at column `c` of output row `r`: rows are emitted
/// top first, so output row `r` shows pixel row `h - 1 - r`.
pub open spec fn pattern_px_bytes(c: int, r: int, w: int, h: int) -> Seq<u8> {
    disk_px_bytes(screen_x_s(c, w, aspect_s(w, h)), screen_y_s(h - 1 - r, h))
}

/// The bytes of the first `c` pattern pixels of output row `r`.
pub open spec fn pattern_row_bytes(r: int, c: int, w: int, h: int) -> Seq<u8>
    decreases c,
{
    if c <= 0 {
        Seq::empty()
    } else {
        pattern_row_bytes(r, c - 1, w, h) + pattern_px_bytes(c - 1, r, w, h)
    }
}

/// The bytes of the first `r` pattern rows, each `w` pixels wide.
pub open spec fn pattern_bytes(r: int, w: int, h: int) -> Seq<u8>
    decreases r,
{
    if r <= 0 {
        Seq::empty()
    } else {
        pattern_bytes(r - 1, w, h) + pattern_row_bytes(r - 1, w, w, h)
    }
}

/// A pattern row prefix holds four bytes per pixel.
pub proof fn lemma_pattern_row_bytes_len(r: int, c: int, w: int, h: int)
    requires
        0 <= c,
    ensures
        pattern_row_bytes(r, c, w, h).len() == 4 * c,
    decreases c,
{
    if c > 0 {
        lemma_pattern_row_bytes_len(r, c - 1, w, h);
    }
}

/// A pattern prefix holds four bytes per pixel of each full row.
pub proof fn lemma_pattern_bytes_len(r: int, w: int, h: int)
    requires
        0 <= r,
        0 <= w,
    ensures
        pattern_bytes(r, w, h).len() == 4 * r * w,
    decreases r,
{
    if r > 0 {
        lemma_pattern_bytes_len(r - 1, w, h);
        lemma_pattern_row_bytes_len(r - 1, w, w, h);
        assert(4 * (r - 1) * w + 4 * w == 4 * r * w) by (nonlinear_arith);
    } else {
        assert(4 * r * w == 0) by (nonlinear_arith)
            requires
                r == 0,
        ;
    }
}

/// Render the `w` by `h` test pattern, appending one 4-byte RGBA pixel
/// per point in row-major order, top row first.
pub fn render(w: u32, h: u32, data: &mut Vec<u8>)
    requires
        w >= 1,
        h >= 1,
    ensures
        final(data)@ == old(data)@ + pattern_bytes(h as int, w as int, h as int),
        final(data)@.len() == old(data)@.len() + 4 * (w as int) * (h as int),
{
    let aspect_ratio: i64 = fx_div((w as i64) * SCALE, (h as i64) * SCALE);
    let ghost wi = w as int;
    let ghost hi = h as int;
    let mut r: u32 = 0;
    while r < h
        invariant
            w >= 1,
            h >= 1,
            r <= h,
            wi == w as int,
            hi == h as int,
            aspect_ratio as int == aspect_s(wi, hi),
            data@ == old(data)@ + pattern_bytes(r as int, wi, hi),
        decreases h - r,
    {
        let j = h - 1 - r;
        let mut c: u32 = 0;
        while c < w
            invariant
                w >= 1,
                h >= 1,
                r < h,
                c <= w,
                j == h - 1 - r,
                wi == w as int,
                hi == h as int,
                aspect_ratio as int == aspect_s(wi, hi),
                data@ == old(data)@ + pattern_bytes(r as int, wi, hi) + pattern_row_bytes(
                    r as int,
                    c as int,
                    wi,
                    hi,
                ),
            decreases w - c,
        {
            let sc = px_to_screen(c, j, w, h, aspect_ratio);
            let px = raymarch(sc);
            let ghost pre = data@;
            data.push(px.r);
            data.push(px.g);
            data.push(px.b);
            data.push(px.a);
            proof {
                assert(data@ =~= pre + pattern_px_bytes(c as int, r as int, wi, hi));
                assert(pattern_row_bytes(r as int, c as int + 1, wi, hi) == pattern_row_bytes(
                    r as int,
                    c as int,
                    wi,
                    hi,
                ) + pattern_px_bytes(c as int, r as int, wi, hi));
                assert(data@ =~= old(data)@ + pattern_bytes(r as int, wi, hi)
                    + pattern_row_bytes(r as int, c as int + 1, wi, hi));
            }
            c = c + 1;
        }
        proof {
            assert(pattern_bytes(r as int + 1, wi, hi) == pattern_bytes(r as int, wi, hi)
                + pattern_row_bytes(r as int, wi, wi, hi));
            assert(data@ =~= old(data)@ + pattern_bytes(r as int + 1, wi, hi));
        }
        r = r + 1;
    }
    proof {
        lemma_pattern_bytes_len(hi, wi, hi);
        assert(4 * hi * wi == 4 * wi * hi) by (nonlinear_arith);
    }
}

} // verus!
