//! Pixel operations on an ARGB framebuffer, laid out row-major as one
//! `u32` word per pixel.  The surrounding application moves the words into
//! its shared-memory buffer; everything that decides which pixel gets which
//! colour is here.

use vstd::prelude::*;
use vstd::pervasive::VecAdditionalExecFns;

verus! {

/// The pixel `(px, py)` lies in the (unclipped) rectangle.
pub open spec fn in_band(px: int, py: int, x: int, y: int, rw: int, rh: int) -> bool {
    x <= px < x + rw && y <= py < y + rh
}

/// The four bands a rectangle outline of thickness `t` paints.
pub open spec fn in_outline(
    px: int,
    py: int,
    x: int,
    y: int,
    rw: int,
    rh: int,
    t: int,
) -> bool {
    ||| in_band(px, py, x, y, rw, t)
    ||| in_band(px, py, x, y + rh - t, rw, t)
    ||| in_band(px, py, x, y, t, rh)
    ||| in_band(px, py, x + rw - t, y, t, rh)
}

proof fn lemma_row_major(w: int, h: int, px: int, py: int)
    requires
        0 <= px < w,
        0 <= py < h,
    ensures
        0 <= py * w + px < w * h,
{
    assert(0 <= py * w + px < w * h) by (nonlinear_arith)
        requires
            0 <= px < w,
            0 <= py < h,
    ;
}

proof fn lemma_row_major_inj(w: int, px1: int, py1: int, px2: int, py2: int)
    requires
        0 <= px1 < w,
        0 <= px2 < w,
        (px1, py1) != (px2, py2),
    ensures
        py1 * w + px1 != py2 * w + px2,
{
    assert(py1 * w + px1 != py2 * w + px2) by (nonlinear_arith)
        requires
            0 <= px1 < w,
            0 <= px2 < w,
            (px1, py1) != (px2, py2),
    ;
}

/// Fill the whole buffer with one colour.
pub fn fill_u32(buf: &mut Vec<u32>, colour: u32)
    ensures
        final(buf)@.len() == old(buf)@.len(),
        forall|i: int| 0 <= i < final(buf)@.len() ==> final(buf)@[i] == colour,
{
    let n = buf.len();
    let mut i: usize = 0;
    while i < n
        invariant
            0 <= i <= n,
            buf@.len() == n,
            forall|j: int| 0 <= j < i ==> buf@[j] == colour,
        decreases n - i,
    {
        buf.set(i, colour);
        i += 1;
    }
}

/// Fill a rectangle, clipped to the buffer, with one colour: exactly the
/// pixels inside both the rectangle and the buffer change, to `colour`.
pub fn fill_rect_u32(
    buf: &mut Vec<u32>,
    w: i32,
    h: i32,
    x: i32,
    y: i32,
    rw: i32,
    rh: i32,
    colour: u32,
)
    requires
        0 <= w,
        0 <= h,
        old(buf)@.len() == w * h,
    ensures
        final(buf)@.len() == old(buf)@.len(),
        forall|px: int, py: int|
            0 <= px < w && 0 <= py < h ==> #[trigger] final(buf)@[py * (w as int) + px] == (
            if in_band(px, py, x as int, y as int, rw as int, rh as int) {
                colour
            } else {
                old(buf)@[py * (w as int) + px]
            }),
{
    let x0: i64 = if (x as i64) < 0 {
        0
    } else {
        x as i64
    };
    let y0: i64 = if (y as i64) < 0 {
        0
    } else {
        y as i64
    };
    let x1: i64 = if x as i64 + rw as i64 > w as i64 {
        w as i64
    } else {
        x as i64 + rw as i64
    };
    let y1: i64 = if y as i64 + rh as i64 > h as i64 {
        h as i64
    } else {
        y as i64 + rh as i64
    };
    if x1 <= x0 || y1 <= y0 {
        return ;
    }
    let xs: usize = x0 as usize;
    let xe: usize = x1 as usize;
    let mut yy: usize = y0 as usize;
    let ye: usize = y1 as usize;
    let total: usize = buf.len();
    let ghost buf0 = old(buf)@;
    while yy < ye
        invariant
            total == buf0.len(),
            x0 <= x1 <= w,
            y0 <= y1 <= h,
            0 <= x0,
            0 <= y0,
            xs == x0 as int && xe == x1 as int && ye == y1 as int,
            y0 as int <= yy as int && yy as int <= ye as int,
            buf@.len() == buf0.len(),
            buf0.len() == w * h,
            (forall|px: int, py: int|
                0 <= px < w && 0 <= py < h ==> #[trigger] buf@[py * (w as int) + px] == (
                if x0 <= px < x1 && y0 <= py < yy {
                    colour
                } else {
                    buf0[py * (w as int) + px]
                })),
        decreases ye - yy,
    {
        let mut xx: usize = xs;
        while xx < xe
            invariant
                total == buf0.len(),
                x0 <= x1 <= w,
                y0 <= y1 <= h,
                0 <= x0,
                0 <= y0,
                xs == x0 as int && xe == x1 as int && ye == y1 as int,
                y0 as int <= yy as int && (yy as int) < ye as int,
                x0 as int <= xx as int && xx as int <= xe as int,
                buf@.len() == buf0.len(),
                buf0.len() == w * h,
                (forall|px: int, py: int|
                    0 <= px < w && 0 <= py < h ==> #[trigger] buf@[py * (w as int) + px] == (
                    if (x0 <= px < x1 && y0 <= py < yy) || (yy == py && x0 <= px < xx) {
                        colour
                    } else {
                        buf0[py * (w as int) + px]
                    })),
            decreases xe - xx,
        {
            proof {
                lemma_row_major(w as int, h as int, xx as int, yy as int);
            }
            let idx: usize = yy * (w as usize) + xx;
            let ghost bprev = buf@;
            buf.set(idx, colour);
            proof {
                assert forall|px: int, py: int|
                    0 <= px < w && 0 <= py < h && (px, py) != (xx as int, yy as int) implies #[trigger] buf@[py
                    * (w as int) + px] == bprev[py * (w as int) + px] by {
                    lemma_row_major_inj(w as int, px, py, xx as int, yy as int);
                    lemma_row_major(w as int, h as int, px, py);
                }
            }
            xx += 1;
        }
        yy += 1;
    }
    proof {
        assert forall|px: int, py: int|
            0 <= px < w && 0 <= py < h implies #[trigger] buf@[py * (w as int) + px] == (
        if in_band(px, py, x as int, y as int, rw as int, rh as int) {
            colour
        } else {
            buf0[py * (w as int) + px]
        }) by {
            assert((x0 <= px < x1 && y0 <= py < y1) == in_band(
                px,
                py,
                x as int,
                y as int,
                rw as int,
                rh as int,
            ));
        }
    }
}

/// Draw a rectangle outline of thickness `t`: the four bands take the
/// colour and every other pixel keeps its value.
pub fn draw_rect_outline(
    buf: &mut Vec<u32>,
    w: i32,
    h: i32,
    x: i32,
    y: i32,
    rw: i32,
    rh: i32,
    t: i32,
    colour: u32,
)
    requires
        0 <= w,
        0 <= h,
        old(buf)@.len() == w * h,
        crate::geometry::coord_ok(x as int),
        crate::geometry::coord_ok(y as int),
        crate::geometry::coord_ok(rw as int),
        crate::geometry::coord_ok(rh as int),
        crate::geometry::coord_ok(t as int),
    ensures
        final(buf)@.len() == old(buf)@.len(),
        forall|px: int, py: int|
            0 <= px < w && 0 <= py < h ==> #[trigger] final(buf)@[py * (w as int) + px] == (
            if in_outline(px, py, x as int, y as int, rw as int, rh as int, t as int) {
                colour
            } else {
                old(buf)@[py * (w as int) + px]
            }),
{
    let ghost buf0 = old(buf)@;
    fill_rect_u32(buf, w, h, x, y, rw, t, colour);
    fill_rect_u32(buf, w, h, x, y + rh - t, rw, t, colour);
    fill_rect_u32(buf, w, h, x, y, t, rh, colour);
    fill_rect_u32(buf, w, h, x + rw - t, y, t, rh, colour);
}

/// Draw a border like [`draw_rect_outline`], but only for a rectangle with
/// positive extent and thickness; anything else leaves the buffer alone.
pub fn draw_border_u32(
    buf: &mut Vec<u32>,
    w: i32,
    h: i32,
    x: i32,
    y: i32,
    rw: i32,
    rh: i32,
    t: i32,
    colour: u32,
)
    requires
        0 <= w,
        0 <= h,
        old(buf)@.len() == w * h,
        crate::geometry::coord_ok(x as int),
        crate::geometry::coord_ok(y as int),
        crate::geometry::coord_ok(rw as int),
        crate::geometry::coord_ok(rh as int),
        crate::geometry::coord_ok(t as int),
    ensures
        final(buf)@.len() == old(buf)@.len(),
        (rw <= 0 || rh <= 0 || t <= 0) ==> final(buf)@ == old(buf)@,
        (rw > 0 && rh > 0 && t > 0) ==> forall|px: int, py: int|
            0 <= px < w && 0 <= py < h ==> #[trigger] final(buf)@[py * (w as int) + px] == (
            if in_outline(px, py, x as int, y as int, rw as int, rh as int, t as int) {
                colour
            } else {
                old(buf)@[py * (w as int) + px]
            }),
{
    if rw <= 0 || rh <= 0 || t <= 0 {
        return ;
    }
    draw_rect_outline(buf, w, h, x, y, rw, rh, t, colour);
}

/// The eight one- and two-pixel nicks that soften a rectangle's corners.
pub open spec fn in_corner_nicks(px: int, py: int, x: int, y: int, rw: int, rh: int) -> bool {
    ||| in_band(px, py, x, y, 2, 1)
    ||| in_band(px, py, x, y + 1, 1, 1)
    ||| in_band(px, py, x + rw - 2, y, 2, 1)
    ||| in_band(px, py, x + rw - 1, y + 1, 1, 1)
    ||| in_band(px, py, x, y + rh - 1, 2, 1)
    ||| in_band(px, py, x, y + rh - 2, 1, 1)
    ||| in_band(px, py, x + rw - 2, y + rh - 1, 2, 1)
    ||| in_band(px, py, x + rw - 1, y + rh - 2, 1, 1)
}

/// Soften the selection border's corners by painting the background colour
/// over a pixel or two at each corner.
pub fn soften_corners(buf: &mut Vec<u32>, w: i32, h: i32, r: crate::geometry::RectLocal, bg: u32)
    requires
        0 <= w,
        0 <= h,
        old(buf)@.len() == w * h,
        crate::geometry::rect_ok(r),
    ensures
        final(buf)@.len() == old(buf)@.len(),
        forall|px: int, py: int|
            0 <= px < w && 0 <= py < h ==> #[trigger] final(buf)@[py * (w as int) + px] == (
            if in_corner_nicks(px, py, r.x as int, r.y as int, r.w as int, r.h as int) {
                bg
            } else {
                old(buf)@[py * (w as int) + px]
            }),
{
    fill_rect_u32(buf, w, h, r.x, r.y, 2, 1, bg);
    fill_rect_u32(buf, w, h, r.x, r.y + 1, 1, 1, bg);
    fill_rect_u32(buf, w, h, r.x + r.w - 2, r.y, 2, 1, bg);
    fill_rect_u32(buf, w, h, r.x + r.w - 1, r.y + 1, 1, 1, bg);
    fill_rect_u32(buf, w, h, r.x, r.y + r.h - 1, 2, 1, bg);
    fill_rect_u32(buf, w, h, r.x, r.y + r.h - 2, 1, 1, bg);
    fill_rect_u32(buf, w, h, r.x + r.w - 2, r.y + r.h - 1, 2, 1, bg);
    fill_rect_u32(buf, w, h, r.x + r.w - 1, r.y + r.h - 2, 1, 1, bg);
}

/// Straight-alpha source-over blending of `src` onto `dst`, with an extra
/// coverage factor `src_a`; the exact integer arithmetic is the contract.
pub open spec fn spec_blend_over(dst: u32, src: u32, src_a: u8) -> u32 {
    if src_a == 0 {
        dst
    } else if src_a == 255 {
        src
    } else {
        let da = (dst >> 24) as u8;
        let dr = (dst >> 16) as u8;
        let dg = (dst >> 8) as u8;
        let db = dst as u8;
        let sa0 = (src >> 24) as u8;
        let sr = (src >> 16) as u8;
        let sg = (src >> 8) as u8;
        let sb = src as u8;
        let sa = ((sa0 as u16 * src_a as u16) / 255) as u8;
        let inv = (255 - sa as u16) as u16;
        let oa = (sa as u16 + (da as u16 * inv) / 255) as u8;
        let or0 = ((sr as u16 * sa as u16 + dr as u16 * inv) / 255) as u8;
        let og = ((sg as u16 * sa as u16 + dg as u16 * inv) / 255) as u8;
        let ob = ((sb as u16 * sa as u16 + db as u16 * inv) / 255) as u8;
        ((oa as u32) << 24) | ((or0 as u32) << 16) | ((og as u32) << 8) | (ob as u32)
    }
}

/// Blend one source pixel over one destination pixel.
pub fn blend_over(dst: u32, src: u32, src_a: u8) -> (r: u32)
    ensures
        r == spec_blend_over(dst, src, src_a),
{
    if src_a == 0 {
        return dst;
    }
    if src_a == 255 {
        return src;
    }
    let da = (dst >> 24) as u8;
    let dr = (dst >> 16) as u8;
    let dg = (dst >> 8) as u8;
    let db = dst as u8;
    let sa0 = (src >> 24) as u8;
    let sr = (src >> 16) as u8;
    let sg = (src >> 8) as u8;
    let sb = src as u8;
    proof {
        assert(sa0 as u16 * src_a as u16 <= 65025) by (nonlinear_arith)
            requires
                sa0 as u16 <= 255 && src_a as u16 <= 255,
        ;
    }
    let sa = ((sa0 as u16 * src_a as u16) / 255) as u8;
    let inv: u16 = 255 - sa as u16;
    proof {
        assert(da as u16 * inv <= 65025) by (nonlinear_arith)
            requires
                da as u16 <= 255 && inv <= 255,
        ;
        assert(sr as u16 * sa as u16 + dr as u16 * inv <= 65025) by (nonlinear_arith)
            requires
                sr as u16 <= 255 && dr as u16 <= 255 && sa as u16 + inv == 255,
        ;
        assert(sg as u16 * sa as u16 + dg as u16 * inv <= 65025) by (nonlinear_arith)
            requires
                sg as u16 <= 255 && dg as u16 <= 255 && sa as u16 + inv == 255,
        ;
        assert(sb as u16 * sa as u16 + db as u16 * inv <= 65025) by (nonlinear_arith)
            requires
                sb as u16 <= 255 && db as u16 <= 255 && sa as u16 + inv == 255,
        ;
    }
    let oa = (sa as u16 + (da as u16 * inv) / 255) as u8;
    let or0 = ((sr as u16 * sa as u16 + dr as u16 * inv) / 255) as u8;
    let og = ((sg as u16 * sa as u16 + dg as u16 * inv) / 255) as u8;
    let ob = ((sb as u16 * sa as u16 + db as u16 * inv) / 255) as u8;
    ((oa as u32) << 24) | ((or0 as u32) << 16) | ((og as u32) << 8) | (ob as u32)
}

} // verus!
