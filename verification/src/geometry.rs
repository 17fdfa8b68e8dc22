//! Rectangle geometry for the interactive selection overlay: hit-testing a
//! pointer against a selection rectangle, and turning a drag into a new
//! rectangle that keeps the minimum size and stays inside the desktop bounds.

use vstd::prelude::*;

verus! {

/// Border thickness used when the overlay draws the selection outline.
pub const BORDER_THICKNESS: i32 = 2;

/// Visual diameter of a corner handle.
pub const HANDLE_SIZE: i32 = 12;

/// Padding around corners and edges inside which a press grabs them.
pub const HANDLE_HIT: i32 = 14;

/// Minimum selection width.
pub const MIN_W: i32 = 8;

/// Minimum selection height.
pub const MIN_H: i32 = 8;

/// Coordinates handed to the geometry engine stay within this magnitude so
/// that every intermediate sum and difference fits the machine integers.
pub const COORD_LIMIT: i32 = 0x1fff_ffff;

/// A coordinate or extent the geometry engine accepts.
pub open spec fn coord_ok(v: int) -> bool {
    -(COORD_LIMIT as int) <= v <= COORD_LIMIT as int
}

/// A selection rectangle in desktop coordinates.
#[derive(Clone, Copy, Debug, Default, PartialEq, Eq, Structural)]
pub struct RectLocal {
    pub x: i32,
    pub y: i32,
    pub w: i32,
    pub h: i32,
}

/// All four fields of `r` are within the accepted coordinate range.
pub open spec fn rect_ok(r: RectLocal) -> bool {
    coord_ok(r.x as int) && coord_ok(r.y as int) && coord_ok(r.w as int) && coord_ok(r.h as int)
}

/// Which edges of the rectangle a resize drag moves.
#[derive(Clone, Copy, Debug, PartialEq, Eq, Structural)]
pub struct ResizeDir {
    pub left: bool,
    pub right: bool,
    pub top: bool,
    pub bottom: bool,
}

/// How pointer movement maps to rectangle mutation.
#[derive(Clone, Copy, Debug, PartialEq, Eq, Structural)]
pub enum DragMode {
    Idle,
    Move,
    Resize(ResizeDir),
}

pub open spec fn imax(a: int, b: int) -> int {
    if a >= b {
        a
    } else {
        b
    }
}

/// One axis of the bounds clamp: push the position up to `lo`, then shift it
/// left so `p + len` does not pass `hi`, but never below `lo`.
pub open spec fn clamp_axis(p: int, len: int, lo: int, hi: int) -> int {
    let p1 = if p < lo {
        lo
    } else {
        p
    };
    if p1 + len > hi {
        imax(hi - len, lo)
    } else {
        p1
    }
}

/// The whole clamp: width and height are raised to the minimums first, then
/// each axis position is clamped with the already-raised extent.
pub open spec fn clamp_spec(
    x: int,
    y: int,
    w: int,
    h: int,
    min_x: int,
    min_y: int,
    max_x: int,
    max_y: int,
) -> (int, int, int, int) {
    let w1 = imax(w, MIN_W as int);
    let h1 = imax(h, MIN_H as int);
    (clamp_axis(x, w1, min_x, max_x), clamp_axis(y, h1, min_y, max_y), w1, h1)
}

/// Clamping twice changes nothing after the first time.
pub proof fn lemma_clamp_to_idempotent(
    x: int,
    y: int,
    w: int,
    h: int,
    min_x: int,
    min_y: int,
    max_x: int,
    max_y: int,
)
    ensures
        ({
            let (x1, y1, w1, h1) = clamp_spec(x, y, w, h, min_x, min_y, max_x, max_y);
            clamp_spec(x1, y1, w1, h1, min_x, min_y, max_x, max_y) == (x1, y1, w1, h1)
        }),
{
}

fn clamp_axis_exec(p: i64, len: i64, lo: i32, hi: i32) -> (r: i32)
    requires
        0 <= len <= 0x1_0000_0000_0000,
        -0x1_0000_0000_0000 <= p <= 0x1_0000_0000_0000,
    ensures
        r as int == clamp_axis(p as int, len as int, lo as int, hi as int),
{
    let p1: i64 = if p < lo as i64 {
        lo as i64
    } else {
        p
    };
    if p1 + len > hi as i64 {
        let cand: i64 = hi as i64 - len;
        if cand < lo as i64 {
            lo
        } else {
            cand as i32
        }
    } else {
        p1 as i32
    }
}

impl RectLocal {
    /// Raise `w`/`h` to the minimums and keep the rectangle inside the given
    /// bounds, shifting rather than shrinking when it overhangs.
    pub fn clamp_to(&mut self, min_x: i32, min_y: i32, max_x: i32, max_y: i32)
        ensures
            (final(self).x as int, final(self).y as int, final(self).w as int, final(self).h as int)
                == clamp_spec(
                old(self).x as int,
                old(self).y as int,
                old(self).w as int,
                old(self).h as int,
                min_x as int,
                min_y as int,
                max_x as int,
                max_y as int,
            ),
    {
        let w1: i32 = if self.w < MIN_W {
            MIN_W
        } else {
            self.w
        };
        let h1: i32 = if self.h < MIN_H {
            MIN_H
        } else {
            self.h
        };
        self.w = w1;
        self.h = h1;
        self.x = clamp_axis_exec(self.x as i64, w1 as i64, min_x, max_x);
        self.y = clamp_axis_exec(self.y as i64, h1 as i64, min_y, max_y);
    }

    /// The point `(px, py)` lies strictly inside the rectangle (right and
    /// bottom edges excluded).
    pub open spec fn spec_contains(self, px: int, py: int) -> bool {
        px >= self.x as int && py >= self.y as int && px < self.x as int + self.w as int && py
            < self.y as int + self.h as int
    }

    pub fn contains(&self, px: i32, py: i32) -> (r: bool)
        ensures
            r == self.spec_contains(px as int, py as int),
    {
        px >= self.x && py >= self.y && (px as i64) < self.x as i64 + self.w as i64 && (py as i64)
            < self.y as i64 + self.h as i64
    }
}

impl ResizeDir {
    /// At least one edge flag is set.
    pub fn any(&self) -> (r: bool)
        ensures
            r == (self.left || self.right || self.top || self.bottom),
    {
        self.left || self.right || self.top || self.bottom
    }
}

/// Squared Euclidean distance between two points.
pub open spec fn dist2_spec(ax: int, ay: int, bx: int, by: int) -> int {
    (ax - bx) * (ax - bx) + (ay - by) * (ay - by)
}

fn dist2(ax: i64, ay: i64, bx: i64, by: i64) -> (r: i64)
    requires
        -0x2000_0000 <= ax <= 0x2000_0000,
        -0x2000_0000 <= ay <= 0x2000_0000,
        -0x4000_0000 <= bx <= 0x4000_0000,
        -0x4000_0000 <= by <= 0x4000_0000,
    ensures
        r as int == dist2_spec(ax as int, ay as int, bx as int, by as int),
{
    let dx: i64 = ax - bx;
    let dy: i64 = ay - by;
    proof {
        assert(dx * dx <= 0x2400_0000_0000_0000 && dx * dx >= 0) by (nonlinear_arith)
            requires
                -0x6000_0000 <= dx <= 0x6000_0000,
        ;
        assert(dy * dy <= 0x2400_0000_0000_0000 && dy * dy >= 0) by (nonlinear_arith)
            requires
                -0x6000_0000 <= dy <= 0x6000_0000,
        ;
    }
    dx * dx + dy * dy
}

pub open spec fn corner_dir(idx: int) -> ResizeDir {
    if idx == 0 {
        ResizeDir { left: true, right: false, top: true, bottom: false }
    } else if idx == 1 {
        ResizeDir { left: false, right: true, top: true, bottom: false }
    } else if idx == 2 {
        ResizeDir { left: true, right: false, top: false, bottom: true }
    } else {
        ResizeDir { left: false, right: true, top: false, bottom: true }
    }
}

/// Index of the corner nearest to `(px, py)`, earliest corner winning ties,
/// in the order top-left, top-right, bottom-left, bottom-right.
pub open spec fn nearest_corner_idx(r: RectLocal, px: int, py: int) -> int {
    let tl = dist2_spec(px, py, r.x as int, r.y as int);
    let tr = dist2_spec(px, py, r.x as int + r.w as int, r.y as int);
    let bl = dist2_spec(px, py, r.x as int, r.y as int + r.h as int);
    let br = dist2_spec(px, py, r.x as int + r.w as int, r.y as int + r.h as int);
    let d0 = tl;
    let i0 = 0int;
    let d1 = if tr < d0 {
        tr
    } else {
        d0
    };
    let i1 = if tr < d0 {
        1int
    } else {
        i0
    };
    let d2 = if bl < d1 {
        bl
    } else {
        d1
    };
    let i2 = if bl < d1 {
        2int
    } else {
        i1
    };
    if br < d2 {
        3int
    } else {
        i2
    }
}

/// Squared distance from `(px, py)` to the corner picked by
/// `nearest_corner_idx`.
pub open spec fn nearest_corner_dist2(r: RectLocal, px: int, py: int) -> int {
    let tl = dist2_spec(px, py, r.x as int, r.y as int);
    let tr = dist2_spec(px, py, r.x as int + r.w as int, r.y as int);
    let bl = dist2_spec(px, py, r.x as int, r.y as int + r.h as int);
    let br = dist2_spec(px, py, r.x as int + r.w as int, r.y as int + r.h as int);
    let d1 = if tr < tl {
        tr
    } else {
        tl
    };
    let d2 = if bl < d1 {
        bl
    } else {
        d1
    };
    if br < d2 {
        br
    } else {
        d2
    }
}

/// Radius of the circular corner grab zone.
pub open spec fn corner_radius() -> int {
    imax(HANDLE_HIT as int, HANDLE_SIZE as int / 2)
}

/// The corner the press grabs, if the pointer is within the circular grab
/// zone of the nearest corner.
pub open spec fn corner_hit_spec(r: RectLocal, px: int, py: int) -> Option<ResizeDir> {
    if nearest_corner_dist2(r, px, py) <= corner_radius() * corner_radius() {
        Some(corner_dir(nearest_corner_idx(r, px, py)))
    } else {
        None
    }
}

/// The edge bands: within `HANDLE_HIT` of an edge line, bounded by the
/// rectangle's perpendicular extent widened by `HANDLE_HIT`.
pub open spec fn edge_dir_spec(r: RectLocal, px: int, py: int) -> ResizeDir {
    let hh = HANDLE_HIT as int;
    let x0 = r.x as int;
    let y0 = r.y as int;
    let x1 = r.x as int + r.w as int;
    let y1 = r.y as int + r.h as int;
    ResizeDir {
        left: -hh <= px - x0 <= hh && y0 - hh <= py <= y1 + hh,
        right: -hh <= px - x1 <= hh && y0 - hh <= py <= y1 + hh,
        top: -hh <= py - y0 <= hh && x0 - hh <= px <= x1 + hh,
        bottom: -hh <= py - y1 <= hh && x0 - hh <= px <= x1 + hh,
    }
}

pub open spec fn resize_any(d: ResizeDir) -> bool {
    d.left || d.right || d.top || d.bottom
}

/// The full hit-test: corners first, then edge bands, then the interior,
/// and otherwise a resize toward the nearest corner -- never `None`.
pub open spec fn hit_test_spec(r: RectLocal, px: int, py: int) -> DragMode {
    match corner_hit_spec(r, px, py) {
        Some(dir) => DragMode::Resize(dir),
        None => {
            let edges = edge_dir_spec(r, px, py);
            if resize_any(edges) {
                DragMode::Resize(edges)
            } else if r.spec_contains(px, py) {
                DragMode::Move
            } else {
                DragMode::Resize(corner_dir(nearest_corner_idx(r, px, py)))
            }
        },
    }
}

fn corner_hit(r: RectLocal, px: i32, py: i32) -> (res: Option<ResizeDir>)
    requires
        rect_ok(r),
        coord_ok(px as int),
        coord_ok(py as int),
    ensures
        res == corner_hit_spec(r, px as int, py as int),
{
    let rad: i32 = if HANDLE_HIT >= HANDLE_SIZE / 2 {
        HANDLE_HIT
    } else {
        HANDLE_SIZE / 2
    };
    let rad2: i64 = 196;
    assert(corner_radius() == 14);

    let tl = dist2(px as i64, py as i64, r.x as i64, r.y as i64);
    let tr = dist2(px as i64, py as i64, r.x as i64 + r.w as i64, r.y as i64);
    let bl = dist2(px as i64, py as i64, r.x as i64, r.y as i64 + r.h as i64);
    let br = dist2(px as i64, py as i64, r.x as i64 + r.w as i64, r.y as i64 + r.h as i64);

    let mut best_d: i64 = tl;
    let mut best_i: u32 = 0;
    if tr < best_d {
        best_d = tr;
        best_i = 1;
    }
    if bl < best_d {
        best_d = bl;
        best_i = 2;
    }
    if br < best_d {
        best_d = br;
        best_i = 3;
    }

    if best_d <= rad2 {
        let dir = if best_i == 0 {
            ResizeDir { left: true, right: false, top: true, bottom: false }
        } else if best_i == 1 {
            ResizeDir { left: false, right: true, top: true, bottom: false }
        } else if best_i == 2 {
            ResizeDir { left: true, right: false, top: false, bottom: true }
        } else {
            ResizeDir { left: false, right: true, top: false, bottom: true }
        };
        Some(dir)
    } else {
        None
    }
}

fn nearest_corner_dir(r: RectLocal, px: i32, py: i32) -> (res: ResizeDir)
    requires
        rect_ok(r),
        coord_ok(px as int),
        coord_ok(py as int),
    ensures
        res == corner_dir(nearest_corner_idx(r, px as int, py as int)),
{
    let tl = dist2(px as i64, py as i64, r.x as i64, r.y as i64);
    let tr = dist2(px as i64, py as i64, r.x as i64 + r.w as i64, r.y as i64);
    let bl = dist2(px as i64, py as i64, r.x as i64, r.y as i64 + r.h as i64);
    let br = dist2(px as i64, py as i64, r.x as i64 + r.w as i64, r.y as i64 + r.h as i64);

    let mut best_d: i64 = tl;
    let mut best_i: u32 = 0;
    if tr < best_d {
        best_d = tr;
        best_i = 1;
    }
    if bl < best_d {
        best_d = bl;
        best_i = 2;
    }
    if br < best_d {
        best_d = br;
        best_i = 3;
    }

    if best_i == 0 {
        ResizeDir { left: true, right: false, top: true, bottom: false }
    } else if best_i == 1 {
        ResizeDir { left: false, right: true, top: true, bottom: false }
    } else if best_i == 2 {
        ResizeDir { left: true, right: false, top: false, bottom: true }
    } else {
        ResizeDir { left: false, right: true, top: false, bottom: true }
    }
}

/// Classify a press at `(px, py)` against the selection rectangle.
pub fn hit_test(selection: RectLocal, px: i32, py: i32) -> (res: DragMode)
    requires
        rect_ok(selection),
        coord_ok(px as int),
        coord_ok(py as int),
    ensures
        res == hit_test_spec(selection, px as int, py as int),
{
    let r = selection;

    if let Some(dir) = corner_hit(r, px, py) {
        return DragMode::Resize(dir);
    }

    let hh = HANDLE_HIT as i64;
    let x0 = r.x as i64;
    let y0 = r.y as i64;
    let x1 = r.x as i64 + r.w as i64;
    let y1 = r.y as i64 + r.h as i64;
    let pxl = px as i64;
    let pyl = py as i64;

    let left = -hh <= pxl - x0 && pxl - x0 <= hh && y0 - hh <= pyl && pyl <= y1 + hh;
    let right = -hh <= pxl - x1 && pxl - x1 <= hh && y0 - hh <= pyl && pyl <= y1 + hh;
    let top = -hh <= pyl - y0 && pyl - y0 <= hh && x0 - hh <= pxl && pxl <= x1 + hh;
    let bottom = -hh <= pyl - y1 && pyl - y1 <= hh && x0 - hh <= pxl && pxl <= x1 + hh;

    let dir = ResizeDir { left, right, top, bottom };

    if dir.any() {
        return DragMode::Resize(dir);
    }

    if r.contains(px, py) {
        DragMode::Move
    } else {
        DragMode::Resize(nearest_corner_dir(r, px, py))
    }
}

/// The rectangle a drag produces, before and after the bounds clamp, as a
/// function of the grab snapshot and the current cursor.
pub open spec fn apply_drag_spec(
    mode: DragMode,
    cx: int,
    cy: int,
    gx: int,
    gy: int,
    rx: int,
    ry: int,
    rw: int,
    rh: int,
    min_x: int,
    min_y: int,
    max_x: int,
    max_y: int,
) -> (int, int, int, int) {
    match mode {
        DragMode::Idle => (rx, ry, rw, rh),
        DragMode::Move => clamp_spec(
            rx + (cx - gx),
            ry + (cy - gy),
            rw,
            rh,
            min_x,
            min_y,
            max_x,
            max_y,
        ),
        DragMode::Resize(dir) => {
            let l0 = if dir.left {
                cx
            } else {
                rx
            };
            let r0 = if dir.right {
                cx
            } else {
                rx + rw
            };
            let t0 = if dir.top {
                cy
            } else {
                ry
            };
            let b0 = if dir.bottom {
                cy
            } else {
                ry + rh
            };
            let l1 = if l0 > r0 {
                r0
            } else {
                l0
            };
            let r1 = if l0 > r0 {
                l0
            } else {
                r0
            };
            let t1 = if t0 > b0 {
                b0
            } else {
                t0
            };
            let b1 = if t0 > b0 {
                t0
            } else {
                b0
            };
            clamp_spec(
                l1,
                t1,
                imax(r1 - l1, MIN_W as int),
                imax(b1 - t1, MIN_H as int),
                min_x,
                min_y,
                max_x,
                max_y,
            )
        },
    }
}

/// Apply a drag to the rectangle grabbed at `grab_cursor`, clamping the
/// result to the desktop bounds.
pub fn apply_drag(
    drag_mode: DragMode,
    cursor: (i32, i32),
    grab_cursor: (i32, i32),
    grab_rect: RectLocal,
    desktop_min_x: i32,
    desktop_min_y: i32,
    desktop_max_x: i32,
    desktop_max_y: i32,
) -> (res: RectLocal)
    requires
        rect_ok(grab_rect),
        coord_ok(cursor.0 as int),
        coord_ok(cursor.1 as int),
        coord_ok(grab_cursor.0 as int),
        coord_ok(grab_cursor.1 as int),
    ensures
        (res.x as int, res.y as int, res.w as int, res.h as int) == apply_drag_spec(
            drag_mode,
            cursor.0 as int,
            cursor.1 as int,
            grab_cursor.0 as int,
            grab_cursor.1 as int,
            grab_rect.x as int,
            grab_rect.y as int,
            grab_rect.w as int,
            grab_rect.h as int,
            desktop_min_x as int,
            desktop_min_y as int,
            desktop_max_x as int,
            desktop_max_y as int,
        ),
{
    let (cx, cy) = cursor;

    match drag_mode {
        DragMode::Idle => grab_rect,
        DragMode::Move => {
            let dx: i64 = cx as i64 - grab_cursor.0 as i64;
            let dy: i64 = cy as i64 - grab_cursor.1 as i64;
            let w1: i32 = if grab_rect.w < MIN_W {
                MIN_W
            } else {
                grab_rect.w
            };
            let h1: i32 = if grab_rect.h < MIN_H {
                MIN_H
            } else {
                grab_rect.h
            };
            RectLocal {
                x: clamp_axis_exec(
                    grab_rect.x as i64 + dx,
                    w1 as i64,
                    desktop_min_x,
                    desktop_max_x,
                ),
                y: clamp_axis_exec(
                    grab_rect.y as i64 + dy,
                    h1 as i64,
                    desktop_min_y,
                    desktop_max_y,
                ),
                w: w1,
                h: h1,
            }
        },
        DragMode::Resize(dir) => {
            let mut left: i32 = grab_rect.x;
            let mut right: i32 = grab_rect.x + grab_rect.w;
            let mut top: i32 = grab_rect.y;
            let mut bottom: i32 = grab_rect.y + grab_rect.h;

            if dir.left {
                left = cx;
            }
            if dir.right {
                right = cx;
            }
            if dir.top {
                top = cy;
            }
            if dir.bottom {
                bottom = cy;
            }

            if left > right {
                let t = left;
                left = right;
                right = t;
            }
            if top > bottom {
                let t = top;
                top = bottom;
                bottom = t;
            }

            let w0: i32 = right - left;
            let h0: i32 = bottom - top;
            let w1: i32 = if w0 < MIN_W {
                MIN_W
            } else {
                w0
            };
            let h1: i32 = if h0 < MIN_H {
                MIN_H
            } else {
                h0
            };

            RectLocal {
                x: clamp_axis_exec(left as i64, w1 as i64, desktop_min_x, desktop_max_x),
                y: clamp_axis_exec(top as i64, h1 as i64, desktop_min_y, desktop_max_y),
                w: w1,
                h: h1,
            }
        },
    }
}

/// The rectangle `(x, y, w, h)` keeps the minimum extents and lies inside
/// the bounds.
pub open spec fn rect_within(
    x: int,
    y: int,
    w: int,
    h: int,
    min_x: int,
    min_y: int,
    max_x: int,
    max_y: int,
) -> bool {
    w >= MIN_W as int && h >= MIN_H as int && min_x <= x && x + w <= max_x && min_y <= y && y + h
        <= max_y
}

/// One drag step keeps the selection rectangle well-formed and inside the
/// bounds, whenever the grabbed rectangle was inside them, the cursor stays
/// inside them, and the bounds can hold a minimum-size rectangle.
pub proof fn lemma_apply_drag_in_bounds(
    mode: DragMode,
    cx: int,
    cy: int,
    gx: int,
    gy: int,
    rx: int,
    ry: int,
    rw: int,
    rh: int,
    min_x: int,
    min_y: int,
    max_x: int,
    max_y: int,
)
    requires
        min_x + MIN_W as int <= max_x,
        min_y + MIN_H as int <= max_y,
        rect_within(rx, ry, rw, rh, min_x, min_y, max_x, max_y),
        min_x <= cx <= max_x,
        min_y <= cy <= max_y,
    ensures
        ({
            let (x1, y1, w1, h1) = apply_drag_spec(
                mode,
                cx,
                cy,
                gx,
                gy,
                rx,
                ry,
                rw,
                rh,
                min_x,
                min_y,
                max_x,
                max_y,
            );
            rect_within(x1, y1, w1, h1, min_x, min_y, max_x, max_y)
        }),
{
}

/// A whole drag interaction, folded step by step: each entry is the drag
/// classification and the cursor and grab-cursor positions it was applied
/// with, and each step's result is the rectangle the next step starts
/// from.
pub open spec fn apply_drags(
    sel: (int, int, int, int),
    steps: Seq<(DragMode, int, int, int, int)>,
    min_x: int,
    min_y: int,
    max_x: int,
    max_y: int,
) -> (int, int, int, int)
    decreases steps.len(),
{
    if steps.len() == 0 {
        sel
    } else {
        let (m, cx, cy, gx, gy) = steps[0];
        let s2 = apply_drag_spec(
            m,
            cx,
            cy,
            gx,
            gy,
            sel.0,
            sel.1,
            sel.2,
            sel.3,
            min_x,
            min_y,
            max_x,
            max_y,
        );
        apply_drags(s2, steps.drop_first(), min_x, min_y, max_x, max_y)
    }
}

/// Every valid drag sequence keeps the selection rectangle at least the
/// minimum size and inside the bounds: whenever the starting rectangle
/// lies inside bounds that can hold a minimum-size rectangle and every
/// step's cursor stays inside them, so does every rectangle the sequence
/// produces.
pub proof fn lemma_drag_sequence_in_bounds(
    sel: (int, int, int, int),
    steps: Seq<(DragMode, int, int, int, int)>,
    min_x: int,
    min_y: int,
    max_x: int,
    max_y: int,
)
    requires
        min_x + MIN_W as int <= max_x,
        min_y + MIN_H as int <= max_y,
        rect_within(sel.0, sel.1, sel.2, sel.3, min_x, min_y, max_x, max_y),
        forall|k: int|
            0 <= k < steps.len() ==> min_x <= (#[trigger] steps[k]).1 <= max_x && min_y
                <= steps[k].2 <= max_y,
    ensures
        ({
            let (x1, y1, w1, h1) = apply_drags(sel, steps, min_x, min_y, max_x, max_y);
            rect_within(x1, y1, w1, h1, min_x, min_y, max_x, max_y)
        }),
    decreases steps.len(),
{
    if steps.len() > 0 {
        let (m, cx, cy, gx, gy) = steps[0];
        lemma_apply_drag_in_bounds(
            m,
            cx,
            cy,
            gx,
            gy,
            sel.0,
            sel.1,
            sel.2,
            sel.3,
            min_x,
            min_y,
            max_x,
            max_y,
        );
        let s2 = apply_drag_spec(
            m,
            cx,
            cy,
            gx,
            gy,
            sel.0,
            sel.1,
            sel.2,
            sel.3,
            min_x,
            min_y,
            max_x,
            max_y,
        );
        assert(forall|k: int|
            0 <= k < steps.drop_first().len() ==> (#[trigger] steps.drop_first()[k]) == steps[k
                + 1]);
        lemma_drag_sequence_in_bounds(s2, steps.drop_first(), min_x, min_y, max_x, max_y);
    }
}

/// Any point strictly inside the rectangle, farther than `HANDLE_HIT` from
/// every edge and farther than the corner radius from every corner, is
/// classified as a move.
pub proof fn lemma_hit_test_interior_move(r: RectLocal, px: int, py: int)
    requires
        px - r.x as int > HANDLE_HIT as int,
        (r.x as int + r.w as int) - px > HANDLE_HIT as int,
        py - r.y as int > HANDLE_HIT as int,
        (r.y as int + r.h as int) - py > HANDLE_HIT as int,
        dist2_spec(px, py, r.x as int, r.y as int) > corner_radius() * corner_radius(),
        dist2_spec(px, py, r.x as int + r.w as int, r.y as int) > corner_radius()
            * corner_radius(),
        dist2_spec(px, py, r.x as int, r.y as int + r.h as int) > corner_radius()
            * corner_radius(),
        dist2_spec(px, py, r.x as int + r.w as int, r.y as int + r.h as int) > corner_radius()
            * corner_radius(),
    ensures
        hit_test_spec(r, px, py) == DragMode::Move,
{
    assert(corner_hit_spec(r, px, py) is None);
    assert(!resize_any(edge_dir_spec(r, px, py)));
    assert(r.spec_contains(px, py));
}

} // verus!
