use capit::geometry::{apply_drag, hit_test, DragMode, RectLocal, ResizeDir, HANDLE_HIT, MIN_H, MIN_W};

fn rect(x: i32, y: i32, w: i32, h: i32) -> RectLocal {
    RectLocal { x, y, w, h }
}

#[test]
fn clamp_to_raises_minimums() {
    let mut r = rect(10, 10, 2, 3);
    r.clamp_to(0, 0, 1000, 1000);
    assert_eq!(r, rect(10, 10, MIN_W, MIN_H));
}

#[test]
fn clamp_to_shifts_instead_of_shrinking() {
    let mut r = rect(950, 20, 100, 50);
    r.clamp_to(0, 0, 1000, 1000);
    assert_eq!(r, rect(900, 20, 100, 50));
}

#[test]
fn clamp_to_pushes_up_to_min() {
    let mut r = rect(-40, -7, 100, 50);
    r.clamp_to(0, 0, 1000, 1000);
    assert_eq!(r, rect(0, 0, 100, 50));
}

#[test]
fn clamp_to_is_idempotent_on_values() {
    let cases = [
        rect(-40, -7, 100, 50),
        rect(950, 990, 100, 50),
        rect(0, 0, 2, 2),
        rect(500, 500, 2000, 2000),
        rect(-100, -100, 5, 5),
    ];
    for c in cases {
        let mut once = c;
        once.clamp_to(0, 0, 1000, 800);
        let mut twice = once;
        twice.clamp_to(0, 0, 1000, 800);
        assert_eq!(once, twice);
    }
}

#[test]
fn contains_is_half_open() {
    let r = rect(10, 10, 100, 80);
    assert!(r.contains(10, 10));
    assert!(r.contains(109, 89));
    assert!(!r.contains(110, 89));
    assert!(!r.contains(109, 90));
    assert!(!r.contains(9, 50));
}

#[test]
fn resize_dir_any() {
    assert!(!ResizeDir { left: false, right: false, top: false, bottom: false }.any());
    assert!(ResizeDir { left: false, right: false, top: true, bottom: false }.any());
}

#[test]
fn hit_test_center_is_move() {
    let r = rect(100, 100, 200, 200);
    assert_eq!(hit_test(r, 200, 200), DragMode::Move);
}

#[test]
fn hit_test_interior_point_far_from_edges_is_move() {
    let r = rect(0, 0, 400, 300);
    // every point farther than HANDLE_HIT from every edge must be a move
    let p = HANDLE_HIT + 1;
    assert_eq!(hit_test(r, p + 20, p + 20), DragMode::Move);
    assert_eq!(hit_test(r, 400 - p - 20, 300 - p - 20), DragMode::Move);
}

#[test]
fn hit_test_corner_grabs_resize() {
    let r = rect(100, 100, 200, 200);
    assert_eq!(
        hit_test(r, 100, 100),
        DragMode::Resize(ResizeDir { left: true, right: false, top: true, bottom: false })
    );
    assert_eq!(
        hit_test(r, 300, 300),
        DragMode::Resize(ResizeDir { left: false, right: true, top: false, bottom: true })
    );
}

#[test]
fn hit_test_edge_band_grabs_edge() {
    let r = rect(100, 100, 200, 200);
    // on the left edge, vertically in the middle: left flag only
    assert_eq!(
        hit_test(r, 100, 200),
        DragMode::Resize(ResizeDir { left: true, right: false, top: false, bottom: false })
    );
}

#[test]
fn hit_test_outside_is_never_none() {
    let r = rect(100, 100, 200, 200);
    // far outside, closest to the bottom-right corner
    assert_eq!(
        hit_test(r, 1000, 1000),
        DragMode::Resize(ResizeDir { left: false, right: true, top: false, bottom: true })
    );
    // far outside, closest to the top-left corner
    assert_eq!(
        hit_test(r, -500, -500),
        DragMode::Resize(ResizeDir { left: true, right: false, top: true, bottom: false })
    );
}

#[test]
fn resize_drag_moves_flagged_edges_to_cursor() {
    // dragging the bottom-right handle outward grows the rectangle
    let out = apply_drag(
        DragMode::Resize(ResizeDir { left: false, right: true, top: false, bottom: true }),
        (150, 130),
        (110, 90),
        rect(10, 10, 100, 80),
        0,
        0,
        2000,
        2000,
    );
    assert_eq!(out, rect(10, 10, 140, 120));
}

#[test]
fn move_drag_translates_and_clamps() {
    let out = apply_drag(
        DragMode::Move,
        (50, 60),
        (40, 40),
        rect(100, 100, 50, 50),
        0,
        0,
        1000,
        1000,
    );
    assert_eq!(out, rect(110, 120, 50, 50));

    let clamped = apply_drag(
        DragMode::Move,
        (-500, -500),
        (0, 0),
        rect(100, 100, 50, 50),
        0,
        0,
        1000,
        1000,
    );
    assert_eq!(clamped, rect(0, 0, 50, 50));
}

#[test]
fn idle_drag_returns_grab_rect() {
    let r = rect(3, 4, 50, 60);
    let out = apply_drag(DragMode::Idle, (999, 999), (0, 0), r, 0, 0, 1000, 1000);
    assert_eq!(out, r);
}

#[test]
fn resize_past_opposite_edge_swaps() {
    // dragging the right edge left past the left edge inverts the rectangle
    let out = apply_drag(
        DragMode::Resize(ResizeDir { left: false, right: true, top: false, bottom: false }),
        (5, 50),
        (110, 50),
        rect(50, 40, 60, 30),
        0,
        0,
        1000,
        1000,
    );
    assert_eq!(out, rect(5, 40, 45, 30));
}

#[test]
fn drag_sequence_stays_in_bounds() {
    // a chain of drags, each within the bounds, never escapes them
    let bounds = (0, 0, 800, 600);
    let mut sel = rect(100, 100, 200, 150);
    let steps = [
        (DragMode::Move, (700, 500), (150, 150)),
        (
            DragMode::Resize(ResizeDir { left: true, right: false, top: true, bottom: false }),
            (0, 0),
            (600, 450),
        ),
        (DragMode::Move, (800, 600), (10, 10)),
        (
            DragMode::Resize(ResizeDir { left: false, right: true, top: false, bottom: true }),
            (3, 2),
            (799, 599),
        ),
    ];
    for (mode, cursor, grab_cursor) in steps {
        sel = apply_drag(mode, cursor, grab_cursor, sel, bounds.0, bounds.1, bounds.2, bounds.3);
        assert!(sel.w >= MIN_W && sel.h >= MIN_H);
        assert!(sel.x >= bounds.0 && sel.y >= bounds.1);
        assert!(sel.x + sel.w <= bounds.2 && sel.y + sel.h <= bounds.3);
    }
}
