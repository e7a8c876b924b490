//! Rasterizer scenarios: the exact staircase fill, the degenerate triangle,
//! and clamping of out-of-range vertices.

use softrast::vectors::Vector2;
use softrast::rasterizer::{FrameBuffer, Rasterizer};

fn v2(x: i32, y: i32, den: i32) -> Vector2 {
    Vector2::new(x, y, den).unwrap()
}

#[test]
fn frame_buffer_holds_dimensions() {
    let fb = FrameBuffer::new(3, 7);
    assert_eq!((fb.width, fb.height), (3, 7));
    let r = Rasterizer::new(4, 5);
    assert_eq!(*r.getFrameBuffer(), FrameBuffer::new(4, 5));
}

#[test]
fn right_triangle_fills_staircase() {
    // The triangle (0,0), (4,0), (0,4) on a 5x5 surface fills exactly the
    // fifteen cells with i + j <= 4 and leaves the rest as background.
    let mut r = Rasterizer::new(5, 5);
    r.rasterizeTriangle(&v2(0, 0, 1), &v2(4, 0, 1), &v2(0, 4, 1));
    let mut filled: u32 = 0;
    for j in 0..5 {
        for i in 0..5 {
            let expect = if i + j <= 4 { '#' } else { '.' };
            assert_eq!(r.cell(i, j), expect);
            if r.cell(i, j) == '#' {
                filled += 1;
            }
        }
    }
    assert_eq!(filled, 15);
}

#[test]
fn degenerate_triangle_draws_nothing() {
    // A zero-area triangle is skipped: no division, no filled cells.
    let mut r = Rasterizer::new(5, 5);
    r.rasterizeTriangle(&v2(1, 1, 1), &v2(1, 1, 1), &v2(1, 1, 1));
    for j in 0..5 {
        for i in 0..5 {
            assert_eq!(r.cell(i, j), '.');
        }
    }
}

#[test]
fn bounding_box_clamps_to_surface() {
    // A vertex far outside the surface: the draw stays inside the 10x10
    // grid and the classification is still exact inside it.
    let mut r = Rasterizer::new(10, 10);
    r.rasterizeTriangle(&v2(-5, -5, 1), &v2(12, 0, 1), &v2(0, 12, 1));
    // Every cell is still a marker or background; the call neither panicked
    // nor wrote outside the grid (the grid is the only storage there is).
    let mut any_filled = false;
    for j in 0..10 {
        for i in 0..10 {
            let c = r.cell(i, j);
            assert!(c == '#' || c == '.');
            if c == '#' {
                any_filled = true;
            }
        }
    }
    assert!(any_filled);
    // The origin lies inside this triangle.
    assert_eq!(r.cell(0, 0), '#');
}

#[test]
fn point_classification_matches_geometry() {
    let a = v2(0, 0, 1);
    let b = v2(4, 0, 1);
    let c = v2(0, 4, 1);
    assert!(Rasterizer::isPointInTriangle(1, 1, &a, &b, &c));
    assert!(Rasterizer::isPointInTriangle(0, 0, &a, &b, &c));
    assert!(!Rasterizer::isPointInTriangle(4, 4, &a, &b, &c));
    assert!(!Rasterizer::isPointInTriangle(-1, 0, &a, &b, &c));
    // Degenerate triangle: no point is inside.
    let d = v2(1, 1, 1);
    assert!(!Rasterizer::isPointInTriangle(1, 1, &d, &d, &d));
}

#[test]
fn fractional_vertices_rasterize_exactly() {
    // A triangle with halves as coordinates: (1/2, 1/2), (7/2, 1/2),
    // (1/2, 7/2). The cell (1, 1) lies inside, (3, 3) outside.
    let mut r = Rasterizer::new(4, 4);
    r.rasterizeTriangle(&v2(1, 1, 2), &v2(7, 1, 2), &v2(1, 7, 2));
    assert_eq!(r.cell(1, 1), '#');
    assert_eq!(r.cell(3, 3), '.');
}

#[test]
fn triangle_drawn_twice_overwrites_box_cells() {
    // Redrawing writes each bounding-box cell again: marker or background.
    let mut r = Rasterizer::new(5, 5);
    r.rasterizeTriangle(&v2(0, 0, 1), &v2(4, 0, 1), &v2(0, 4, 1));
    r.rasterizeTriangle(&v2(0, 0, 1), &v2(2, 0, 1), &v2(0, 2, 1));
    // The second, smaller triangle repaints its box; cells outside its box
    // keep the first drawing.
    assert_eq!(r.cell(0, 0), '#');
    assert_eq!(r.cell(2, 2), '.');
    assert_eq!(r.cell(0, 4), '#');
}

#[test]
fn edge_tolerance_is_exactly_one_thousandth() {
    // On the triangle (0,0), (1000,0), (0,1000) the third weight of the
    // point (500, py) is py/1000. At py = -1 the weight is exactly -1/1000,
    // not strictly below the tolerance, so the point still counts as
    // inside; at py = -2 it falls outside.
    let a = v2(0, 0, 1);
    let b = v2(1000, 0, 1);
    let c = v2(0, 1000, 1);
    assert!(Rasterizer::isPointInTriangle(500, -1, &a, &b, &c));
    assert!(!Rasterizer::isPointInTriangle(500, -2, &a, &b, &c));
}
