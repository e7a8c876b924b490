//! Barycentric triangle rasterization onto an owned character grid.
//!
//! The rasterizer owns a `width x height` grid of cells; one draw call
//! classifies every cell of the clamped bounding box of a triangle as inside
//! or outside and writes a marker or background character. The caller prints
//! or transmits the grid; the rasterizer never reads it back.

#![allow(non_snake_case)]

use vstd::prelude::*;
use crate::rat::{Rat, Ratio, ratio_lt, ratio_trunc, lemma_mul_bound, lemma_trunc_bound};
use crate::vectors::{Vector2, Vec2Model};

verus! {

/// Coordinate bound for rasterizer vertices: numerators and denominators up
/// to a million, so that every barycentric product fits the wide integers.
pub open spec fn v2_small(v: Vec2Model) -> bool {
    -0x10_0000 <= v.x <= 0x10_0000 && -0x10_0000 <= v.y <= 0x10_0000 && 0 < v.d <= 0x10_0000
}

/// Largest accepted surface dimension.
pub open spec fn max_dim() -> int {
    0x8000
}

pub open spec fn rat_min(a: Ratio, b: Ratio) -> Ratio {
    if ratio_lt(a, b) { a } else { b }
}

pub open spec fn rat_max(a: Ratio, b: Ratio) -> Ratio {
    if ratio_lt(b, a) { a } else { b }
}

pub open spec fn rx(v: Vec2Model) -> Ratio {
    Ratio { n: v.x, d: v.d }
}

pub open spec fn ry(v: Vec2Model) -> Ratio {
    Ratio { n: v.y, d: v.d }
}

/// Numerator of the shared barycentric denominator, over the implicit
/// positive denominator `v1.d * v2.d * v3.d * v3.d`; zero exactly when the
/// triangle is degenerate.
pub open spec fn tri_den_num(v1: Vec2Model, v2: Vec2Model, v3: Vec2Model) -> int {
    (v2.y * v3.d - v3.y * v2.d) * (v1.x * v3.d - v3.x * v1.d)
        + (v3.x * v2.d - v2.x * v3.d) * (v1.y * v3.d - v3.y * v1.d)
}

/// Numerator of the first barycentric weight of the integer point
/// `(px, py)`, over the same denominator as `tri_den_num`.
pub open spec fn bary1_num(px: int, py: int, v1: Vec2Model, v2: Vec2Model, v3: Vec2Model) -> int {
    ((v2.y * v3.d - v3.y * v2.d) * (px * v3.d - v3.x)
        + (v3.x * v2.d - v2.x * v3.d) * (py * v3.d - v3.y)) * v1.d
}

/// Numerator of the second barycentric weight.
pub open spec fn bary2_num(px: int, py: int, v1: Vec2Model, v2: Vec2Model, v3: Vec2Model) -> int {
    ((v3.y * v1.d - v1.y * v3.d) * (px * v3.d - v3.x)
        + (v1.x * v3.d - v3.x * v1.d) * (py * v3.d - v3.y)) * v2.d
}

/// Whether the weight `a / dn` lies below the edge tolerance `-1/1000`.
pub open spec fn weight_below(a: int, dn: int) -> bool {
    if dn > 0 {
        1000 * a < -dn
    } else {
        1000 * a > -dn
    }
}

/// The classification rule: the three signed barycentric weights of the cell
/// must agree on which side of the `-1/1000` tolerance they lie. A
/// degenerate triangle contains no point at all.
pub open spec fn point_in_triangle(
    px: int, py: int, v1: Vec2Model, v2: Vec2Model, v3: Vec2Model,
) -> bool {
    let dn = tri_den_num(v1, v2, v3);
    if dn == 0 {
        false
    } else {
        let a1 = bary1_num(px, py, v1, v2, v3);
        let a2 = bary2_num(px, py, v1, v2, v3);
        let a3 = dn - a1 - a2;
        weight_below(a1, dn) == weight_below(a2, dn)
            && weight_below(a2, dn) == weight_below(a3, dn)
    }
}

/// What one classified cell holds after a draw call.
pub open spec fn painted_cell(
    px: int, py: int, v1: Vec2Model, v2: Vec2Model, v3: Vec2Model,
) -> char {
    if point_in_triangle(px, py, v1, v2, v3) {
        '#'
    } else {
        '.'
    }
}

/// The clamped bounding box: lower bounds at zero, upper bounds one past
/// the truncated maximum, capped at the surface size.
pub open spec fn box_min_x(v1: Vec2Model, v2: Vec2Model, v3: Vec2Model) -> int {
    let t = ratio_trunc(rat_min(rx(v1), rat_min(rx(v2), rx(v3))));
    if t < 0 { 0 } else { t }
}

pub open spec fn box_min_y(v1: Vec2Model, v2: Vec2Model, v3: Vec2Model) -> int {
    let t = ratio_trunc(rat_min(ry(v1), rat_min(ry(v2), ry(v3))));
    if t < 0 { 0 } else { t }
}

pub open spec fn box_max_x(v1: Vec2Model, v2: Vec2Model, v3: Vec2Model, w: int) -> int {
    let t = ratio_trunc(rat_max(rx(v1), rat_max(rx(v2), rx(v3)))) + 1;
    if t < w { t } else { w }
}

pub open spec fn box_max_y(v1: Vec2Model, v2: Vec2Model, v3: Vec2Model, h: int) -> int {
    let t = ratio_trunc(rat_max(ry(v1), rat_max(ry(v2), ry(v3)))) + 1;
    if t < h { t } else { h }
}

pub open spec fn in_box(
    i: int, j: int, v1: Vec2Model, v2: Vec2Model, v3: Vec2Model, w: int, h: int,
) -> bool {
    box_min_x(v1, v2, v3) <= i < box_max_x(v1, v2, v3, w)
        && box_min_y(v1, v2, v3) <= j < box_max_y(v1, v2, v3, h)
}

/// The dimensions of the rasterizer's target surface.
#[derive(Clone, Copy, Debug, PartialEq, Eq, Structural)]
pub struct FrameBuffer {
    pub width: i32,
    pub height: i32,
}

impl FrameBuffer {
    pub fn new(w: i32, h: i32) -> (r: FrameBuffer)
        ensures
            r.width == w,
            r.height == h,
    {
        FrameBuffer { width: w, height: h }
    }
}

/// Owns the surface dimensions and the cell grid of the current frame,
/// stored row by row.
pub struct Rasterizer {
    pub fb: FrameBuffer,
    pub cells: Vec<char>,
}

impl Rasterizer {
    /// Dimensions bounded and the grid exactly `width * height` cells.
    pub open spec fn wf(&self) -> bool {
        0 <= self.fb.width as int <= max_dim()
        && 0 <= self.fb.height as int <= max_dim()
        && self.cells@.len() == self.fb.width as int * self.fb.height as int
    }

    /// A fresh rasterizer with every cell holding the background character.
    pub fn new(width: i32, height: i32) -> (r: Rasterizer)
        requires
            0 <= width as int <= max_dim(),
            0 <= height as int <= max_dim(),
        ensures
            r.wf(),
            r.fb.width == width,
            r.fb.height == height,
            forall|k: int| 0 <= k < r.cells@.len() ==> r.cells@[k] == '.',
    {
        proof {
            lemma_mul_bound(width as int, height as int, 0x8000, 0x8000);
        }
        let n: usize = (width as usize) * (height as usize);
        let mut cells: Vec<char> = Vec::new();
        let mut k: usize = 0;
        while k < n
            invariant
                cells@.len() == k,
                k <= n,
                forall|t: int| 0 <= t < k ==> cells@[t] == '.',
            decreases n - k,
        {
            cells.push('.');
            k = k + 1;
        }
        Rasterizer { fb: FrameBuffer::new(width, height), cells }
    }

    pub fn getFrameBuffer(&self) -> (r: &FrameBuffer)
        ensures
            *r == self.fb,
    {
        &self.fb
    }

    /// Reads one cell of the grid.
    pub fn cell(&self, x: i32, y: i32) -> (r: char)
        requires
            self.wf(),
            0 <= x < self.fb.width,
            0 <= y < self.fb.height,
        ensures
            r == self.cells@[y as int * self.fb.width as int + x as int],
    {
        proof {
            let ghost wi: int = self.fb.width as int;
            let ghost hi: int = self.fb.height as int;
            let ghost xi: int = x as int;
            let ghost yi: int = y as int;
            assert(0 <= yi * wi + xi < hi * wi) by (nonlinear_arith)
                requires
                    0 <= xi < wi,
                    0 <= yi < hi;
            assert(hi * wi == wi * hi) by (nonlinear_arith);
            lemma_mul_bound(wi, hi, 0x8000, 0x8000);
            lemma_mul_bound(yi, wi, 0x8000, 0x8000);
        }
        let k: usize = (y as usize) * (self.fb.width as usize) + (x as usize);
        self.cells[k]
    }

    /// Classifies the integer cell `(ptX, ptY)` against the triangle
    /// `v1 v2 v3` by signed barycentric weights with the `-1/1000` edge
    /// tolerance; every cell is outside a degenerate (zero-area) triangle,
    /// and no division is attempted on it.
    pub fn isPointInTriangle(
        ptX: i32, ptY: i32, v1: &Vector2, v2: &Vector2, v3: &Vector2,
    ) -> (r: bool)
        requires
            v1.wf() && v2_small(v1@),
            v2.wf() && v2_small(v2@),
            v3.wf() && v2_small(v3@),
            -0x10_0000 <= ptX as int <= 0x10_0000,
            -0x10_0000 <= ptY as int <= 0x10_0000,
        ensures
            r == point_in_triangle(ptX as int, ptY as int, v1@, v2@, v3@),
    {
        let x1: i128 = v1.x as i128;
        let y1: i128 = v1.y as i128;
        let d1: i128 = v1.den as i128;
        let x2: i128 = v2.x as i128;
        let y2: i128 = v2.y as i128;
        let d2: i128 = v2.den as i128;
        let x3: i128 = v3.x as i128;
        let y3: i128 = v3.y as i128;
        let d3: i128 = v3.den as i128;
        let px: i128 = ptX as i128;
        let py: i128 = ptY as i128;
        proof {
            lemma_mul_bound(v2@.y, v3@.d, 0x10_0000, 0x10_0000);
            lemma_mul_bound(v3@.y, v2@.d, 0x10_0000, 0x10_0000);
            lemma_mul_bound(v1@.x, v3@.d, 0x10_0000, 0x10_0000);
            lemma_mul_bound(v3@.x, v1@.d, 0x10_0000, 0x10_0000);
            lemma_mul_bound(v3@.x, v2@.d, 0x10_0000, 0x10_0000);
            lemma_mul_bound(v2@.x, v3@.d, 0x10_0000, 0x10_0000);
            lemma_mul_bound(v1@.y, v3@.d, 0x10_0000, 0x10_0000);
            lemma_mul_bound(v3@.y, v1@.d, 0x10_0000, 0x10_0000);
        }
        let e1: i128 = y2 * d3 - y3 * d2;
        let f1: i128 = x1 * d3 - x3 * d1;
        let e2: i128 = x3 * d2 - x2 * d3;
        let f2: i128 = y1 * d3 - y3 * d1;
        proof {
            lemma_mul_bound(e1 as int, f1 as int, 0x200_0000_0000, 0x200_0000_0000);
            lemma_mul_bound(e2 as int, f2 as int, 0x200_0000_0000, 0x200_0000_0000);
        }
        let dn: i128 = e1 * f1 + e2 * f2;
        if dn == 0 {
            return false;
        }
        proof {
            lemma_mul_bound(ptX as int, v3@.d, 0x10_0000, 0x10_0000);
            lemma_mul_bound(ptY as int, v3@.d, 0x10_0000, 0x10_0000);
            lemma_mul_bound(v3@.y, v1@.d, 0x10_0000, 0x10_0000);
            lemma_mul_bound(v1@.y, v3@.d, 0x10_0000, 0x10_0000);
        }
        let g1: i128 = px * d3 - x3;
        let g2: i128 = py * d3 - y3;
        let e3: i128 = y3 * d1 - y1 * d3;
        proof {
            lemma_mul_bound(e1 as int, g1 as int, 0x200_0000_0000, 0x200_0000_0000);
            lemma_mul_bound(e2 as int, g2 as int, 0x200_0000_0000, 0x200_0000_0000);
            lemma_mul_bound(e3 as int, g1 as int, 0x200_0000_0000, 0x200_0000_0000);
            lemma_mul_bound(f1 as int, g2 as int, 0x200_0000_0000, 0x200_0000_0000);
        }
        let n1: i128 = e1 * g1 + e2 * g2;
        let n2: i128 = e3 * g1 + f1 * g2;
        proof {
            lemma_mul_bound(n1 as int, v1@.d, 0x8_0000_0000_0000_0000_0000, 0x10_0000);
            lemma_mul_bound(n2 as int, v2@.d, 0x8_0000_0000_0000_0000_0000, 0x10_0000);
        }
        let a1: i128 = n1 * d1;
        let a2: i128 = n2 * d2;
        let a3: i128 = dn - a1 - a2;
        let w1: bool = below(a1, dn);
        let w2: bool = below(a2, dn);
        let w3: bool = below(a3, dn);
        (w1 == w2) && (w2 == w3)
    }

    /// Draws one triangle: every cell of the clamped bounding box is
    /// written, the marker for cells inside the triangle and the background
    /// character for the rest; cells outside the box keep their old value,
    /// and a degenerate triangle writes nothing at all.
    pub fn rasterizeTriangle(&mut self, v1: &Vector2, v2: &Vector2, v3: &Vector2)
        requires
            old(self).wf(),
            v1.wf() && v2_small(v1@),
            v2.wf() && v2_small(v2@),
            v3.wf() && v2_small(v3@),
        ensures
            final(self).wf(),
            final(self).fb == old(self).fb,
            final(self).cells@.len() == old(self).cells@.len(),
            tri_den_num(v1@, v2@, v3@) == 0 ==> final(self).cells@ == old(self).cells@,
            tri_den_num(v1@, v2@, v3@) != 0 ==> (forall|i: int, j: int|
                0 <= i < old(self).fb.width as int && 0 <= j < old(self).fb.height as int
                ==> #[trigger] final(self).cells@[j * old(self).fb.width as int + i]
                    == (if in_box(i, j, v1@, v2@, v3@,
                            old(self).fb.width as int, old(self).fb.height as int) {
                        painted_cell(i, j, v1@, v2@, v3@)
                    } else {
                        old(self).cells@[j * old(self).fb.width as int + i]
                    })),
    {
        let w: i32 = self.fb.width;
        let h: i32 = self.fb.height;
        let ghost m1: Vec2Model = v1@;
        let ghost m2: Vec2Model = v2@;
        let ghost m3: Vec2Model = v3@;
        let ghost c0: Seq<char> = self.cells@;

        // A zero-area triangle is skipped entirely: no division, no writes.
        let dn_zero: bool = tri_degenerate(v1, v2, v3);
        if dn_zero {
            return;
        }

        let rx1: Rat = Rat { num: v1.x as i64, den: v1.den as i64 };
        let ry1: Rat = Rat { num: v1.y as i64, den: v1.den as i64 };
        let rx2: Rat = Rat { num: v2.x as i64, den: v2.den as i64 };
        let ry2: Rat = Rat { num: v2.y as i64, den: v2.den as i64 };
        let rx3: Rat = Rat { num: v3.x as i64, den: v3.den as i64 };
        let ry3: Rat = Rat { num: v3.y as i64, den: v3.den as i64 };

        let mnx: Rat = pick_min(&rx1, &rx2, &rx3);
        let mny: Rat = pick_min(&ry1, &ry2, &ry3);
        let mxx: Rat = pick_max(&rx1, &rx2, &rx3);
        let mxy: Rat = pick_max(&ry1, &ry2, &ry3);

        proof {
            lemma_trunc_bound(mnx@, 0x10_0000);
            lemma_trunc_bound(mny@, 0x10_0000);
            lemma_trunc_bound(mxx@, 0x10_0000);
            lemma_trunc_bound(mxy@, 0x10_0000);
        }
        let tminx: i64 = mnx.trunc();
        let tminy: i64 = mny.trunc();
        let tmaxx: i64 = mxx.trunc();
        let tmaxy: i64 = mxy.trunc();

        let minX: i32 = if tminx < 0 { 0 } else { tminx as i32 };
        let minY: i32 = if tminy < 0 { 0 } else { tminy as i32 };
        let maxX: i32 = if tmaxx + 1 < w as i64 { (tmaxx + 1) as i32 } else { w };
        let maxY: i32 = if tmaxy + 1 < h as i64 { (tmaxy + 1) as i32 } else { h };

        proof {
            assert(minX as int == box_min_x(m1, m2, m3));
            assert(minY as int == box_min_y(m1, m2, m3));
            assert(maxX as int == box_max_x(m1, m2, m3, w as int));
            assert(maxY as int == box_max_y(m1, m2, m3, h as int));
        }

        let mut j: i32 = minY;
        while j < maxY
            invariant
                minY <= j <= (if maxY < minY { minY } else { maxY }),
                0 <= minY,
                maxY <= h,
                0 <= minX,
                maxX <= w,
                0 <= w as int <= max_dim(),
                0 <= h as int <= max_dim(),
                self.fb.width == w,
                self.fb.height == h,
                self.cells@.len() == c0.len(),
                c0.len() == w as int * h as int,
                v1@ == m1 && v2@ == m2 && v3@ == m3,
                v2_small(m1) && v2_small(m2) && v2_small(m3),
                0 < m1.d && 0 < m2.d && 0 < m3.d,
                minX as int == box_min_x(m1, m2, m3),
                maxX as int == box_max_x(m1, m2, m3, w as int),
                minY as int == box_min_y(m1, m2, m3),
                maxY as int == box_max_y(m1, m2, m3, h as int),
                forall|a: int, b: int| 0 <= a < w as int && 0 <= b < h as int
                    ==> #[trigger] self.cells@[b * w as int + a]
                        == (if minX as int <= a < maxX as int && minY as int <= b < j as int {
                            painted_cell(a, b, m1, m2, m3)
                        } else {
                            c0[b * w as int + a]
                        }),
            decreases maxY - j,
        {
            let mut i: i32 = minX;
            while i < maxX
                invariant
                    minX <= i <= (if maxX < minX { minX } else { maxX }),
                    minY <= j < maxY,
                    0 <= minY,
                    maxY <= h,
                    0 <= minX,
                    maxX <= w,
                    0 <= w as int <= max_dim(),
                    0 <= h as int <= max_dim(),
                    self.fb.width == w,
                    self.fb.height == h,
                    self.cells@.len() == c0.len(),
                    c0.len() == w as int * h as int,
                    v1@ == m1 && v2@ == m2 && v3@ == m3,
                    v2_small(m1) && v2_small(m2) && v2_small(m3),
                    0 < m1.d && 0 < m2.d && 0 < m3.d,
                    forall|a: int, b: int| 0 <= a < w as int && 0 <= b < h as int
                        ==> #[trigger] self.cells@[b * w as int + a]
                            == (if (minX as int <= a < maxX as int && minY as int <= b < j as int)
                                || (minX as int <= a < i as int && b == j as int) {
                                painted_cell(a, b, m1, m2, m3)
                            } else {
                                c0[b * w as int + a]
                            }),
                decreases maxX - i,
            {
                let inside: bool = Rasterizer::isPointInTriangle(i, j, v1, v2, v3);
                let ch: char = if inside { '#' } else { '.' };
                proof {
                    lemma_mul_bound(w as int, h as int, 0x8000, 0x8000);
                    lemma_mul_bound(j as int, w as int, 0x8000, 0x8000);
                    let ghost wi: int = w as int;
                    let ghost hi: int = h as int;
                    let ghost ii: int = i as int;
                    let ghost ji: int = j as int;
                    assert(0 <= ji * wi + ii < wi * hi) by (nonlinear_arith)
                        requires
                            0 <= ii < wi,
                            0 <= ji < hi;
                }
                let k: usize = (j as usize) * (w as usize) + (i as usize);
                self.cells[k] = ch;
                proof {
                    assert forall|a: int, b: int|
                        0 <= a < w as int && 0 <= b < h as int
                        implies 0 <= #[trigger] (b * w as int + a) < w as int * h as int
                            && ((a != i as int || b != j as int)
                                ==> b * w as int + a != j as int * w as int + i as int) by {
                        lemma_grid_index(a, b, i as int, j as int, w as int, h as int);
                    }
                }
                i = i + 1;
            }
            j = j + 1;
        }
    }
}

/// A grid cell's row-major index is in range, and distinct cells have
/// distinct indices.
proof fn lemma_grid_index(a: int, b: int, i: int, j: int, w: int, h: int)
    by (nonlinear_arith)
    requires
        0 <= a < w,
        0 <= b < h,
        0 <= i < w,
        0 <= j < h,
    ensures
        0 <= b * w + a < w * h,
        (a != i || b != j) ==> b * w + a != j * w + i,
{
}

/// `a / dn < -1/1000`, by cross-multiplication with the sign of `dn`.
fn below(a: i128, dn: i128) -> (r: bool)
    requires
        dn != 0,
        -0x1_0000_0000_0000_0000_0000_0000_0000 <= a as int <= 0x1_0000_0000_0000_0000_0000_0000_0000,
        -0x1_0000_0000_0000_0000_0000_0000_0000 <= dn as int <= 0x1_0000_0000_0000_0000_0000_0000_0000,
    ensures
        r == weight_below(a as int, dn as int),
{
    proof {
        lemma_mul_bound(1000, a as int, 1000, 0x1_0000_0000_0000_0000_0000_0000_0000);
    }
    if dn > 0 {
        1000 * a < -dn
    } else {
        1000 * a > -dn
    }
}

/// Whether the triangle has zero area: the shared barycentric denominator
/// vanishes.
fn tri_degenerate(v1: &Vector2, v2: &Vector2, v3: &Vector2) -> (r: bool)
    requires
        v1.wf() && v2_small(v1@),
        v2.wf() && v2_small(v2@),
        v3.wf() && v2_small(v3@),
    ensures
        r == (tri_den_num(v1@, v2@, v3@) == 0),
{
    let x1: i128 = v1.x as i128;
    let y1: i128 = v1.y as i128;
    let d1: i128 = v1.den as i128;
    let x2: i128 = v2.x as i128;
    let y2: i128 = v2.y as i128;
    let d2: i128 = v2.den as i128;
    let x3: i128 = v3.x as i128;
    let y3: i128 = v3.y as i128;
    let d3: i128 = v3.den as i128;
    proof {
        lemma_mul_bound(v2@.y, v3@.d, 0x10_0000, 0x10_0000);
        lemma_mul_bound(v3@.y, v2@.d, 0x10_0000, 0x10_0000);
        lemma_mul_bound(v1@.x, v3@.d, 0x10_0000, 0x10_0000);
        lemma_mul_bound(v3@.x, v1@.d, 0x10_0000, 0x10_0000);
        lemma_mul_bound(v3@.x, v2@.d, 0x10_0000, 0x10_0000);
        lemma_mul_bound(v2@.x, v3@.d, 0x10_0000, 0x10_0000);
        lemma_mul_bound(v1@.y, v3@.d, 0x10_0000, 0x10_0000);
        lemma_mul_bound(v3@.y, v1@.d, 0x10_0000, 0x10_0000);
    }
    let e1: i128 = y2 * d3 - y3 * d2;
    let f1: i128 = x1 * d3 - x3 * d1;
    let e2: i128 = x3 * d2 - x2 * d3;
    let f2: i128 = y1 * d3 - y3 * d1;
    proof {
        lemma_mul_bound(e1 as int, f1 as int, 0x200_0000_0000, 0x200_0000_0000);
        lemma_mul_bound(e2 as int, f2 as int, 0x200_0000_0000, 0x200_0000_0000);
    }
    e1 * f1 + e2 * f2 == 0
}

/// The smaller of three rationals, ties keeping the later operand.
fn pick_min(a: &Rat, b: &Rat, c: &Rat) -> (r: Rat)
    requires
        a.wf(),
        b.wf(),
        c.wf(),
    ensures
        r.wf(),
        r@ == rat_min(a@, rat_min(b@, c@)),
{
    let bc: Rat = if b.lt(c) { *b } else { *c };
    if a.lt(&bc) { *a } else { bc }
}

/// The larger of three rationals.
fn pick_max(a: &Rat, b: &Rat, c: &Rat) -> (r: Rat)
    requires
        a.wf(),
        b.wf(),
        c.wf(),
    ensures
        r.wf(),
        r@ == rat_max(a@, rat_max(b@, c@)),
{
    let bc: Rat = if c.lt(b) { *b } else { *c };
    if bc.lt(a) { *a } else { bc }
}

} // verus!
