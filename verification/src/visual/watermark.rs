//! The mascot as a watermark under the whole dashboard.
//!
//! It only ever fills cells that are already blank: a cell with a character,
//! a border or a bar is never written. It is drawn whole or not at all (a
//! silhouette with a bite taken out of it looks broken, not like a
//! watermark), with blank columns on both sides so that it never reads as
//! part of the text beside it. Where it goes is looked up in a fixed order,
//! so the same screen always gives the same answer.
//!
//! The screen is handed over as a grid of blank cells; drawing stays with
//! the caller.

use vstd::prelude::*;
use crate::layout::Rect;
use crate::visual::{Decoration, level};

verus! {

/// How far the watermark keeps from the right edge of the area.
pub const MARGIN_X: u16 = 2;

/// How far the watermark keeps from the bottom edge of the area.
pub const MARGIN_Y: u16 = 1;

/// How many blank columns the ink needs on its left and its right.
pub const CLEARANCE: u16 = 3;

/// The fewest rows worth showing: four rows show ears, crown and muzzle, so
/// the species can be told at a glance; fewer are only noise.
pub const MIN_REVEAL: u16 = 4;

/// The horizontal step of the placement grid (positions on a grid do not
/// jitter when a number on screen grows by a digit).
pub const STEP_X: u16 = 4;

/// The vertical step of the placement grid.
pub const STEP_Y: u16 = 2;

/// Whether the screen allows a watermark at all. Only the decoration policy
/// decides; how much of the mascot fits is decided by the placement.
pub fn fits(area: Rect, deco: Decoration) -> (b: bool)
    ensures
        b == (level(deco) >= level(Decoration::Minimal)),
{
    deco.at_least(Decoration::Minimal)
}

/// Whether the buffer cell (x, y) exists and is blank: `free` holds, row by
/// row, whether each cell of the buffer area `ba` is blank.
pub open spec fn free_at(free: Seq<bool>, ba: Rect, x: int, y: int) -> bool {
    &&& ba.x <= x < ba.x + ba.width
    &&& ba.y <= y < ba.y + ba.height
    &&& free[(y - ba.y) * ba.width + (x - ba.x)]
}

/// The number of cells of row `y`, columns `0..x`, that are not blank.
pub open spec fn row_used(free: Seq<bool>, ba: Rect, y: int, x: int) -> int
    decreases x,
{
    if x <= 0 {
        0
    } else {
        row_used(free, ba, y, x - 1) + if free_at(free, ba, x - 1, y) { 0int } else { 1int }
    }
}

/// The number of cells in columns `0..x` and rows `0..y` that are not blank.
pub open spec fn area_used(free: Seq<bool>, ba: Rect, x: int, y: int) -> int
    decreases y,
{
    if y <= 0 {
        0
    } else {
        area_used(free, ba, x, y - 1) + row_used(free, ba, y - 1, x)
    }
}

/// The number of cells in columns `x0..x1` and rows `y0..y1` that are not
/// blank.
pub open spec fn rect_used(free: Seq<bool>, ba: Rect, x0: int, x1: int, y0: int, y1: int) -> int
    decreases y1 - y0,
{
    if y1 <= y0 {
        0
    } else {
        rect_used(free, ba, x0, x1, y0, y1 - 1) + row_used(free, ba, y1 - 1, x1) - row_used(free, ba, y1 - 1, x0)
    }
}

proof fn lemma_row_used_mono(free: Seq<bool>, ba: Rect, y: int, a: int, b: int)
    requires
        0 <= a <= b,
    ensures
        0 <= row_used(free, ba, y, a) <= row_used(free, ba, y, b) <= row_used(free, ba, y, a) + (b - a),
    decreases b - a,
{
    if a < b {
        lemma_row_used_mono(free, ba, y, a, b - 1);
    } else {
        lemma_row_used_nonneg(free, ba, y, a);
    }
}

proof fn lemma_row_used_nonneg(free: Seq<bool>, ba: Rect, y: int, x: int)
    ensures
        0 <= row_used(free, ba, y, x),
        x >= 0 ==> row_used(free, ba, y, x) <= x,
    decreases x,
{
    if x > 0 {
        lemma_row_used_nonneg(free, ba, y, x - 1);
    }
}

/// Counting a rectangle from the corner sums: inclusion and exclusion.
proof fn lemma_rect_from_corners(free: Seq<bool>, ba: Rect, x0: int, x1: int, y0: int, y1: int)
    requires
        0 <= x0 <= x1,
        0 <= y0 <= y1,
    ensures
        rect_used(free, ba, x0, x1, y0, y1)
            == (area_used(free, ba, x1, y1) - area_used(free, ba, x1, y0)) - (area_used(free, ba, x0, y1) - area_used(free, ba, x0, y0)),
        0 <= rect_used(free, ba, x0, x1, y0, y1),
        area_used(free, ba, x0, y1) - area_used(free, ba, x0, y0) >= 0,
    decreases y1 - y0,
{
    if y0 < y1 {
        lemma_rect_from_corners(free, ba, x0, x1, y0, y1 - 1);
        lemma_row_used_mono(free, ba, y1 - 1, x0, x1);
    }
}

proof fn lemma_area_used_bound(free: Seq<bool>, ba: Rect, x: int, y: int)
    requires
        0 <= x,
        0 <= y,
    ensures
        0 <= area_used(free, ba, x, y) <= x * y,
    decreases y,
{
    if y > 0 {
        lemma_area_used_bound(free, ba, x, y - 1);
        lemma_row_used_nonneg(free, ba, y - 1, x);
        assert(x * (y - 1) + x == x * y) by (nonlinear_arith);
    }
}

/// Where corner (x, y) sits among the row-major corner sums of a grid
/// `w` columns wide.
pub open spec fn ix(w: int, x: int, y: int) -> int {
    y * (w + 1) + x
}

proof fn lemma_ix_bounds(w: int, h: int, x: int, y: int)
    requires
        0 <= w <= 65535,
        0 <= h <= 65535,
        0 <= x <= w,
        0 <= y <= h,
    ensures
        0 <= ix(w, x, y) < ix(w, 0, h + 1) <= 65536 * 65536,
        ix(w, x, y) < ix(w, 0, y + 1),
        ix(w, 0, y + 1) == ix(w, w, y) + 1,
{
    assert(0 <= y * (w + 1)) by (nonlinear_arith)
        requires
            0 <= y,
            0 <= w,
    ;
    assert(y * (w + 1) + x < (y + 1) * (w + 1)) by (nonlinear_arith)
        requires
            0 <= x <= w,
    ;
    assert((y + 1) * (w + 1) <= (h + 1) * (w + 1)) by (nonlinear_arith)
        requires
            y <= h,
            0 <= w,
    ;
    assert((h + 1) * (w + 1) <= 65536 * 65536) by (nonlinear_arith)
        requires
            0 <= w <= 65535,
            0 <= h <= 65535,
    ;
    assert((y + 1) * (w + 1) == y * (w + 1) + w + 1) by (nonlinear_arith);
}

proof fn lemma_ix_lt(w: int, h: int, x: int, y: int, y2: int)
    requires
        0 <= w <= 65535,
        0 <= h <= 65535,
        0 <= x <= w,
        0 <= y <= y2,
    ensures
        0 <= ix(w, x, y) < ix(w, 0, y2 + 1),
{
    assert(0 <= y * (w + 1)) by (nonlinear_arith)
        requires
            0 <= y,
            0 <= w,
    ;
    assert(y * (w + 1) + x < (y2 + 1) * (w + 1)) by (nonlinear_arith)
        requires
            0 <= x <= w,
            y <= y2,
    ;
}

/// Corner sums of the cells that are not blank, so that any rectangle is
/// counted in constant time (the placement tries many sizes over the whole
/// screen).
pub struct Blocked {
    /// The width of the counted grid: columns `0..w`.
    w: usize,
    /// The height of the counted grid: rows `0..h`.
    h: usize,
    /// `(w + 1) × (h + 1)` corner sums, row-major.
    sum: Vec<u32>,
    /// The buffer area's left edge.
    bx: u16,
    /// The buffer area's top edge.
    by: u16,
    /// Which buffer cells are blank.
    free: Ghost<Seq<bool>>,
    /// The buffer's area.
    ba: Ghost<Rect>,
}

impl Blocked {
    /// The blank cells the sums were taken from.
    pub closed spec fn grid(&self) -> Seq<bool> {
        self.free@
    }

    /// The area of the buffer the sums were taken from.
    pub closed spec fn buffer_area(&self) -> Rect {
        self.ba@
    }

    /// The sums are those of the grid.
    #[verifier::type_invariant]
    closed spec fn counts(&self) -> bool {
        &&& self.w == self.ba@.width
        &&& self.h == self.ba@.height
        &&& self.bx == self.ba@.x
        &&& self.by == self.ba@.y
        &&& self.free@.len() == self.ba@.width * self.ba@.height
        &&& self.sum@.len() == (self.w + 1) * (self.h + 1)
        &&& forall|x: int, y: int| 0 <= x <= self.w && 0 <= y <= self.h ==>
            #[trigger] self.sum@[y * (self.w + 1) + x] == area_used(self.free@, self.ba@, x, y)
    }

    /// The width of the counted grid (the buffer area's width).
    pub fn width(&self) -> (w: usize)
        ensures
            w == self.buffer_area().width,
    {
        proof {
            use_type_invariant(self);
        }
        self.w
    }

    /// The height of the counted grid (the buffer area's height).
    pub fn height(&self) -> (h: usize)
        ensures
            h == self.buffer_area().height,
    {
        proof {
            use_type_invariant(self);
        }
        self.h
    }

    /// The corner sums of a buffer whose area is `ba`; `free` tells, row by
    /// row, which of its cells are blank. The counted grid is columns
    /// `0..ba.width` and rows `0..ba.height`; a cell of it outside the
    /// buffer counts as not blank.
    pub fn of(free: &[bool], ba: Rect) -> (b: Blocked)
        requires
            free@.len() == ba.width * ba.height,
        ensures
            b.grid() == free@,
            b.buffer_area() == ba,
    {
        let w = ba.width as usize;
        let h = ba.height as usize;
        let ghost fr = free@;
        let mut sum: Vec<u32> = Vec::new();
        let mut x: usize = 0;
        while x <= w
            invariant
                w == ba.width,
                x <= w + 1,
                sum@.len() == x,
                forall|xx: int| 0 <= xx < x ==> #[trigger] sum@[ix(w as int, xx, 0)] == area_used(fr, ba, xx, 0),
            decreases w + 1 - x,
        {
            sum.push(0);
            x = x + 1;
        }
        let mut y: usize = 0;
        while y < h
            invariant
                w == ba.width,
                h == ba.height,
                fr == free@,
                free@.len() == ba.width * ba.height,
                y <= h,
                sum@.len() == ix(w as int, 0, y + 1),
                forall|xx: int, yy: int| 0 <= xx <= w && 0 <= yy <= y ==>
                    #[trigger] sum@[ix(w as int, xx, yy)] == area_used(fr, ba, xx, yy),
            decreases h - y,
        {
            let mut run: u32 = 0;
            let ghost start = sum@;
            sum.push(0);
            proof {
                lemma_area_used_bound(fr, ba, 0, y + 1);
                lemma_ix_bounds(w as int, h as int, 0, y as int);
                assert forall|xx: int, yy: int| 0 <= xx <= w && 0 <= yy <= y implies
                    #[trigger] sum@[ix(w as int, xx, yy)] == area_used(fr, ba, xx, yy) by {
                    lemma_ix_lt(w as int, h as int, xx, yy, y as int);
                    assert(start[ix(w as int, xx, yy)] == area_used(fr, ba, xx, yy));
                }
                assert(sum@[ix(w as int, 0, y + 1)] == 0);
            }
            let mut x: usize = 0;
            while x < w
                invariant
                    w == ba.width,
                    h == ba.height,
                    fr == free@,
                    free@.len() == ba.width * ba.height,
                    y < h,
                    x <= w,
                    run == row_used(fr, ba, y as int, x as int),
                    sum@.len() == ix(w as int, x as int, y + 1) + 1,
                    forall|xx: int, yy: int| 0 <= xx <= w && 0 <= yy <= y ==>
                        #[trigger] sum@[ix(w as int, xx, yy)] == area_used(fr, ba, xx, yy),
                    forall|xx: int| 0 <= xx <= x ==> #[trigger] sum@[ix(w as int, xx, y + 1)] == area_used(fr, ba, xx, y + 1),
                decreases w - x,
            {
                let inside = x >= ba.x as usize && y >= ba.y as usize && x < ba.x as usize + w && y < ba.y as usize + h;
                let cell_free = if inside {
                    proof {
                        assert((y - ba.y) * w + (x - ba.x) < w * h) by (nonlinear_arith)
                            requires
                                0 <= x - ba.x < w,
                                0 <= y - ba.y < h,
                        ;
                        assert(0 <= (y - ba.y) * w) by (nonlinear_arith)
                            requires
                                0 <= y - ba.y,
                        ;
                        assert(w * h <= 65535 * 65535) by (nonlinear_arith)
                            requires
                                w <= 65535,
                                h <= 65535,
                        ;
                    }
                    free[(y - ba.y as usize) * w + (x - ba.x as usize)]
                } else {
                    false
                };
                proof {
                    lemma_row_used_nonneg(fr, ba, y as int, x as int);
                    lemma_ix_bounds(w as int, h as int, x + 1, y as int);
                }
                if !cell_free {
                    run = run + 1;
                }
                proof {
                    assert(sum@[ix(w as int, x + 1, y as int)] == area_used(fr, ba, x + 1, y as int));
                }
                let above = sum[y * (w + 1) + x + 1];
                proof {
                    assert(above == area_used(fr, ba, x + 1, y as int));
                    lemma_area_used_bound(fr, ba, x + 1, y as int);
                    assert((x + 1) * y <= 65536 * 65535) by (nonlinear_arith)
                        requires
                            x + 1 <= 65536,
                            y <= 65535,
                    ;
                }
                let ghost before = sum@;
                sum.push(above + run);
                proof {
                    assert forall|xx: int, yy: int| 0 <= xx <= w && 0 <= yy <= y implies
                        #[trigger] sum@[ix(w as int, xx, yy)] == area_used(fr, ba, xx, yy) by {
                        lemma_ix_lt(w as int, h as int, xx, yy, y as int);
                        assert(before[ix(w as int, xx, yy)] == area_used(fr, ba, xx, yy));
                    }
                    assert forall|xx: int| 0 <= xx <= x + 1 implies #[trigger] sum@[ix(w as int, xx, y + 1)] == area_used(fr, ba, xx, y + 1) by {
                        if xx <= x {
                            assert(before[ix(w as int, xx, y + 1)] == area_used(fr, ba, xx, y + 1));
                        } else {
                            assert(sum@[ix(w as int, xx, y + 1)] == above + run);
                        }
                    }
                }
                x = x + 1;
            }
            proof {
                lemma_ix_bounds(w as int, h as int, 0, y + 1);
                assert forall|xx: int, yy: int| 0 <= xx <= w && 0 <= yy <= y + 1 implies
                    #[trigger] sum@[ix(w as int, xx, yy)] == area_used(fr, ba, xx, yy) by {
                    if yy == y + 1 {
                        assert(sum@[ix(w as int, xx, y + 1)] == area_used(fr, ba, xx, y + 1));
                    }
                }
            }
            y = y + 1;
        }
        proof {
            assert((w + 1) * (h + 1) == ix(w as int, 0, h + 1)) by (nonlinear_arith);
            assert forall|xx: int, yy: int| 0 <= xx <= w && 0 <= yy <= h implies
                #[trigger] sum@[yy * (w + 1) + xx] == area_used(fr, ba, xx, yy) by {
                assert(sum@[ix(w as int, xx, yy)] == area_used(fr, ba, xx, yy));
            }
        }
        Blocked { w, h, sum, bx: ba.x, by: ba.y, free: Ghost(free@), ba: Ghost(ba) }
    }

    /// How many cells of `r` are not blank; `u32::MAX` when `r` leaves the
    /// counted grid.
    pub fn count(&self, r: Rect) -> (n: u32)
        ensures
            ({
                let ba = self.buffer_area();
                &&& (r.x + r.width > ba.width || r.y + r.height > ba.height) ==> n == u32::MAX
                &&& !(r.x + r.width > ba.width || r.y + r.height > ba.height)
                    ==> n == rect_used(self.grid(), ba, r.x as int, r.x + r.width, r.y as int, r.y + r.height)
            }),
    {
        proof {
            use_type_invariant(self);
        }
        let ghost free = self.free;
        let ghost ba = self.ba;
        let x0 = r.x as usize;
        let y0 = r.y as usize;
        let x1 = x0 + r.width as usize;
        let y1 = y0 + r.height as usize;
        if x1 > self.w || y1 > self.h {
            return u32::MAX;
        }
        let w = self.w + 1;
        proof {
            assert(y1 * w + x1 <= 65535 * 65536 + 65535) by (nonlinear_arith)
                requires
                    y1 <= 65535,
                    w <= 65536,
                    x1 <= 65535,
            ;
            lemma_rect_from_corners(free@, ba@, x0 as int, x1 as int, y0 as int, y1 as int);
            assert(y1 * w + x1 < self.sum@.len()) by (nonlinear_arith)
                requires
                    x1 <= self.w,
                    y1 <= self.h,
                    w == self.w + 1,
                    self.sum@.len() == (self.w + 1) * (self.h + 1),
            ;
            assert(y0 * w + x1 <= y1 * w + x1) by (nonlinear_arith)
                requires
                    y0 <= y1,
            ;
            assert(y1 * w + x0 <= y1 * w + x1);
            assert(y0 * w + x0 <= y1 * w + x1) by (nonlinear_arith)
                requires
                    y0 <= y1,
                    x0 <= x1,
            ;
        }
        let a = self.sum[y1 * w + x1];
        let c = self.sum[y0 * w + x1];
        let d = self.sum[y1 * w + x0];
        let b = self.sum[y0 * w + x0];
        (a - c) - (d - b)
    }
}

/// Whether a watermark of `mw`×`mh` cells may go at (x, y): its rows, and
/// its columns widened by [`CLEARANCE`] on each side (cut at the grid's
/// edges), hold no cell that is not blank, all inside the counted grid.
pub open spec fn clear_at(free: Seq<bool>, ba: Rect, mw: int, mh: int, x: int, y: int) -> bool {
    let px = if x >= CLEARANCE { x - CLEARANCE } else { 0 };
    let px1 = if x + mw + CLEARANCE < ba.width { x + mw + CLEARANCE } else { ba.width as int };
    &&& y + mh <= ba.height
    &&& rect_used(free, ba, px, px1, y, y + mh) == 0
}

/// The first column, from `xh` leftwards in steps of [`STEP_X`] starting at
/// step `k` and not left of `xl`, where the watermark fits on row `y`.
pub open spec fn row_first(free: Seq<bool>, ba: Rect, mw: int, mh: int, xl: int, xh: int, y: int, k: int) -> Option<int>
    decreases xh - STEP_X * k - xl + STEP_X,
{
    let x = xh - STEP_X * k;
    if k < 0 || x < xl {
        None
    } else if clear_at(free, ba, mw, mh, x, y) {
        Some(x)
    } else {
        row_first(free, ba, mw, mh, xl, xh, y, k + 1)
    }
}

/// The first place, rows from `yh` upwards in steps of [`STEP_Y`] starting
/// at step `j` and not above `yl`, each row from the right, where the
/// watermark fits.
pub open spec fn grid_first(free: Seq<bool>, ba: Rect, mw: int, mh: int, xl: int, xh: int, yl: int, yh: int, j: int) -> Option<(int, int)>
    decreases yh - STEP_Y * j - yl + STEP_Y,
{
    let y = yh - STEP_Y * j;
    if j < 0 || y < yl {
        None
    } else {
        match row_first(free, ba, mw, mh, xl, xh, y, 0) {
            Some(x) => Some((x, y)),
            None => grid_first(free, ba, mw, mh, xl, xh, yl, yh, j + 1),
        }
    }
}

/// Where [`Blocked::scan`] puts an `mw`×`mh` watermark in `area`: the first
/// clean place on the placement grid, from the bottom right (the corner
/// with the least data) row by row upwards, keeping [`MARGIN_X`] from the
/// right edge, [`MARGIN_Y`] from the bottom and the margin plus the
/// clearance from the left.
pub open spec fn spec_scan(free: Seq<bool>, ba: Rect, area: Rect, mw: u16, mh: u16) -> Option<Rect> {
    let xl = area.x + MARGIN_X + CLEARANCE;
    let xh = area.x + area.width - (mw + MARGIN_X);
    let yl = area.y + MARGIN_Y;
    let yh = area.y + area.height - (mh + MARGIN_Y);
    if mw == 0 || mh == 0 || xh < 0 || yh < 0 || xh < xl || yh < yl {
        None
    } else {
        match grid_first(free, ba, mw as int, mh as int, xl, xh, yl, yh, 0) {
            Some(p) => Some(Rect { x: p.0 as u16, y: p.1 as u16, width: mw, height: mh }),
            None => None,
        }
    }
}

impl Blocked {
    /// A clean place for an `mw`×`mh` watermark in `area` (see [`spec_scan`]).
    pub fn scan(&self, area: Rect, mw: u16, mh: u16) -> (r: Option<Rect>)
        requires
            area.x + MARGIN_X + CLEARANCE <= u16::MAX,
            area.x + area.width < u16::MAX,
            area.y + area.height <= u16::MAX,
            area.y + MARGIN_Y <= u16::MAX,
            mw + MARGIN_X <= u16::MAX,
            mh + MARGIN_Y <= u16::MAX,
            area.x + area.width <= self.buffer_area().width + mw + MARGIN_X + CLEARANCE,
        ensures
            r == spec_scan(self.grid(), self.buffer_area(), area, mw, mh),
    {
        proof {
            use_type_invariant(self);
        }
        let ghost free = self.grid();
        let ghost ba = self.buffer_area();
        if mw == 0 || mh == 0 {
            return None;
        }
        let x_lo = area.x + MARGIN_X + CLEARANCE;
        let right = area.x + area.width;
        if right < mw + MARGIN_X {
            return None;
        }
        let x_hi = right - (mw + MARGIN_X);
        let y_lo = area.y + MARGIN_Y;
        let bottom = area.y + area.height;
        if bottom < mh + MARGIN_Y {
            return None;
        }
        let y_hi = bottom - (mh + MARGIN_Y);
        if x_hi < x_lo || y_hi < y_lo {
            return None;
        }
        let ghost xl = x_lo as int;
        let ghost xh = x_hi as int;
        let ghost yl = y_lo as int;
        let ghost yh = y_hi as int;
        let mut y = y_hi;
        let ghost mut j: int = 0;
        loop
            invariant
                yl <= y <= yh,
                y == yh - STEP_Y * j,
                0 <= j,
                xl <= xh,
                xh == x_hi,
                xl == x_lo,
                yl == y_lo,
                yh == y_hi,
                xl == area.x + MARGIN_X + CLEARANCE,
                xh == area.x + area.width - (mw + MARGIN_X),
                yl == area.y + MARGIN_Y,
                yh == area.y + area.height - (mh + MARGIN_Y),
                x_hi + mw + CLEARANCE <= u16::MAX,
                x_hi <= self.buffer_area().width + CLEARANCE,
                y_hi + mh + MARGIN_Y <= u16::MAX,
                free == self.grid(),
                ba == self.buffer_area(),
                mw > 0,
                mh > 0,
                grid_first(free, ba, mw as int, mh as int, xl, xh, yl, yh, 0) == grid_first(free, ba, mw as int, mh as int, xl, xh, yl, yh, j),
            decreases y,
        {
            let mut x = x_hi;
            let ghost mut k: int = 0;
            loop
                invariant
                    xl <= x <= xh,
                    x == xh - STEP_X * k,
                    0 <= k,
                    yl <= y <= yh,
                    y == yh - STEP_Y * j,
                    xh == x_hi,
                    xl == x_lo,
                    yl == y_lo,
                    yh == y_hi,
                    xl == area.x + MARGIN_X + CLEARANCE,
                    xh == area.x + area.width - (mw + MARGIN_X),
                    yl == area.y + MARGIN_Y,
                    yh == area.y + area.height - (mh + MARGIN_Y),
                    grid_first(free, ba, mw as int, mh as int, xl, xh, yl, yh, 0) == grid_first(free, ba, mw as int, mh as int, xl, xh, yl, yh, j),
                    x_hi + mw + CLEARANCE <= u16::MAX,
                    x_hi <= self.buffer_area().width + CLEARANCE,
                    free == self.grid(),
                    ba == self.buffer_area(),
                    mw > 0,
                    mh > 0,
                    row_first(free, ba, mw as int, mh as int, xl, xh, y as int, 0) == row_first(free, ba, mw as int, mh as int, xl, xh, y as int, k),
                ensures
                    row_first(free, ba, mw as int, mh as int, xl, xh, y as int, 0) == None::<int>,
                decreases x,
            {
                proof {
                    use_type_invariant(self);
                }
                let px = if x >= CLEARANCE { x - CLEARANCE } else { 0 };
                let px1 = if x + mw + CLEARANCE < self.w as u16 { x + mw + CLEARANCE } else { self.w as u16 };
                assert(px <= px1);
                let probe = Rect { x: px, y, width: px1 - px, height: mh };
                if self.count(probe) == 0 {
                    proof {
                        assert(clear_at(free, ba, mw as int, mh as int, x as int, y as int));
                        assert(row_first(free, ba, mw as int, mh as int, xl, xh, y as int, k) == Some(x as int));
                        assert(grid_first(free, ba, mw as int, mh as int, xl, xh, yl, yh, j) == Some((x as int, y as int)));
                    }
                    return Some(Rect { x, y, width: mw, height: mh });
                }
                if x < x_lo + STEP_X {
                    proof {
                        assert(row_first(free, ba, mw as int, mh as int, xl, xh, y as int, k + 1) == None::<int>);
                    }
                    break;
                }
                x = x - STEP_X;
                proof {
                    k = k + 1;
                }
            }
            if y < y_lo + STEP_Y {
                proof {
                    assert(grid_first(free, ba, mw as int, mh as int, xl, xh, yl, yh, j + 1) == None::<(int, int)>);
                }
                return None;
            }
            y = y - STEP_Y;
            proof {
                j = j + 1;
            }
        }
    }
}

/// Whether the watermark can stay at `r`: it lies inside `area`, and every
/// cell of its rows, in its columns widened by [`CLEARANCE`] on each side
/// (cut at the buffer's edges), is a blank cell of the buffer.
pub open spec fn spec_is_clear(free: Seq<bool>, ba: Rect, area: Rect, r: Rect) -> bool {
    let x0 = if r.x >= CLEARANCE + ba.x { r.x - CLEARANCE } else if r.x >= CLEARANCE { ba.x as int } else if 0 >= ba.x { 0 } else { ba.x as int };
    let x1 = if r.x + r.width + CLEARANCE < ba.x + ba.width { r.x + r.width + CLEARANCE } else { ba.x + ba.width };
    &&& area.x <= r.x
    &&& area.y <= r.y
    &&& r.x + r.width <= area.x + area.width
    &&& r.y + r.height <= area.y + area.height
    &&& forall|x: int, y: int| x0 <= x < x1 && r.y <= y < r.y + r.height ==> #[trigger] free_at(free, ba, x, y)
}

/// Whether a watermark can stay where it was (see [`spec_is_clear`]);
/// `free` tells, row by row, which cells of the buffer area `ba` are blank.
pub fn is_clear(free: &[bool], ba: Rect, area: Rect, r: Rect) -> (b: bool)
    requires
        free@.len() == ba.width * ba.height,
        ba.x + ba.width <= u16::MAX,
        ba.y + ba.height <= u16::MAX,
        r.x + r.width + CLEARANCE <= u16::MAX,
        r.y + r.height <= u16::MAX,
        area.x + area.width <= u16::MAX,
        area.y + area.height <= u16::MAX,
    ensures
        b == spec_is_clear(free@, ba, area, r),
{
    if r.x < area.x || r.y < area.y {
        return false;
    }
    if r.x + r.width > area.x + area.width || r.y + r.height > area.y + area.height {
        return false;
    }
    let sx = if r.x >= CLEARANCE { r.x - CLEARANCE } else { 0 };
    let x0 = if sx > ba.x { sx } else { ba.x };
    let ex = r.x + r.width + CLEARANCE;
    let x1 = if ex < ba.x + ba.width { ex } else { ba.x + ba.width };
    assert(x0 == (if r.x >= CLEARANCE + ba.x { r.x - CLEARANCE } else if r.x >= CLEARANCE { ba.x as int } else if 0 >= ba.x { 0 } else { ba.x as int }));
    assert(x1 == (if r.x + r.width + CLEARANCE < ba.x + ba.width { r.x + r.width + CLEARANCE } else { ba.x + ba.width }));
    let mut y = r.y;
    assert(x0 >= ba.x);
    while y < r.y + r.height
        invariant
            free@.len() == ba.width * ba.height,
            ba.x + ba.width <= u16::MAX,
            ba.y + ba.height <= u16::MAX,
            r.y + r.height <= u16::MAX,
            x0 >= ba.x,
            x1 <= ba.x + ba.width,
            x0 == (if r.x >= CLEARANCE + ba.x { r.x - CLEARANCE } else if r.x >= CLEARANCE { ba.x as int } else if 0 >= ba.x { 0 } else { ba.x as int }),
            x1 == (if r.x + r.width + CLEARANCE < ba.x + ba.width { r.x + r.width + CLEARANCE } else { ba.x + ba.width }),
            area.x <= r.x,
            area.y <= r.y,
            r.x + r.width <= area.x + area.width,
            r.y + r.height <= area.y + area.height,
            r.y <= y <= r.y + r.height,
            forall|xx: int, yy: int| x0 <= xx < x1 && r.y <= yy < y ==> #[trigger] free_at(free@, ba, xx, yy),
        decreases r.y + r.height - y,
    {
        let mut x = x0;
        while x < x1
            invariant
                free@.len() == ba.width * ba.height,
                ba.x + ba.width <= u16::MAX,
                ba.y + ba.height <= u16::MAX,
                r.y <= y < r.y + r.height,
                x0 >= ba.x,
                x0 == (if r.x >= CLEARANCE + ba.x { r.x - CLEARANCE } else if r.x >= CLEARANCE { ba.x as int } else if 0 >= ba.x { 0 } else { ba.x as int }),
                x1 == (if r.x + r.width + CLEARANCE < ba.x + ba.width { r.x + r.width + CLEARANCE } else { ba.x + ba.width }),
                area.x <= r.x,
                area.y <= r.y,
                r.x + r.width <= area.x + area.width,
                r.y + r.height <= area.y + area.height,
                x0 <= x,
                x1 <= ba.x + ba.width,
                forall|xx: int, yy: int| x0 <= xx < x1 && r.y <= yy < y ==> #[trigger] free_at(free@, ba, xx, yy),
                forall|xx: int| x0 <= xx < x ==> #[trigger] free_at(free@, ba, xx, y as int),
            decreases x1 - x,
        {
            let inside = x >= ba.x && y >= ba.y && y < ba.y + ba.height;
            if !inside {
                assert(!free_at(free@, ba, x as int, y as int));
                return false;
            }
            proof {
                assert((y - ba.y) * ba.width + (x - ba.x) < ba.width * ba.height) by (nonlinear_arith)
                    requires
                        0 <= x - ba.x < ba.width,
                        0 <= y - ba.y < ba.height,
                ;
                assert(0 <= (y - ba.y) * ba.width) by (nonlinear_arith)
                    requires
                        0 <= y - ba.y,
                ;
                assert(ba.width * ba.height <= 65535 * 65535) by (nonlinear_arith)
                    requires
                        ba.width <= 65535,
                        ba.height <= 65535,
                ;
            }
            let i = (y - ba.y) as usize * ba.width as usize + (x - ba.x) as usize;
            if !free[i] {
                assert(!free_at(free@, ba, x as int, y as int));
                return false;
            }
            x = x + 1;
        }
        y = y + 1;
    }
    true
}

/// The first size of `sizes` that fits, with its place: the old place
/// `last` when it still holds exactly that size and is still clean, else
/// the first clean place of the placement grid.
pub open spec fn spec_place(free: Seq<bool>, ba: Rect, area: Rect, sizes: Seq<(u16, u16, u16)>, last: Option<Rect>, i: int) -> Option<(u16, Rect)>
    decreases sizes.len() - i,
{
    if i < 0 || i >= sizes.len() {
        None
    } else {
        let (rows, w, h) = sizes[i];
        match last {
            Some(r) if r.width == w && r.height == h && spec_is_clear(free, ba, area, r) => Some((rows, r)),
            _ => match spec_scan(free, ba, area, w, h) {
                Some(at) => Some((rows, at)),
                None => spec_place(free, ba, area, sizes, last, i + 1),
            },
        }
    }
}

impl Blocked {
    /// Where the watermark goes: `sizes` lists `(rows shown, width, height)`
    /// from the most complete; the first that fits is taken. A place that is
    /// still clean is kept (the silhouette does not jump when the page
    /// changes), but the size is always the largest that fits now.
    pub fn place_reveal(&self, free: &[bool], area: Rect, sizes: &[(u16, u16, u16)], last: Option<Rect>) -> (r: Option<(u16, Rect)>)
        requires
            free@ == self.grid(),
            self.buffer_area().x + self.buffer_area().width <= u16::MAX,
            self.buffer_area().y + self.buffer_area().height <= u16::MAX,
            area.x + MARGIN_X + CLEARANCE <= u16::MAX,
            area.x + area.width < u16::MAX,
            area.y + area.height <= u16::MAX,
            area.y + MARGIN_Y <= u16::MAX,
            last matches Some(l) ==> l.x + l.width + CLEARANCE <= u16::MAX && l.y + l.height <= u16::MAX,
            forall|i: int| 0 <= i < sizes@.len() ==> {
                let s = #[trigger] sizes@[i];
                &&& s.1 + MARGIN_X <= u16::MAX
                &&& s.2 + MARGIN_Y <= u16::MAX
                &&& area.x + area.width <= self.buffer_area().width + s.1 + MARGIN_X + CLEARANCE
            },
        ensures
            r == spec_place(self.grid(), self.buffer_area(), area, sizes@, last, 0),
    {
        proof {
            use_type_invariant(self);
        }
        let ba = Rect { x: self.ba_x(), y: self.ba_y(), width: self.w as u16, height: self.h as u16 };
        let mut i: usize = 0;
        while i < sizes.len()
            invariant
                free@ == self.grid(),
                ba == self.buffer_area(),
                ba.x + ba.width <= u16::MAX,
                ba.y + ba.height <= u16::MAX,
                free@.len() == ba.width * ba.height,
                area.x + MARGIN_X + CLEARANCE <= u16::MAX,
                area.x + area.width < u16::MAX,
                area.y + area.height <= u16::MAX,
                area.y + MARGIN_Y <= u16::MAX,
                last matches Some(l) ==> l.x + l.width + CLEARANCE <= u16::MAX && l.y + l.height <= u16::MAX,
                forall|k: int| 0 <= k < sizes@.len() ==> {
                    let s = #[trigger] sizes@[k];
                    &&& s.1 + MARGIN_X <= u16::MAX
                    &&& s.2 + MARGIN_Y <= u16::MAX
                    &&& area.x + area.width <= ba.width + s.1 + MARGIN_X + CLEARANCE
                },
                i <= sizes@.len(),
                spec_place(self.grid(), ba, area, sizes@, last, 0) == spec_place(self.grid(), ba, area, sizes@, last, i as int),
            decreases sizes@.len() - i,
        {
            let (rows, w, h) = sizes[i];
            let ghost s = sizes@[i as int];
            if let Some(r) = last {
                if r.width == w && r.height == h && is_clear(free, ba, area, r) {
                    return Some((rows, r));
                }
            }
            if let Some(at) = self.scan(area, w, h) {
                return Some((rows, at));
            }
            i = i + 1;
        }
        None
    }

    /// The buffer area's left edge.
    fn ba_x(&self) -> (x: u16)
        ensures
            x == self.buffer_area().x,
    {
        proof {
            use_type_invariant(self);
        }
        self.bx
    }

    /// The buffer area's top edge.
    fn ba_y(&self) -> (y: u16)
        ensures
            y == self.buffer_area().y,
    {
        proof {
            use_type_invariant(self);
        }
        self.by
    }
}

proof fn lemma_row_zero(free: Seq<bool>, ba: Rect, y: int, x0: int, x1: int)
    requires
        0 <= x0 <= x1,
        row_used(free, ba, y, x1) == row_used(free, ba, y, x0),
    ensures
        forall|x: int| x0 <= x < x1 ==> #[trigger] free_at(free, ba, x, y),
    decreases x1 - x0,
{
    if x0 < x1 {
        lemma_row_used_mono(free, ba, y, x0, x1 - 1);
        lemma_row_zero(free, ba, y, x0, x1 - 1);
    }
}

proof fn lemma_rect_zero(free: Seq<bool>, ba: Rect, x0: int, x1: int, y0: int, y1: int)
    requires
        0 <= x0 <= x1,
        0 <= y0 <= y1,
        rect_used(free, ba, x0, x1, y0, y1) == 0,
    ensures
        forall|x: int, y: int| x0 <= x < x1 && y0 <= y < y1 ==> #[trigger] free_at(free, ba, x, y),
    decreases y1 - y0,
{
    if y0 < y1 {
        lemma_rect_from_corners(free, ba, x0, x1, y0, y1 - 1);
        lemma_row_used_mono(free, ba, y1 - 1, x0, x1);
        lemma_rect_zero(free, ba, x0, x1, y0, y1 - 1);
        lemma_row_zero(free, ba, y1 - 1, x0, x1);
        assert forall|x: int, y: int| x0 <= x < x1 && y0 <= y < y1 implies #[trigger] free_at(free, ba, x, y) by {
            if y == y1 - 1 {
                assert(free_at(free, ba, x, y1 - 1));
            }
        }
    }
}

proof fn lemma_row_first_clear(free: Seq<bool>, ba: Rect, mw: int, mh: int, xl: int, xh: int, y: int, k: int)
    ensures
        row_first(free, ba, mw, mh, xl, xh, y, k) matches Some(x) ==> xl <= x <= xh - STEP_X * k && clear_at(free, ba, mw, mh, x, y),
    decreases xh - STEP_X * k - xl + STEP_X,
{
    let x = xh - STEP_X * k;
    if k >= 0 && x >= xl && !clear_at(free, ba, mw, mh, x, y) {
        lemma_row_first_clear(free, ba, mw, mh, xl, xh, y, k + 1);
    }
}

proof fn lemma_grid_first_clear(free: Seq<bool>, ba: Rect, mw: int, mh: int, xl: int, xh: int, yl: int, yh: int, j: int)
    ensures
        grid_first(free, ba, mw, mh, xl, xh, yl, yh, j) matches Some(p) ==> xl <= p.0 <= xh && yl <= p.1 <= yh && clear_at(free, ba, mw, mh, p.0, p.1),
    decreases yh - STEP_Y * j - yl + STEP_Y,
{
    let y = yh - STEP_Y * j;
    if j >= 0 && y >= yl {
        lemma_row_first_clear(free, ba, mw, mh, xl, xh, y, 0);
        if row_first(free, ba, mw, mh, xl, xh, y, 0) is None {
            lemma_grid_first_clear(free, ba, mw, mh, xl, xh, yl, yh, j + 1);
        }
    }
}

/// A watermark placed by the grid search lies on blank cells only, with the
/// clearance columns beside it blank too, inside the area's margins.
pub proof fn lemma_scan_lands_on_blank_cells(free: Seq<bool>, ba: Rect, area: Rect, mw: u16, mh: u16)
    requires
        area.x + area.width <= ba.width,
    ensures
        spec_scan(free, ba, area, mw, mh) matches Some(r) ==> {
            &&& r.width == mw && r.height == mh
            &&& area.x + MARGIN_X + CLEARANCE <= r.x
            &&& r.x + r.width + MARGIN_X <= area.x + area.width
            &&& area.y + MARGIN_Y <= r.y
            &&& r.y + r.height + MARGIN_Y <= area.y + area.height
            &&& forall|x: int, y: int| r.x - CLEARANCE <= x < r.x + r.width + CLEARANCE && x < ba.width && r.y <= y < r.y + r.height
                ==> #[trigger] free_at(free, ba, x, y)
        },
{
    let xl = area.x + MARGIN_X + CLEARANCE;
    let xh = area.x + area.width - (mw + MARGIN_X);
    let yl = area.y + MARGIN_Y;
    let yh = area.y + area.height - (mh + MARGIN_Y);
    if !(mw == 0 || mh == 0 || xh < 0 || yh < 0 || xh < xl || yh < yl) {
        lemma_grid_first_clear(free, ba, mw as int, mh as int, xl, xh, yl, yh, 0);
        match grid_first(free, ba, mw as int, mh as int, xl, xh, yl, yh, 0) {
            Some(p) => {
                let (x, y) = p;
                let px = if x >= CLEARANCE { x - CLEARANCE } else { 0 };
                let px1 = if x + mw + CLEARANCE < ba.width { x + mw + CLEARANCE } else { ba.width as int };
                lemma_rect_zero(free, ba, px, px1, y, y + mh);
            },
            None => {},
        }
    }
}

/// The watermark never covers anything: wherever it is placed, old place
/// or new, every cell it takes inside the buffer is blank.
pub proof fn lemma_watermark_never_covers_data(free: Seq<bool>, ba: Rect, area: Rect, sizes: Seq<(u16, u16, u16)>, last: Option<Rect>, i: int)
    requires
        area.x + area.width <= ba.width,
    ensures
        spec_place(free, ba, area, sizes, last, i) matches Some(p) ==>
            forall|x: int, y: int| p.1.x <= x < p.1.x + p.1.width && p.1.y <= y < p.1.y + p.1.height
                && ba.x <= x < ba.x + ba.width && ba.y <= y < ba.y + ba.height ==> #[trigger] free_at(free, ba, x, y),
    decreases sizes.len() - i,
{
    if 0 <= i < sizes.len() {
        let (rows, w, h) = sizes[i];
        lemma_scan_lands_on_blank_cells(free, ba, area, w, h);
        match last {
            Some(r) => {
                if r.width == w && r.height == h && spec_is_clear(free, ba, area, r) {
                    let x0 = if r.x >= CLEARANCE + ba.x { r.x - CLEARANCE } else if r.x >= CLEARANCE { ba.x as int } else if 0 >= ba.x { 0 } else { ba.x as int };
                    let x1 = if r.x + r.width + CLEARANCE < ba.x + ba.width { r.x + r.width + CLEARANCE } else { ba.x + ba.width };
                    assert forall|x: int, y: int| r.x <= x < r.x + r.width && r.y <= y < r.y + r.height
                        && ba.x <= x < ba.x + ba.width && ba.y <= y < ba.y + ba.height implies #[trigger] free_at(free, ba, x, y) by {
                        assert(x0 <= x < x1);
                    }
                } else if spec_scan(free, ba, area, w, h) is None {
                    lemma_watermark_never_covers_data(free, ba, area, sizes, last, i + 1);
                }
            },
            None => {
                if spec_scan(free, ba, area, w, h) is None {
                    lemma_watermark_never_covers_data(free, ba, area, sizes, last, i + 1);
                }
            },
        }
    }
}

} // verus!
