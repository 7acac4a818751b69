//! Responsive layout arithmetic.
//!
//! Terminals range from 80×24 over SSH to 200×60 full screen: the layout
//! degrades step by step instead of breaking or panicking.

use vstd::prelude::*;
use ratatui::layout as rl;

verus! {

/// A rectangle of terminal cells.
#[derive(Clone, Copy, Debug, PartialEq, Eq, Hash, Default)]
pub struct Rect {
    pub x: u16,
    pub y: u16,
    pub width: u16,
    pub height: u16,
}

/// The rectangle fits on the `u16` grid: its right and bottom edges do not
/// overflow.
pub open spec fn on_grid(r: Rect) -> bool {
    r.x + r.width <= u16::MAX && r.y + r.height <= u16::MAX
}

impl Rect {
    /// A rectangle, with width and height clamped so that it stays on the grid.
    pub fn new(x: u16, y: u16, width: u16, height: u16) -> (r: Rect)
        ensures
            r.x == x && r.y == y,
            r.width == if x + width <= u16::MAX { width as int } else { u16::MAX - x },
            r.height == if y + height <= u16::MAX { height as int } else { u16::MAX - y },
            on_grid(r),
    {
        let width = if width <= u16::MAX - x { width } else { u16::MAX - x };
        let height = if height <= u16::MAX - y { height } else { u16::MAX - y };
        Rect { x, y, width, height }
    }
}

/// Which layout a terminal size gets.
#[derive(Clone, Copy, Debug, PartialEq, Eq)]
pub enum Density {
    /// At least 132×26: two columns, everything shown.
    Wide,
    /// At least 96×30: one column, every panel.
    Tall,
    /// At least 60×16: only the most important panels.
    Compact,
    /// Smaller still: a hint only.
    TooSmall,
}

impl Density {
    /// Classifies a terminal by its size.
    pub fn of(area: Rect) -> (d: Density)
        ensures
            d == if area.width < 60 || area.height < 16 {
                Density::TooSmall
            } else if area.width >= 132 && area.height >= 26 {
                Density::Wide
            } else if area.width >= 96 && area.height >= 30 {
                Density::Tall
            } else {
                Density::Compact
            },
    {
        let (w, h) = (area.width, area.height);
        if w < 60 || h < 16 {
            Density::TooSmall
        } else if w >= 132 && h >= 26 {
            Density::Wide
        } else if w >= 96 && h >= 30 {
            Density::Tall
        } else {
            Density::Compact
        }
    }
}

/// A fixed-height top part and the rest below it.
pub fn split_top(area: Rect, top: u16) -> (r: (Rect, Rect))
    requires
        on_grid(area),
    ensures
        ({
            let t = if top < area.height { top } else { area.height };
            &&& r.0 == Rect { height: t, ..area }
            &&& r.1 == Rect { y: (area.y + t) as u16, height: (area.height - t) as u16, ..area }
        }),
{
    let top = if top < area.height { top } else { area.height };
    (
        Rect { x: area.x, y: area.y, width: area.width, height: top },
        Rect { x: area.x, y: area.y + top, width: area.width, height: area.height - top },
    )
}

/// The window [`centered`] gives.
pub open spec fn centered_spec(area: Rect, max_w: int, max_h: int) -> Rect {
    let aw = if area.width >= 2 { area.width - 2 } else { 0 };
    let ah = if area.height >= 2 { area.height - 2 } else { 0 };
    let w0 = if max_w < aw { max_w } else { aw };
    let h0 = if max_h < ah { max_h } else { ah };
    let w = if w0 < 1 { 1 } else { w0 };
    let h = if h0 < 1 { 1 } else { h0 };
    Rect {
        x: (area.x + (if area.width >= w { area.width - w } else { 0 }) / 2) as u16,
        y: (area.y + (if area.height >= h { area.height - h } else { 0 }) / 2) as u16,
        width: w as u16,
        height: h as u16,
    }
}

/// A floating window centred in `area` (help, explain, confirmations): at
/// most `max_w`×`max_h`, at most the area less one cell on each side, at
/// least 1×1.
pub fn centered(area: Rect, max_w: u16, max_h: u16) -> (r: Rect)
    requires
        on_grid(area),
    ensures
        r == centered_spec(area, max_w as int, max_h as int),
        r.width >= 1 && r.height >= 1,
        area.width >= 1 ==> r.x + r.width <= area.x + area.width,
        area.height >= 1 ==> r.y + r.height <= area.y + area.height,
{
    let aw = if area.width >= 2 { area.width - 2 } else { 0 };
    let ah = if area.height >= 2 { area.height - 2 } else { 0 };
    let w0 = if max_w < aw { max_w } else { aw };
    let h0 = if max_h < ah { max_h } else { ah };
    let w = if w0 < 1 { 1 } else { w0 };
    let h = if h0 < 1 { 1 } else { h0 };
    let dx = if area.width >= w { area.width - w } else { 0 };
    let dy = if area.height >= h { area.height - h } else { 0 };
    Rect { x: area.x + dx / 2, y: area.y + dy / 2, width: w, height: h }
}

/// Clamps a scroll position so that a list of `total` rows shown `visible`
/// at a time never scrolls past its end.
pub fn clamp_scroll(scroll: usize, total: usize, visible: usize) -> (r: usize)
    ensures
        r == clamp_spec(scroll as int, total as int, visible as int),
        r <= scroll,
        r + visible <= total || r == 0,
{
    let max = if total >= visible { total - visible } else { 0 };
    if scroll < max { scroll } else { max }
}

/// The rows of a list of `len` to show when `selected` is picked and
/// `visible` fit: the selection sits in the middle where it can, and the
/// window never runs past the end.
pub fn window(selected: usize, len: usize, visible: usize) -> (r: (usize, usize))
    ensures
        r.0 == clamp_spec(if selected >= visible / 2 { selected - visible / 2 } else { 0 }, len as int, visible as int),
        r.1 == if r.0 + visible < len { r.0 + visible } else { len as int },
        r.0 <= r.1 || len == 0,
{
    let half = visible / 2;
    let start = clamp_scroll(if selected >= half { selected - half } else { 0 }, len, visible);
    let end = if visible < len - start && start <= len { start + visible } else { len };
    (start, end)
}

/// The value of [`clamp_scroll`].
pub open spec fn clamp_spec(scroll: int, total: int, visible: int) -> int {
    let max = if total >= visible { total - visible } else { 0 };
    if scroll < max { scroll } else { max }
}

/// A size rule for one part of a split.
#[derive(Clone, Copy, Debug, PartialEq, Eq)]
pub enum Constraint {
    /// Exactly this many cells.
    Length(u16),
    /// At least this many cells.
    Min(u16),
    /// A share of what is left, in proportion to the weight.
    Fill(u16),
}

/// Part `p` of a split of `area` lies inside it: a vertical split keeps the
/// area's columns and cuts its rows, a horizontal one keeps its rows and
/// cuts its columns.
pub open spec fn part_of(p: Rect, area: Rect, vertical: bool) -> bool {
    if vertical {
        &&& p.x == area.x && p.width == area.width
        &&& on_grid(area) ==> area.y <= p.y && p.y + p.height <= area.y + area.height
    } else {
        &&& p.y == area.y && p.height == area.height
        &&& on_grid(area) ==> area.x <= p.x && p.x + p.width <= area.x + area.width
    }
}

/// `ratatui::layout::Layout::split` on a layout with the given direction and
/// constraints (no margin, no spacing).
///
/// What the source makes certain, whatever the solver picks: one part per
/// constraint; each part keeps the area's position and size across the
/// split (`changes_to_rects`); and, the area's ends and every boundary being
/// `REQUIRED` to lie between them with each part's start before its end,
/// each part lies inside the area. Left unsaid: that the parts follow each
/// other without gap or overlap. The source asks that of the spacers
/// between parts only at a strength below `REQUIRED`, and the solver
/// weighs it against the others.
#[verifier::external_body]
fn layout_split(area: Rect, vertical: bool, cs: &[Constraint]) -> (r: Vec<Rect>)
    ensures
        r@.len() == cs@.len(),
        forall|i: int| 0 <= i < r@.len() ==> part_of(#[trigger] r@[i], area, vertical),
{
    let dir = if vertical { rl::Direction::Vertical } else { rl::Direction::Horizontal };
    let area = rl::Rect { x: area.x, y: area.y, width: area.width, height: area.height };
    let parts = rl::Layout::default().direction(dir).constraints(cs.iter().map(|c| match *c {
        Constraint::Length(n) => rl::Constraint::Length(n),
        Constraint::Min(n) => rl::Constraint::Min(n),
        Constraint::Fill(n) => rl::Constraint::Fill(n),
    })).split(area);
    parts.iter().map(|p| Rect { x: p.x, y: p.y, width: p.width, height: p.height }).collect()
}

/// The screen's frame, as the layout solver cuts `area`: a two-row header,
/// the body (at least one row) and a one-row footer, each across the whole
/// width and inside the area.
pub fn chrome(area: Rect) -> (r: (Rect, Rect, Rect))
    ensures
        part_of(r.0, area, true),
        part_of(r.1, area, true),
        part_of(r.2, area, true),
{
    let cs = [Constraint::Length(2), Constraint::Min(1), Constraint::Length(1)];
    let v = layout_split(area, true, &cs);
    (v[0], v[1], v[2])
}

/// The fill constraints for the given weights.
pub open spec fn fills(weights: Seq<u16>) -> Seq<Constraint> {
    weights.map_values(|w: u16| Constraint::Fill(w))
}

fn fill_constraints(weights: &[u16]) -> (cs: Vec<Constraint>)
    ensures
        cs@ == fills(weights@),
{
    let mut cs: Vec<Constraint> = Vec::new();
    let mut i: usize = 0;
    while i < weights.len()
        invariant
            i <= weights@.len(),
            cs@ == fills(weights@.take(i as int)),
        decreases weights@.len() - i,
    {
        cs.push(Constraint::Fill(weights[i]));
        i = i + 1;
        assert(cs@ =~= fills(weights@.take(i as int)));
    }
    assert(weights@.take(weights@.len() as int) =~= weights@);
    cs
}

/// Rows of `area` in proportion to `weights`; the whole area when there are
/// no weights.
pub fn rows(area: Rect, weights: &[u16]) -> (r: Vec<Rect>)
    ensures
        weights@.len() == 0 ==> r@ == seq![area],
        weights@.len() > 0 ==> r@.len() == weights@.len(),
        forall|i: int| 0 <= i < r@.len() ==> part_of(#[trigger] r@[i], area, true),
{
    if weights.len() == 0 {
        let mut v: Vec<Rect> = Vec::new();
        v.push(area);
        return v;
    }
    let cs = fill_constraints(weights);
    layout_split(area, true, cs.as_slice())
}

/// Columns of `area` in proportion to `weights`; the whole area when there
/// are no weights.
pub fn cols(area: Rect, weights: &[u16]) -> (r: Vec<Rect>)
    ensures
        weights@.len() == 0 ==> r@ == seq![area],
        weights@.len() > 0 ==> r@.len() == weights@.len(),
        forall|i: int| 0 <= i < r@.len() ==> part_of(#[trigger] r@[i], area, false),
{
    if weights.len() == 0 {
        let mut v: Vec<Rect> = Vec::new();
        v.push(area);
        return v;
    }
    let cs = fill_constraints(weights);
    layout_split(area, false, cs.as_slice())
}

/// Reserves the overview's bottom row for the highlights strip, when the
/// panels keep at least 20 rows above it; otherwise the strip is left out
/// (squeezed panels cost more than a missing line of highlights).
pub fn reserve_strip(area: Rect) -> (r: (Rect, Option<Rect>))
    requires
        on_grid(area),
    ensures
        area.height < 21 ==> r == (area, None::<Rect>),
        area.height >= 21 ==> r == (Rect { height: (area.height - 1) as u16, ..area },
            Some(Rect { y: (area.y + area.height - 1) as u16, height: 1, ..area })),
{
    if area.height < 21 {
        return (area, None);
    }
    let (top, bottom) = split_top(area, area.height - 1);
    (top, Some(bottom))
}

/// How many rows the overview's grid of cores takes: one cell of eight
/// columns per core, at most four rows; none without cores or below 16
/// columns.
pub fn core_grid_rows(n: usize, width: u16) -> (r: u16)
    ensures
        r == if n == 0 || width < 16 {
            0
        } else {
            let per_row = (width / 8) as int;
            let rows = n as int / per_row + if n as int % per_row == 0 { 0int } else { 1int };
            if rows < 4 { rows } else { 4 }
        },
{
    if n == 0 || width < 16 {
        return 0;
    }
    let per_row = (width / 8) as usize;
    let q = n / per_row;
    assert(q < n) by (nonlinear_arith)
        requires
            per_row >= 2,
            n >= 1,
            q == n / per_row,
    ;
    let rows = q + if n % per_row == 0 { 0 } else { 1 };
    if rows < 4 { rows as u16 } else { 4 }
}

/// The user chart's areas: the waffle on top and a one-row legend at the
/// bottom, with a blank row between them when the area has five rows or
/// more (the solid cells would otherwise run into the legend's first
/// glyph); `None` below three rows.
pub fn waffle_and_legend(area: Rect) -> (r: Option<(Rect, Rect)>)
    requires
        on_grid(area),
    ensures
        area.height < 3 ==> r is None,
        area.height >= 3 ==> ({
            let gap = if area.height >= 5 { 1int } else { 0int };
            let top = area.height - 1 - gap;
            r == Some((Rect { height: top as u16, ..area },
                Rect { y: (area.y + top + gap) as u16, height: (area.height - top - gap) as u16, ..area }))
        }),
{
    if area.height < 3 {
        return None;
    }
    let gap: u16 = if area.height >= 5 { 1 } else { 0 };
    let (grid, legend) = split_top(area, area.height - 1 - gap);
    Some((grid, Rect { y: legend.y + gap, height: legend.height - gap, ..legend }))
}

} // verus!
