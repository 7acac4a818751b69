//! Small pieces of the data visualisations.

use vstd::prelude::*;
use crate::chars::{owned, push_char, str_width};
use crate::format::width;
use crate::layout::{on_grid, Rect};
use crate::visual::pattern::{spec_ramp, Pattern};

verus! {

/// The character for one waffle cell: solid cells use `▇` rather than `█`,
/// leaving a hairline between rows so that two rows of one user's cells
/// still read as a grid; other patterns are used as they are.
pub fn waffle_glyph(p: Pattern) -> (c: char)
    ensures
        c == if spec_ramp(p).last() == '\u{2588}' { '\u{2587}' } else { spec_ramp(p).last() },
{
    let g = p.glyph();
    if g == '\u{2588}' { '\u{2587}' } else { g }
}

/// Where slice `i` of a waffle stops (past its last cell), its `shares`
/// being each slice's running proportional share of the cells left after
/// every slice got one: at least one cell past the previous slice, at most
/// the slice's place plus its share, cut at the grid.
pub open spec fn waffle_end(shares: Seq<usize>, total: int, i: int) -> int
    decreases i + 1,
{
    if i < 0 {
        0
    } else {
        let prev = waffle_end(shares, total, i - 1);
        let e = if i + 1 + shares[i] < total { i + 1 + shares[i] } else { total };
        if e > prev + 1 { e } else { prev + 1 }
    }
}

/// Which slice cell `c` shows, looking from slice `i` on: the first slice
/// whose end lies past the cell; cells past every slice go to the last one
/// (rounding must not leave a hole at the end).
pub open spec fn cell_owner(shares: Seq<usize>, total: int, c: int, i: int) -> Option<usize>
    decreases shares.len() - i,
{
    if i < 0 || i >= shares.len() {
        if shares.len() > 0 { Some((shares.len() - 1) as usize) } else { None }
    } else if c < waffle_end(shares, total, i) {
        Some(i as usize)
    } else {
        cell_owner(shares, total, c, i + 1)
    }
}

proof fn lemma_end_grows(shares: Seq<usize>, total: int, i: int)
    requires
        0 <= i,
    ensures
        waffle_end(shares, total, i) >= waffle_end(shares, total, i - 1) + 1,
        waffle_end(shares, total, i) >= i + 1,
    decreases i,
{
    if i > 0 {
        lemma_end_grows(shares, total, i - 1);
    }
}

/// The owner of every cell of a waffle of `total` cells: `None` when there
/// are more slices than cells (nothing is drawn then). Each slice first gets
/// one cell of its own, then its share of the rest.
pub fn waffle_plan(total: usize, shares: &[usize]) -> (plan: Option<Vec<Option<usize>>>)
    requires
        total <= usize::MAX / 2,
    ensures
        shares@.len() > total ==> plan is None,
        shares@.len() <= total ==> (plan matches Some(v) && v@.len() == total
            && forall|c: int| 0 <= c < total ==> #[trigger] v@[c] == cell_owner(shares@, total as int, c, 0)),
{
    let n = shares.len();
    if n > total {
        return None;
    }
    let mut plan: Vec<Option<usize>> = Vec::new();
    let mut k: usize = 0;
    while k < total
        invariant
            k <= total,
            plan@.len() == k,
            forall|c: int| 0 <= c < k ==> plan@[c] is None,
        decreases total - k,
    {
        plan.push(None);
        k = k + 1;
    }
    let mut cell: usize = 0;
    let mut i: usize = 0;
    while i < n
        invariant
            n == shares@.len(),
            n <= total,
            total <= usize::MAX / 2,
            i <= n,
            plan@.len() == total,
            cell as int == waffle_end(shares@, total as int, i - 1),
            i > 0 ==> cell >= i,
            i == 0 ==> cell == 0,
            cell <= total + i,
            forall|c: int| 0 <= c < total && c < cell ==> #[trigger] plan@[c] == cell_owner(shares@, total as int, c, 0),
            forall|c: int| 0 <= c < total && c >= cell ==> #[trigger] plan@[c] is None,
            forall|c: int| 0 <= c < total && c >= cell ==> cell_owner(shares@, total as int, c, 0) == #[trigger] cell_owner(shares@, total as int, c, i as int),
        decreases n - i,
    {
        let room = total - (i + 1);
        let e = if shares[i] < room { i + 1 + shares[i] } else { total };
        let end = if e > cell + 1 { e } else { cell + 1 };
        proof {
            lemma_end_grows(shares@, total as int, i as int);
        }
        let stop = if end < total { end } else { total };
        let mut c = cell;
        while c < stop
            invariant
                plan@.len() == total,
                cell <= c,
                c <= stop || c == cell,
                stop <= total,
                forall|d: int| 0 <= d < total && d < cell ==> #[trigger] plan@[d] == cell_owner(shares@, total as int, d, 0),
                forall|d: int| cell <= d < c ==> #[trigger] plan@[d] == Some(i),
                forall|d: int| 0 <= d < total && d >= c ==> #[trigger] plan@[d] is None,
            decreases stop - c,
        {
            plan.set(c, Some(i));
            c = c + 1;
        }
        proof {
            assert forall|d: int| 0 <= d < total && d < end implies #[trigger] plan@[d] == cell_owner(shares@, total as int, d, 0) by {
                if d >= cell {
                    assert(cell_owner(shares@, total as int, d, i as int) == Some(i));
                }
            }
            assert forall|d: int| 0 <= d < total && d >= end implies cell_owner(shares@, total as int, d, 0) == #[trigger] cell_owner(shares@, total as int, d, i + 1) by {
                assert(cell_owner(shares@, total as int, d, i as int) == cell_owner(shares@, total as int, d, i + 1));
            }
        }
        cell = end;
        i = i + 1;
    }
    if cell < total && n > 0 {
        let mut c = cell;
        while c < total
            invariant
                n == shares@.len(),
                n > 0,
                plan@.len() == total,
                cell <= c <= total,
                forall|d: int| 0 <= d < total && d < cell ==> #[trigger] plan@[d] == cell_owner(shares@, total as int, d, 0),
                forall|d: int| cell <= d < c ==> #[trigger] plan@[d] == Some((n - 1) as usize),
                forall|d: int| 0 <= d < total && d >= cell ==> cell_owner(shares@, total as int, d, 0) == #[trigger] cell_owner(shares@, total as int, d, n as int),
            decreases total - c,
        {
            plan.set(c, Some(n - 1));
            c = c + 1;
        }
    }
    proof {
        assert forall|c: int| 0 <= c < total implies #[trigger] plan@[c] == cell_owner(shares@, total as int, c, 0) by {
            if c >= cell {
                assert(cell_owner(shares@, total as int, c, 0) == cell_owner(shares@, total as int, c, n as int));
            }
        }
    }
    Some(plan)
}

proof fn lemma_end_bound(shares: Seq<usize>, total: int, i: int)
    requires
        shares.len() <= total,
        0 <= i < shares.len(),
        forall|j: int| 0 <= j < shares.len() ==> #[trigger] shares[j] <= total - shares.len(),
    ensures
        waffle_end(shares, total, i) <= i + 1 + (total - shares.len()),
    decreases i,
{
    assert(shares[i] <= total - shares.len());
    if i > 0 {
        lemma_end_bound(shares, total, i - 1);
    } else {
        assert(waffle_end(shares, total, -1) == 0);
    }
}

proof fn lemma_end_mono(shares: Seq<usize>, total: int, j: int, i: int)
    requires
        -1 <= j <= i,
    ensures
        waffle_end(shares, total, j) <= waffle_end(shares, total, i),
    decreases i - j,
{
    if j < i {
        lemma_end_mono(shares, total, j, i - 1);
        if i >= 0 {
            lemma_end_grows(shares, total, i);
        }
    }
}

proof fn lemma_owner_skips(shares: Seq<usize>, total: int, c: int, j: int, i: int)
    requires
        0 <= j <= i <= shares.len(),
        c >= waffle_end(shares, total, i - 1),
    ensures
        cell_owner(shares, total, c, j) == cell_owner(shares, total, c, i),
    decreases i - j,
{
    if j < i {
        lemma_end_mono(shares, total, j, i - 1);
        lemma_owner_skips(shares, total, c, j + 1, i);
    }
}

/// Everyone on a waffle is visible: when each slice's share of the spare
/// cells is at most the spare cells (there are at least as many cells as
/// slices), every slice owns a non-empty run of cells, the runs follow each
/// other in order, and all of them fit on the grid.
pub proof fn lemma_every_slice_is_visible(shares: Seq<usize>, total: int, i: int)
    requires
        shares.len() <= total,
        0 <= i < shares.len(),
        forall|j: int| 0 <= j < shares.len() ==> #[trigger] shares[j] <= total - shares.len(),
    ensures
        waffle_end(shares, total, i - 1) < waffle_end(shares, total, i) <= total,
        forall|c: int| waffle_end(shares, total, i - 1) <= c < waffle_end(shares, total, i) ==>
            #[trigger] cell_owner(shares, total, c, 0) == Some(i as usize),
{
    lemma_end_bound(shares, total, i);
    lemma_end_grows(shares, total, i);
    assert forall|c: int| waffle_end(shares, total, i - 1) <= c < waffle_end(shares, total, i) implies
        #[trigger] cell_owner(shares, total, c, 0) == Some(i as usize) by {
        lemma_owner_skips(shares, total, c, 0, i);
    }
}

/// A chip's label: the text in square brackets, so that a category reads
/// apart from the measurements around it.
pub open spec fn chip_label(text: Seq<char>) -> Seq<char> {
    seq!['['] + text + seq![']']
}

/// The chips that fit from column `x` to `right`, with their columns: each
/// whole chip and a blank after it; the row stops at the first chip that
/// does not fit (half a chip reads as broken).
pub open spec fn chips_from(texts: Seq<Seq<char>>, x: int, right: int) -> Seq<(int, Seq<char>)>
    decreases texts.len(),
{
    if texts.len() == 0 {
        Seq::empty()
    } else {
        let label = chip_label(texts[0]);
        let w = str_width(label) as int;
        let remain = if right > x { right - x } else { 0 };
        if w > remain || remain == 0 {
            Seq::empty()
        } else {
            seq![(x, label)] + chips_from(texts.drop_first(), x + w + 1, right)
        }
    }
}

/// The columns a row of chips takes, the blank after each included.
pub open spec fn chips_used(texts: Seq<Seq<char>>, x: int, right: int) -> int
    decreases texts.len(),
{
    if texts.len() == 0 {
        0
    } else {
        let w = str_width(chip_label(texts[0])) as int;
        let remain = if right > x { right - x } else { 0 };
        if w > remain || remain == 0 {
            0
        } else {
            w + 1 + chips_used(texts.drop_first(), x + w + 1, right)
        }
    }
}

/// The views of the texts.
pub open spec fn text_views(v: Seq<&str>) -> Seq<Seq<char>> {
    v.map_values(|s: &str| s@)
}

fn label_of(text: &str) -> (l: String)
    ensures
        l@ == chip_label(text@),
{
    let mut l = String::new();
    push_char(&mut l, '[');
    l.append(text);
    push_char(&mut l, ']');
    assert(l@ =~= chip_label(text@));
    l
}

/// A row of chips in `area`'s top row: where each chip that fits goes and
/// its label, and the columns used.
pub fn chips_plan(area: Rect, texts: &[&str]) -> (r: (Vec<(u16, String)>, usize))
    requires
        on_grid(area),
    ensures
        r.0@.len() == chips_from(text_views(texts@), area.x as int, area.x + area.width).len(),
        forall|i: int| 0 <= i < r.0@.len() ==> (#[trigger] r.0@[i]).0 == chips_from(text_views(texts@), area.x as int, area.x + area.width)[i].0
            && r.0@[i].1@ == chips_from(text_views(texts@), area.x as int, area.x + area.width)[i].1,
        r.1 == chips_used(text_views(texts@), area.x as int, area.x + area.width),
{
    let right: usize = area.x as usize + area.width as usize;
    let ghost all = text_views(texts@);
    let mut out: Vec<(u16, String)> = Vec::new();
    let mut x: usize = area.x as usize;
    let mut i: usize = 0;
    assert(all.skip(0) =~= all);
    while i < texts.len()
        invariant
            right == area.x + area.width,
            right <= u16::MAX,
            area.x <= x,
            i <= texts@.len(),
            all == text_views(texts@),
            x <= right + 1,
            ({
                let tail = chips_from(all.skip(i as int), x as int, right as int);
                let whole = chips_from(all, area.x as int, right as int);
                &&& whole.len() == out@.len() + tail.len()
                &&& forall|k: int| 0 <= k < out@.len() ==> (#[trigger] out@[k]).0 == whole[k].0 && out@[k].1@ == whole[k].1
                &&& forall|k: int| 0 <= k < tail.len() ==> #[trigger] whole[out@.len() + k] == tail[k]
                &&& chips_used(all, area.x as int, right as int) == (x - area.x) + chips_used(all.skip(i as int), x as int, right as int)
            }),
        decreases texts@.len() - i,
    {
        let label = label_of(texts[i]);
        let w = width(label.as_str());
        let remain: usize = if right > x { right - x } else { 0 };
        proof {
            assert(all.skip(i as int)[0] == texts@[i as int]@);
            assert(all.skip(i as int).drop_first() =~= all.skip(i + 1));
        }
        if w > remain || remain == 0 {
            return (out, x - area.x as usize);
        }
        let ghost whole = chips_from(all, area.x as int, right as int);
        let ghost old_tail = chips_from(all.skip(i as int), x as int, right as int);
        let ghost new_tail = chips_from(all.skip(i + 1), (x + w + 1) as int, right as int);
        let ghost n = out@.len() as int;
        assert(old_tail == seq![(x as int, label@)] + new_tail);
        proof {
            assert(whole[out@.len() + 0int] == old_tail[0]);
            assert forall|k: int| 0 <= k < new_tail.len() implies #[trigger] whole[n + 1 + k] == new_tail[k] by {
                assert(whole[out@.len() + (k + 1)] == old_tail[k + 1]);
            }
        }
        out.push((x as u16, label));
        x = x + w + 1;
        i = i + 1;
    }
    (out, x - area.x as usize)
}

/// A row of chips never draws half of one: every chip that is placed lies
/// whole between its start column and the right edge, and the chips follow
/// each other left to right.
pub proof fn lemma_chips_stay_whole(texts: Seq<Seq<char>>, x: int, right: int, i: int)
    requires
        0 <= i < chips_from(texts, x, right).len(),
    ensures
        x <= chips_from(texts, x, right)[i].0,
        chips_from(texts, x, right)[i].0 + str_width(chips_from(texts, x, right)[i].1) <= right,
        i > 0 ==> chips_from(texts, x, right)[i - 1].0 + str_width(chips_from(texts, x, right)[i - 1].1)
            < chips_from(texts, x, right)[i].0,
    decreases texts.len(),
{
    let w = str_width(chip_label(texts[0])) as int;
    let rest = chips_from(texts.drop_first(), x + w + 1, right);
    assert(chips_from(texts, x, right) == seq![(x, chip_label(texts[0]))] + rest);
    if i > 0 {
        lemma_chips_stay_whole(texts.drop_first(), x + w + 1, right, i - 1);
        if i > 1 {
            lemma_chips_stay_whole(texts.drop_first(), x + w + 1, right, i - 2);
        }
    }
}

/// How many columns a graph's axis labels take at the right: six (five and a
/// gap) when asked for and the graph is wider than 14 columns.
pub fn axis_width(width: u16, axis: bool) -> (r: u16)
    ensures
        r == if axis && width > 14 { 6u16 } else { 0u16 },
{
    if axis && width > 14 { 6 } else { 0 }
}

/// The columns of a table row in `area`: each column's start and the width
/// it gets (its own, cut at the area's edge), a blank between columns; the
/// row stops at the first column that starts past the edge.
pub open spec fn table_from(widths: Seq<u16>, x: int, right: int) -> Seq<(int, int)>
    decreases widths.len(),
{
    if widths.len() == 0 || x >= right {
        Seq::empty()
    } else {
        let avail = if right - x < widths[0] { right - x } else { widths[0] as int };
        seq![(x, avail)] + table_from(widths.drop_first(), x + widths[0] + 1, right)
    }
}

/// Where the cells of a table row go: `(column, width)` for each cell that
/// starts inside `area`.
pub fn table_columns(area: Rect, widths: &[u16]) -> (r: Vec<(u16, usize)>)
    requires
        on_grid(area),
    ensures
        r@.len() == table_from(widths@, area.x as int, area.x + area.width).len(),
        forall|i: int| 0 <= i < r@.len() ==>
            (#[trigger] r@[i]).0 == table_from(widths@, area.x as int, area.x + area.width)[i].0
            && r@[i].1 == table_from(widths@, area.x as int, area.x + area.width)[i].1,
{
    let right: usize = area.x as usize + area.width as usize;
    let mut out: Vec<(u16, usize)> = Vec::new();
    let mut x: usize = area.x as usize;
    let mut i: usize = 0;
    assert(widths@.skip(0) =~= widths@);
    while i < widths.len() && x < right
        invariant
            right == area.x + area.width,
            right <= u16::MAX,
            i <= widths@.len(),
            x <= right + 0x1_0000,
            ({
                let tail = table_from(widths@.skip(i as int), x as int, right as int);
                let whole = table_from(widths@, area.x as int, right as int);
                &&& whole.len() == out@.len() + tail.len()
                &&& forall|k: int| 0 <= k < out@.len() ==> (#[trigger] out@[k]).0 == whole[k].0 && out@[k].1 == whole[k].1
                &&& forall|k: int| 0 <= k < tail.len() ==> #[trigger] whole[out@.len() + k] == tail[k]
            }),
        decreases widths@.len() - i,
    {
        let w = widths[i] as usize;
        let avail = if right - x < w { right - x } else { w };
        proof {
            assert(widths@.skip(i as int)[0] == widths@[i as int]);
            assert(widths@.skip(i as int).drop_first() =~= widths@.skip(i + 1));
        }
        let ghost whole = table_from(widths@, area.x as int, right as int);
        let ghost old_tail = table_from(widths@.skip(i as int), x as int, right as int);
        let ghost new_tail = table_from(widths@.skip(i + 1), (x + w + 1) as int, right as int);
        let ghost n = out@.len() as int;
        assert(old_tail == seq![(x as int, avail as int)] + new_tail);
        proof {
            assert(whole[out@.len() + 0int] == old_tail[0]);
            assert forall|k: int| 0 <= k < new_tail.len() implies #[trigger] whole[n + 1 + k] == new_tail[k] by {
                assert(whole[out@.len() + (k + 1)] == old_tail[k + 1]);
            }
        }
        out.push((x as u16, avail));
        x = x + w + 1;
        i = i + 1;
    }
    proof {
        assert(table_from(widths@.skip(i as int), x as int, right as int).len() == 0) by {
            if i < widths@.len() {
                assert(x >= right);
            } else {
                assert(widths@.skip(i as int).len() == 0);
            }
        }
    }
    out
}

/// The columns of a key–value row in `area`: the key padded to the key
/// width (at most the area's width); the value one column after it, in the
/// columns left, when any are left.
pub fn key_value_columns(area: Rect, key_width: u16) -> (r: (usize, Option<(u16, usize)>))
    requires
        on_grid(area),
    ensures
        ({
            let kw = if key_width < area.width { key_width as int } else { area.width as int };
            let vx = area.x + kw + 1;
            &&& r.0 == kw
            &&& r.1 == if vx < area.x + area.width { Some(((vx as u16), (area.x + area.width - vx) as usize)) } else { None }
        }),
{
    let kw = if key_width < area.width { key_width } else { area.width };
    let right = area.x as usize + area.width as usize;
    let vx = area.x as usize + kw as usize + 1;
    if vx < right { (kw as usize, Some((vx as u16, right - vx))) } else { (kw as usize, None) }
}

/// A heatmap's grid: cells of `cell_w` columns (at least one), as many to a
/// row as fit (at least one), rows for every value up to the area's height.
pub open spec fn heat_per_row(area: Rect, cell_w: u16) -> int {
    let cw = if cell_w < 1 { 1 } else { cell_w as int };
    if (area.width as int) / cw < 1 { 1 } else { (area.width as int) / cw }
}

/// The rows a heatmap of `n` values draws.
pub open spec fn heat_rows(area: Rect, n: int, cell_w: u16) -> int {
    let per = heat_per_row(area, cell_w);
    let rows = n / per + if n % per == 0 { 0int } else { 1int };
    if area.width == 0 || area.height == 0 || n == 0 { 0 } else if rows < area.height { rows } else { area.height as int }
}

/// Where the cells of a heatmap of `n` values go (one cell per value, row by
/// row, as many values as the rows hold), and the rows used.
pub fn heatmap_cells(area: Rect, n: usize, cell_w: u16) -> (r: (Vec<(u16, u16)>, u16))
    requires
        on_grid(area),
    ensures
        ({
            let per = heat_per_row(area, cell_w);
            let cw = if cell_w < 1 { 1 } else { cell_w as int };
            let rows = heat_rows(area, n as int, cell_w);
            let shown = if n < rows * per { n as int } else { rows * per };
            &&& r.1 == rows
            &&& r.0@.len() == shown
            &&& forall|i: int| 0 <= i < shown ==> #[trigger] r.0@[i] == ((area.x + (i % per) * cw) as u16, (area.y + i / per) as u16)
        }),
{
    let mut out: Vec<(u16, u16)> = Vec::new();
    if area.width == 0 || area.height == 0 || n == 0 {
        return (out, 0);
    }
    let cw: u16 = if cell_w < 1 { 1 } else { cell_w };
    let per: usize = if area.width / cw < 1 { 1 } else { (area.width / cw) as usize };
    let q = n / per;
    assert(q <= n && (n % per != 0 ==> q < n)) by (nonlinear_arith)
        requires
            per >= 1,
            q == n / per,
    ;
    assert(per <= area.width && (per * cw <= area.width || per == 1) && (cw <= area.width || per == 1)) by (nonlinear_arith)
        requires
            cw >= 1,
            area.width >= 1,
            per == (if area.width / cw < 1 { 1 } else { area.width / cw }),
    ;
    let need = if n % per == 0 { q } else { q + 1 };
    let rows: usize = if need < area.height as usize { need } else { area.height as usize };
    assert(rows * per <= area.height * area.width && area.height * area.width <= 0xFFFF_FFFF) by (nonlinear_arith)
        requires
            rows <= area.height,
            per <= area.width,
            area.width >= 1,
            area.width <= 0xFFFF,
            area.height <= 0xFFFF,
    ;
    let shown = if n < rows * per { n } else { rows * per };
    let mut i: usize = 0;
    while i < shown
        invariant
            on_grid(area),
            area.width >= 1,
            cw >= 1,
            per >= 1,
            per as int == heat_per_row(area, cell_w),
            cw as int == (if cell_w < 1 { 1 } else { cell_w as int }),
            per * cw <= area.width || per == 1,
            cw <= area.width || per == 1,
            shown <= rows * per,
            rows <= area.height,
            i <= shown,
            out@.len() == i,
            forall|k: int| 0 <= k < i ==> #[trigger] out@[k] == ((area.x + (k % per as int) * cw) as u16, (area.y + k / per as int) as u16),
        decreases shown - i,
    {
        let c = i % per;
        let row = i / per;
        assert(c * (cw as usize) <= area.width && row < area.height) by (nonlinear_arith)
            requires
                c < per,
                per * cw <= area.width || per == 1,
                cw <= area.width || per == 1,
                i < rows * per,
                rows <= area.height,
                row == i / per,
                per >= 1,
                area.width >= 1,
        ;
        out.push(((area.x as usize + c * cw as usize) as u16, (area.y as usize + row) as u16));
        i = i + 1;
    }
    (out, rows as u16)
}

/// A heatmap cell's text: its character over the cell less a column of gap
/// (the whole cell when it is one column wide).
pub fn heat_cell_text(ch: char, cell_w: u16) -> (t: String)
    ensures
        t@ == Seq::new(if cell_w > 1 { (cell_w - 1) as nat } else { 1nat }, |i: int| ch),
{
    let n: u16 = if cell_w > 1 { cell_w - 1 } else { 1 };
    let mut t = String::new();
    let mut i: u16 = 0;
    while i < n
        invariant
            i <= n,
            t@ == Seq::new(i as nat, |k: int| ch),
        decreases n - i,
    {
        push_char(&mut t, ch);
        i = i + 1;
        assert(t@ =~= Seq::new(i as nat, |k: int| ch));
    }
    t
}

/// A table row's strip: `filled` cells of `▰` (at most the width), the rest
/// `▱`; it is read at a glance down a column, not for its exact value.
pub fn strip_text(filled: usize, width: u16) -> (t: String)
    ensures
        t@ == Seq::new(width as nat, |i: int| if i < filled { '\u{25b0}' } else { '\u{25b1}' }),
{
    let mut t = String::new();
    let mut i: u16 = 0;
    while i < width
        invariant
            i <= width,
            t@ == Seq::new(i as nat, |k: int| if k < filled { '\u{25b0}' } else { '\u{25b1}' }),
        decreases width - i,
    {
        push_char(&mut t, if (i as usize) < filled { '\u{25b0}' } else { '\u{25b1}' });
        i = i + 1;
        assert(t@ =~= Seq::new(i as nat, |k: int| if k < filled { '\u{25b0}' } else { '\u{25b1}' }));
    }
    t
}

} // verus!
