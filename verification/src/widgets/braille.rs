//! Braille plotting: one braille character is a 2×4 grid of dots, so a
//! terminal cell holds eight times the resolution of a block.

use vstd::prelude::*;

verus! {

/// The bit of each dot: `DOTS[column][row]`.
pub const DOTS: [[u8; 4]; 2] = [[0x01, 0x02, 0x04, 0x40], [0x08, 0x10, 0x20, 0x80]];

/// The first braille character.
pub const BRAILLE_BASE: u32 = 0x2800;

/// How a graph is drawn.
#[derive(Clone, Copy, Debug, PartialEq, Eq)]
pub enum GraphStyle {
    /// Filled from the bottom up to the value (for usage).
    Area,
    /// Only the outline (for rates, which would smear into a block).
    Line,
}

/// `char::from_u32`: std documents that it gives the character with that
/// code when the value is a Unicode scalar value (not a surrogate, at most
/// U+10FFFF), and `None` otherwise.
#[verifier::external_body]
fn char_from_u32(v: u32) -> (r: Option<char>)
    ensures
        r is Some <==> (v < 0xd800 || (0xdfff < v && v <= 0x10ffff)),
        r matches Some(c) ==> c as u32 == v,
{
    char::from_u32(v)
}

/// The braille character whose dots are the bits of `bits`.
pub fn braille_char(bits: u8) -> (c: char)
    ensures
        c as u32 == BRAILLE_BASE + bits as u32,
        0x2800 <= c as u32 <= 0x28ff,
{
    match char_from_u32(BRAILLE_BASE + bits as u32) {
        Some(c) => c,
        None => ' ',
    }
}

/// The cell bits after plotting column levels: for each dot column, `level`
/// dots from the bottom (Area) or only the top one of them (Line).
pub open spec fn dot_lit(levels: Seq<usize>, rows: nat, style: GraphStyle, col: int, dot_row: int) -> bool {
    let dot_rows = rows * 4;
    0 <= col < levels.len() && 0 < levels[col] <= dot_rows && match style {
        GraphStyle::Area => dot_rows - levels[col] <= dot_row < dot_rows,
        GraphStyle::Line => dot_row == dot_rows - levels[col],
    }
}

/// The bits of cell (cx, cy).
pub open spec fn cell_bits(levels: Seq<usize>, rows: nat, style: GraphStyle, cx: int, cy: int) -> u8 {
    (if dot_lit(levels, rows, style, 2 * cx, 4 * cy) { 0x01u8 } else { 0u8 })
        | (if dot_lit(levels, rows, style, 2 * cx, 4 * cy + 1) { 0x02u8 } else { 0u8 })
        | (if dot_lit(levels, rows, style, 2 * cx, 4 * cy + 2) { 0x04u8 } else { 0u8 })
        | (if dot_lit(levels, rows, style, 2 * cx, 4 * cy + 3) { 0x40u8 } else { 0u8 })
        | (if dot_lit(levels, rows, style, 2 * cx + 1, 4 * cy) { 0x08u8 } else { 0u8 })
        | (if dot_lit(levels, rows, style, 2 * cx + 1, 4 * cy + 1) { 0x10u8 } else { 0u8 })
        | (if dot_lit(levels, rows, style, 2 * cx + 1, 4 * cy + 2) { 0x20u8 } else { 0u8 })
        | (if dot_lit(levels, rows, style, 2 * cx + 1, 4 * cy + 3) { 0x80u8 } else { 0u8 })
}

fn lit(levels: &[usize], rows: usize, style: GraphStyle, col: usize, dot_row: usize) -> (r: bool)
    requires
        rows <= usize::MAX / 4,
    ensures
        r == dot_lit(levels@, rows as nat, style, col as int, dot_row as int),
{
    let dot_rows = rows * 4;
    if col >= levels.len() {
        return false;
    }
    let l = levels[col];
    if l == 0 || l > dot_rows {
        return false;
    }
    match style {
        GraphStyle::Area => dot_rows - l <= dot_row && dot_row < dot_rows,
        GraphStyle::Line => dot_row == dot_rows - l,
    }
}

/// Plots per-dot-column levels into braille cells, `rows` by `cols`,
/// row-major: dot column `c` lights `levels[c]` dots up from the bottom
/// (Area) or just the highest of them (Line).
pub fn plot_levels(levels: &[usize], cols: usize, rows: usize, style: GraphStyle) -> (g: Vec<u8>)
    requires
        rows <= usize::MAX / 4,
        cols <= usize::MAX / 2,
        rows * cols <= usize::MAX,
    ensures
        g@.len() == rows * cols,
        forall|cy: int, cx: int| 0 <= cy < rows && 0 <= cx < cols ==>
            #[trigger] g@[cy * cols + cx] == cell_bits(levels@, rows as nat, style, cx, cy),
{
    let mut g: Vec<u8> = Vec::new();
    let mut cy: usize = 0;
    while cy < rows
        invariant
            rows <= usize::MAX / 4,
            cols <= usize::MAX / 2,
            rows * cols <= usize::MAX,
            cy <= rows,
            g@.len() == cy * cols,
            forall|y: int, x: int| 0 <= y < cy && 0 <= x < cols ==>
                #[trigger] g@[y * cols + x] == cell_bits(levels@, rows as nat, style, x, y),
        decreases rows - cy,
    {
        let mut cx: usize = 0;
        assert(cy * cols + cols <= rows * cols) by (nonlinear_arith)
            requires
                cy < rows,
        ;
        while cx < cols
            invariant
                rows <= usize::MAX / 4,
                cols <= usize::MAX / 2,
                cy < rows,
                cy * cols + cols <= rows * cols,
                rows * cols <= usize::MAX,
                cx <= cols,
                g@.len() == cy * cols + cx,
                forall|y: int, x: int| 0 <= y < cy && 0 <= x < cols ==>
                    #[trigger] g@[y * cols + x] == cell_bits(levels@, rows as nat, style, x, y),
                forall|x: int| 0 <= x < cx ==> #[trigger] g@[cy * cols + x] == cell_bits(levels@, rows as nat, style, x, cy as int),
            decreases cols - cx,
        {
            let b = (if lit(levels, rows, style, 2 * cx, 4 * cy) { 0x01u8 } else { 0u8 })
                | (if lit(levels, rows, style, 2 * cx, 4 * cy + 1) { 0x02u8 } else { 0u8 })
                | (if lit(levels, rows, style, 2 * cx, 4 * cy + 2) { 0x04u8 } else { 0u8 })
                | (if lit(levels, rows, style, 2 * cx, 4 * cy + 3) { 0x40u8 } else { 0u8 })
                | (if lit(levels, rows, style, 2 * cx + 1, 4 * cy) { 0x08u8 } else { 0u8 })
                | (if lit(levels, rows, style, 2 * cx + 1, 4 * cy + 1) { 0x10u8 } else { 0u8 })
                | (if lit(levels, rows, style, 2 * cx + 1, 4 * cy + 2) { 0x20u8 } else { 0u8 })
                | (if lit(levels, rows, style, 2 * cx + 1, 4 * cy + 3) { 0x80u8 } else { 0u8 });
            let ghost before = g@;
            g.push(b);
            proof {
                assert forall|y: int, x: int| 0 <= y < cy && 0 <= x < cols implies
                    #[trigger] g@[y * cols + x] == cell_bits(levels@, rows as nat, style, x, y) by {
                    assert(y * cols + x < cy * cols) by (nonlinear_arith)
                        requires
                            0 <= y < cy,
                            0 <= x < cols,
                    ;
                    assert(g@[y * cols + x] == before[y * cols + x]);
                }
            }
            cx = cx + 1;
        }
        proof {
            assert forall|y: int, x: int| 0 <= y < cy + 1 && 0 <= x < cols implies
                #[trigger] g@[y * cols + x] == cell_bits(levels@, rows as nat, style, x, y) by {
                if y == cy {
                } else {
                }
            }
            assert((cy + 1) * cols == cy * cols + cols) by (nonlinear_arith);
        }
        cy = cy + 1;
    }
    g
}

/// The dot-column levels of a series drawn `dot_cols` dots wide: only the
/// newest `dot_cols` values fit, and they sit at the right edge so that the
/// newest value is always rightmost; columns without data are empty.
pub open spec fn aligned(levels: Seq<usize>, dot_cols: nat) -> Seq<usize> {
    let start = if levels.len() > dot_cols { levels.len() - dot_cols } else { 0 };
    let offset = dot_cols - (levels.len() - start);
    Seq::new(dot_cols, |j: int| if j < offset { 0usize } else { levels[start + j - offset] })
}

/// Right-aligns a series of levels in `dot_cols` dot columns (see [`aligned`]).
pub fn align_right(levels: &[usize], dot_cols: usize) -> (r: Vec<usize>)
    ensures
        r@ == aligned(levels@, dot_cols as nat),
{
    let n = levels.len();
    let start = if n > dot_cols { n - dot_cols } else { 0 };
    let offset = dot_cols - (n - start);
    let mut r: Vec<usize> = Vec::new();
    let mut j: usize = 0;
    while j < dot_cols
        invariant
            n == levels@.len(),
            start == (if n > dot_cols { n - dot_cols } else { 0 }),
            offset == dot_cols - (n - start),
            j <= dot_cols,
            r@ == aligned(levels@, dot_cols as nat).take(j as int),
        decreases dot_cols - j,
    {
        let v = if j < offset { 0 } else { levels[start + j - offset] };
        r.push(v);
        j = j + 1;
        assert(r@ =~= aligned(levels@, dot_cols as nat).take(j as int));
    }
    assert(r@ =~= aligned(levels@, dot_cols as nat));
    r
}

} // verus!
