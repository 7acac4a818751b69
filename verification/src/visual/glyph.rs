//! The built-in pixel font: A–Z and 0–9, each 5 columns by 7 rows.
//!
//! A 5×7 grid is the smallest that keeps `B`/`8`, `O`/`0` and `S`/`5`
//! apart, which matters because brand codes mix letters and digits. Drawn
//! with half blocks, two pixel rows share one terminal row.

use vstd::prelude::*;
use crate::chars::{ascii_upper, chars_of, push_char, spec_upper, string_of};

verus! {

/// One glyph: 7 rows of 5 characters, `#` lit.
pub type Bitmap = [&'static str; 7];

pub const GLYPH_W: usize = 5;
pub const GLYPH_H: usize = 7;

/// The blank glyph.
pub const SPACE: Bitmap = ["     ", "     ", "     ", "     ", "     ", "     ", "     "];

/// The letters A to Z.
pub const LETTERS: [Bitmap; 26] = [
    [" ### ", "#   #", "#   #", "#####", "#   #", "#   #", "#   #"],
    ["#### ", "#   #", "#   #", "#### ", "#   #", "#   #", "#### "],
    [" ### ", "#   #", "#    ", "#    ", "#    ", "#   #", " ### "],
    ["#### ", "#   #", "#   #", "#   #", "#   #", "#   #", "#### "],
    ["#####", "#    ", "#    ", "#### ", "#    ", "#    ", "#####"],
    ["#####", "#    ", "#    ", "#### ", "#    ", "#    ", "#    "],
    [" ### ", "#   #", "#    ", "#  ##", "#   #", "#   #", " ### "],
    ["#   #", "#   #", "#   #", "#####", "#   #", "#   #", "#   #"],
    [" ### ", "  #  ", "  #  ", "  #  ", "  #  ", "  #  ", " ### "],
    ["  ###", "   # ", "   # ", "   # ", "   # ", "#  # ", " ##  "],
    ["#   #", "#  # ", "# #  ", "##   ", "# #  ", "#  # ", "#   #"],
    ["#    ", "#    ", "#    ", "#    ", "#    ", "#    ", "#####"],
    ["#   #", "## ##", "# # #", "#   #", "#   #", "#   #", "#   #"],
    ["#   #", "##  #", "# # #", "#  ##", "#   #", "#   #", "#   #"],
    [" ### ", "#   #", "#   #", "#   #", "#   #", "#   #", " ### "],
    ["#### ", "#   #", "#   #", "#### ", "#    ", "#    ", "#    "],
    [" ### ", "#   #", "#   #", "#   #", "# # #", "#  # ", " ## #"],
    ["#### ", "#   #", "#   #", "#### ", "# #  ", "#  # ", "#   #"],
    [" ####", "#    ", "#    ", " ### ", "    #", "    #", "#### "],
    ["#####", "  #  ", "  #  ", "  #  ", "  #  ", "  #  ", "  #  "],
    ["#   #", "#   #", "#   #", "#   #", "#   #", "#   #", " ### "],
    ["#   #", "#   #", "#   #", "#   #", "#   #", " # # ", "  #  "],
    ["#   #", "#   #", "#   #", "#   #", "# # #", "## ##", "#   #"],
    ["#   #", "#   #", " # # ", "  #  ", " # # ", "#   #", "#   #"],
    ["#   #", "#   #", " # # ", "  #  ", "  #  ", "  #  ", "  #  "],
    ["#####", "    #", "   # ", "  #  ", " #   ", "#    ", "#####"],
];

/// The digits 0 to 9 (the zero has a slash, so that it never reads as O).
pub const DIGITS: [Bitmap; 10] = [
    [" ### ", "#   #", "#  ##", "# # #", "##  #", "#   #", " ### "],
    ["  #  ", " ##  ", "  #  ", "  #  ", "  #  ", "  #  ", " ### "],
    [" ### ", "#   #", "    #", "   # ", "  #  ", " #   ", "#####"],
    ["#####", "   # ", "  #  ", "   # ", "    #", "#   #", " ### "],
    ["   # ", "  ## ", " # # ", "#  # ", "#####", "   # ", "   # "],
    ["#####", "#    ", "#### ", "    #", "    #", "#   #", " ### "],
    ["  ## ", " #   ", "#    ", "#### ", "#   #", "#   #", " ### "],
    ["#####", "    #", "   # ", "  #  ", " #   ", " #   ", " #   "],
    [" ### ", "#   #", "#   #", " ### ", "#   #", "#   #", " ### "],
    [" ### ", "#   #", "#   #", " ####", "    #", "   # ", " ##  "],
];

/// The glyph of a character, if the font has one: a space, A–Z in either
/// case, or 0–9.
pub open spec fn spec_bitmap(c: char) -> Option<Bitmap> {
    let u = spec_upper(c);
    if u == ' ' {
        Some(SPACE)
    } else if 'A' <= u && u <= 'Z' {
        Some(LETTERS[(u as u32 - 65) as int])
    } else if '0' <= u && u <= '9' {
        Some(DIGITS[(u as u32 - 48) as int])
    } else {
        None
    }
}

/// Looks up a character's glyph.
///
/// `None` means there is no glyph: the caller falls back to text instead of
/// drawing a blank, which would silently drop a letter of the brand.
pub fn bitmap(c: char) -> (r: Option<Bitmap>)
    ensures
        r == spec_bitmap(c),
{
    let u = ascii_upper(c);
    if u == ' ' {
        Some(SPACE)
    } else if 'A' <= u && u <= 'Z' {
        Some(LETTERS[(u as u32 - 65) as usize])
    } else if '0' <= u && u <= '9' {
        Some(DIGITS[(u as u32 - 48) as usize])
    } else {
        None
    }
}

/// Whether every character of a non-empty string has a glyph.
pub open spec fn spec_renderable(s: Seq<char>) -> bool {
    s.len() > 0 && forall|i: int| 0 <= i < s.len() ==> spec_bitmap(#[trigger] s[i]) is Some
}

/// Whether the whole string can be drawn in the pixel font.
pub fn renderable(s: &str) -> (r: bool)
    ensures
        r == spec_renderable(s@),
{
    let cs = chars_of(s);
    if cs.len() == 0 {
        return false;
    }
    let mut i: usize = 0;
    while i < cs.len()
        invariant
            cs@ == s@,
            i <= cs@.len(),
            forall|j: int| 0 <= j < i ==> spec_bitmap(#[trigger] s@[j]) is Some,
        decreases cs@.len() - i,
    {
        if bitmap(cs[i]).is_none() {
            return false;
        }
        i = i + 1;
    }
    true
}

/// Row `r` of the laid-out word: each glyph's row, separated by `spacing` spaces.
pub open spec fn layout_row(cs: Seq<char>, spacing: nat, r: int) -> Seq<char>
    decreases cs.len(),
{
    if cs.len() == 0 {
        Seq::empty()
    } else {
        let prev = layout_row(cs.drop_last(), spacing, r);
        let gap = if cs.len() > 1 { Seq::new(spacing, |i: int| ' ') } else { Seq::empty() };
        prev + gap + spec_bitmap(cs.last()).unwrap()[r]@
    }
}

/// Lays a string out in the pixel font: 7 rows, `#` lit, glyphs
/// `spacing` columns apart. `None` when some character has no glyph.
pub fn layout(s: &str, spacing: usize) -> (r: Option<Vec<String>>)
    ensures
        match r {
            None => !spec_renderable(s@),
            Some(rows) => spec_renderable(s@) && rows@.len() == GLYPH_H
                && forall|k: int| 0 <= k < GLYPH_H ==> #[trigger] rows@[k]@ == layout_row(s@, spacing as nat, k),
        },
{
    if !renderable(s) {
        return None;
    }
    let cs = chars_of(s);
    let mut rows: Vec<String> = Vec::new();
    let mut k: usize = 0;
    while k < GLYPH_H
        invariant
            cs@ == s@,
            spec_renderable(s@),
            k <= GLYPH_H,
            rows@.len() == k,
            forall|j: int| 0 <= j < k ==> #[trigger] rows@[j]@ == layout_row(s@, spacing as nat, j),
        decreases GLYPH_H - k,
    {
        let mut row = String::new();
        let mut i: usize = 0;
        while i < cs.len()
            invariant
                cs@ == s@,
                spec_renderable(s@),
                k < GLYPH_H,
                i <= cs@.len(),
                row@ == layout_row(s@.take(i as int), spacing as nat, k as int),
            decreases cs@.len() - i,
        {
            let g = bitmap(cs[i]);
            proof {
                assert(spec_bitmap(s@[i as int]) is Some);
                assert(s@.take(i as int + 1).drop_last() =~= s@.take(i as int));
                assert(s@.take(i as int + 1).last() == s@[i as int]);
            }
            let g = g.unwrap();
            if i > 0 {
                let mut sp: usize = 0;
                let ghost before = row@;
                while sp < spacing
                    invariant
                        sp <= spacing,
                        row@ == before + Seq::new(sp as nat, |q: int| ' '),
                    decreases spacing - sp,
                {
                    push_char(&mut row, ' ');
                    sp = sp + 1;
                    assert(row@ =~= before + Seq::new(sp as nat, |q: int| ' '));
                }
            } else {
                assert(row@ + Seq::<char>::empty() =~= row@);
            }
            row.append(g[k]);
            i = i + 1;
        }
        assert(s@.take(cs@.len() as int) =~= s@);
        rows.push(row);
        k = k + 1;
    }
    Some(rows)
}

/// The half-block character for a top and a bottom pixel.
pub open spec fn half_block(top: bool, bottom: bool) -> char {
    if top && bottom {
        '\u{2588}'
    } else if top {
        '\u{2580}'
    } else if bottom {
        '\u{2584}'
    } else {
        ' '
    }
}

/// Whether pixel `x` of a row is lit.
pub open spec fn lit_at(row: Seq<char>, x: int) -> bool {
    0 <= x < row.len() && row[x] == '#'
}

/// The widest row, in characters.
pub open spec fn max_len(rows: Seq<Seq<char>>) -> nat
    decreases rows.len(),
{
    if rows.len() == 0 {
        0
    } else {
        let m = max_len(rows.drop_last());
        if rows.last().len() > m { rows.last().len() } else { m }
    }
}

/// Line `p` of the half-block picture of `rows`.
pub open spec fn half_line(rows: Seq<Seq<char>>, p: int) -> Seq<char> {
    let top = rows[2 * p];
    let bottom = if 2 * p + 1 < rows.len() { rows[2 * p + 1] } else { Seq::empty() };
    Seq::new(max_len(rows), |x: int| half_block(lit_at(top, x), lit_at(bottom, x)))
}

/// The views of some strings.
pub open spec fn string_views(v: Seq<String>) -> Seq<Seq<char>> {
    v.map_values(|s: String| s@)
}

/// Squeezes pixel rows into half-block lines: two pixel rows per line
/// (`▀ ▄ █` or a space), every line as wide as the widest row.
pub fn to_half_blocks(rows: &[String]) -> (r: Vec<String>)
    ensures
        r@.len() == (rows@.len() + 1) / 2,
        forall|p: int| 0 <= p < r@.len() ==> #[trigger] r@[p]@ == half_line(string_views(rows@), p),
{
    let ghost rv = string_views(rows@);
    let n = rows.len();
    let mut grid: Vec<Vec<char>> = Vec::new();
    let mut width: usize = 0;
    let mut i: usize = 0;
    while i < n
        invariant
            n == rows@.len(),
            rv == string_views(rows@),
            i <= n,
            grid@.len() == i,
            forall|j: int| 0 <= j < i ==> #[trigger] grid@[j]@ == rv[j],
            width == max_len(rv.take(i as int)),
        decreases n - i,
    {
        let cs = chars_of(rows[i].as_str());
        proof {
            assert(rv.take(i as int + 1).drop_last() =~= rv.take(i as int));
            assert(rv[i as int] == rows@[i as int]@);
        }
        if cs.len() > width {
            width = cs.len();
        }
        grid.push(cs);
        i = i + 1;
    }
    assert(rv.take(n as int) =~= rv);
    let mut out: Vec<String> = Vec::new();
    let mut p: usize = 0;
    let lines = n / 2 + n % 2;
    while p < lines
        invariant
            n == rows@.len(),
            rv == string_views(rows@),
            grid@.len() == n,
            forall|j: int| 0 <= j < n ==> #[trigger] grid@[j]@ == rv[j],
            width == max_len(rv),
            lines == (n + 1) / 2,
            p <= lines,
            out@.len() == p,
            forall|q: int| 0 <= q < p ==> #[trigger] out@[q]@ == half_line(rv, q),
        decreases lines - p,
    {
        let top = &grid[2 * p];
        let empty: Vec<char> = Vec::new();
        let bottom = if 2 * p + 1 < n { &grid[2 * p + 1] } else { &empty };
        let ghost bot_view = if 2 * p + 1 < n { rv[2 * p + 1] } else { Seq::<char>::empty() };
        assert(bottom@ == bot_view);
        let mut line: Vec<char> = Vec::new();
        let mut x: usize = 0;
        while x < width
            invariant
                x <= width,
                top@ == rv[2 * p as int],
                bottom@ == bot_view,
                line@ =~= Seq::new(x as nat, |k: int| half_block(lit_at(rv[2 * p as int], k), lit_at(bot_view, k))),
            decreases width - x,
        {
            let t = x < top.len() && top[x] == '#';
            let b = x < bottom.len() && bottom[x] == '#';
            let c = if t && b {
                '\u{2588}'
            } else if t {
                '\u{2580}'
            } else if b {
                '\u{2584}'
            } else {
                ' '
            };
            line.push(c);
            x = x + 1;
        }
        let s = string_of(line.as_slice());
        assert(s@ =~= half_line(rv, p as int));
        out.push(s);
        p = p + 1;
    }
    out
}

/// Every row of every glyph is five columns wide.
pub proof fn lemma_glyph_rows_are_five_wide(c: char, r: int)
    requires
        spec_bitmap(c) is Some,
        0 <= r < 7,
    ensures
        spec_bitmap(c).unwrap()[r]@.len() == GLYPH_W,
{
    reveal_strlit("     ");
    reveal_strlit("    #");
    reveal_strlit("   # ");
    reveal_strlit("  #  ");
    reveal_strlit("  ## ");
    reveal_strlit("  ###");
    reveal_strlit(" #   ");
    reveal_strlit(" # # ");
    reveal_strlit(" ##  ");
    reveal_strlit(" ## #");
    reveal_strlit(" ### ");
    reveal_strlit(" ####");
    reveal_strlit("#    ");
    reveal_strlit("#   #");
    reveal_strlit("#  # ");
    reveal_strlit("#  ##");
    reveal_strlit("# #  ");
    reveal_strlit("# # #");
    reveal_strlit("##   ");
    reveal_strlit("##  #");
    reveal_strlit("## ##");
    reveal_strlit("#### ");
    reveal_strlit("#####");
}

} // verus!
