//! How much of a mascot shows from behind the data: the top rows of the
//! silhouette, with the blank columns on either side cropped away.
//!
//! The crop box is always taken from frame 0 of the pose. Taken per frame,
//! a blink (less ink) or a raised tail (one more column) would make the
//! revealed block jump from frame to frame.

use vstd::prelude::*;
use crate::chars::{chars_of, string_of};

verus! {

/// The part of a silhouette that shows: its lines, and the block they take.
#[derive(Clone, Debug)]
pub struct Reveal {
    pub lines: Vec<String>,
    pub w: u16,
    pub h: u16,
}

impl Reveal {
    /// Nothing revealed.
    pub fn empty() -> (r: Reveal)
        ensures
            r.lines@.len() == 0,
            r.w == 0,
            r.h == 0,
    {
        Reveal { lines: Vec::new(), w: 0, h: 0 }
    }
}

/// Whether column `x` has ink (a non-blank character) in one of the first
/// `r` lines.
pub open spec fn inked(lines: Seq<String>, r: int, x: int) -> bool {
    exists|j: int| 0 <= j < r && 0 <= x < (#[trigger] lines[j])@.len() && lines[j]@[x] != ' '
}

/// The widest line: the canvas the lines are drawn on.
pub open spec fn canvas(lines: Seq<String>) -> int
    decreases lines.len(),
{
    if lines.len() == 0 {
        0
    } else {
        let rest = canvas(lines.drop_last());
        if lines.last()@.len() > rest { lines.last()@.len() as int } else { rest }
    }
}

/// The first inked column at or after `x` (the canvas width when there is none).
pub open spec fn ink_from(lines: Seq<String>, r: int, x: int) -> int
    decreases canvas(lines) - x,
{
    if x >= canvas(lines) {
        canvas(lines)
    } else if inked(lines, r, x) {
        x
    } else {
        ink_from(lines, r, x + 1)
    }
}

/// The last inked column before `x` (-1 when there is none).
pub open spec fn ink_before(lines: Seq<String>, r: int, x: int) -> int
    decreases x,
{
    if x <= 0 {
        -1
    } else if inked(lines, r, x - 1) {
        x - 1
    } else {
        ink_before(lines, r, x - 1)
    }
}

/// How many lines are revealed when `rows` are asked for.
pub open spec fn shown_rows(base: Seq<String>, rows: u16) -> int {
    if (rows as int) < base.len() { rows as int } else { base.len() as int }
}

/// The columns `(first, last)` of the crop: the ink of the first rows of the
/// base frame, one more column on each side (inside the canvas) when the
/// pose raises its tail, since the curled tail reaches one column further.
pub open spec fn crop_bounds(base: Seq<String>, rows: u16, widen: bool) -> (int, int) {
    let r = shown_rows(base, rows);
    let x0 = ink_from(base, r, 0);
    let x1 = ink_before(base, r, canvas(base));
    if widen {
        (if x0 > 0 { x0 - 1 } else { 0 }, if x1 + 1 < canvas(base) - 1 { x1 + 1 } else { canvas(base) - 1 })
    } else {
        (x0, x1)
    }
}

/// The character at column `x` of a line, blank past its end.
pub open spec fn char_or_blank(s: Seq<char>, x: int) -> char {
    if 0 <= x < s.len() { s[x] } else { ' ' }
}

/// Whether anything shows at all: some ink in the first rows.
pub open spec fn reveals_ink(base: Seq<String>, rows: u16) -> bool {
    ink_from(base, shown_rows(base, rows), 0) < canvas(base)
}

proof fn lemma_canvas_bounds(lines: Seq<String>)
    ensures
        forall|j: int| 0 <= j < lines.len() ==> (#[trigger] lines[j])@.len() <= canvas(lines),
        canvas(lines) >= 0,
        (forall|j: int| 0 <= j < lines.len() ==> (#[trigger] lines[j])@.len() <= u16::MAX) ==> canvas(lines) <= u16::MAX,
    decreases lines.len(),
{
    if lines.len() > 0 {
        lemma_canvas_bounds(lines.drop_last());
        assert forall|j: int| 0 <= j < lines.len() implies (#[trigger] lines[j])@.len() <= canvas(lines) by {
            if j < lines.len() - 1 {
                assert(lines.drop_last()[j] == lines[j]);
            }
        }
        if forall|j: int| 0 <= j < lines.len() ==> (#[trigger] lines[j])@.len() <= u16::MAX {
            assert forall|j: int| 0 <= j < lines.drop_last().len() implies (#[trigger] lines.drop_last()[j])@.len() <= u16::MAX by {
                assert(lines.drop_last()[j] == lines[j]);
            }
            assert(lines[lines.len() - 1]@.len() <= u16::MAX);
        }
    }
}

proof fn lemma_ink_from(lines: Seq<String>, r: int, x: int)
    requires
        0 <= x,
    ensures
        ink_from(lines, r, x) >= x || (x >= canvas(lines) && ink_from(lines, r, x) == canvas(lines)),
        ink_from(lines, r, x) <= canvas(lines) || x > canvas(lines),
        ink_from(lines, r, x) < canvas(lines) ==> inked(lines, r, ink_from(lines, r, x)),
        forall|y: int| x <= y < ink_from(lines, r, x) ==> !inked(lines, r, y),
    decreases canvas(lines) - x,
{
    if x < canvas(lines) && !inked(lines, r, x) {
        lemma_ink_from(lines, r, x + 1);
    }
}

proof fn lemma_ink_before(lines: Seq<String>, r: int, x: int)
    requires
        0 <= x,
    ensures
        -1 <= ink_before(lines, r, x) < x,
        ink_before(lines, r, x) >= 0 ==> inked(lines, r, ink_before(lines, r, x)),
        forall|y: int| ink_before(lines, r, x) < y < x ==> !inked(lines, r, y),
    decreases x,
{
    if x > 0 && !inked(lines, r, x - 1) {
        lemma_ink_before(lines, r, x - 1);
    }
}

/// Whether column `x` has ink in the first `r` lines.
fn column_inked(lines: &[Vec<char>], base: Ghost<Seq<String>>, r: usize, x: usize) -> (b: bool)
    requires
        r <= lines@.len(),
        lines@.len() == base@.len(),
        forall|j: int| 0 <= j < lines@.len() ==> (#[trigger] lines@[j])@ == base@[j]@,
    ensures
        b == inked(base@, r as int, x as int),
{
    let mut j: usize = 0;
    while j < r
        invariant
            r <= lines@.len(),
            lines@.len() == base@.len(),
            forall|k: int| 0 <= k < lines@.len() ==> (#[trigger] lines@[k])@ == base@[k]@,
            j <= r,
            forall|k: int| 0 <= k < j ==> !(0 <= x < (#[trigger] base@[k])@.len() && base@[k]@[x as int] != ' '),
        decreases r - j,
    {
        if x < lines[j].len() && lines[j][x] != ' ' {
            assert(lines@[j as int]@ == base@[j as int]@);
            assert(0 <= j < r && 0 <= x < base@[j as int]@.len() && base@[j as int]@[x as int] != ' ');
            return true;
        }
        assert(lines@[j as int]@ == base@[j as int]@);
        j = j + 1;
    }
    false
}

/// The characters of each line.
fn char_lines(lines: &[String]) -> (v: Vec<Vec<char>>)
    ensures
        v@.len() == lines@.len(),
        forall|j: int| 0 <= j < lines@.len() ==> (#[trigger] v@[j])@ == lines@[j]@,
{
    let mut v: Vec<Vec<char>> = Vec::new();
    let mut j: usize = 0;
    while j < lines.len()
        invariant
            j <= lines@.len(),
            v@.len() == j,
            forall|k: int| 0 <= k < j ==> (#[trigger] v@[k])@ == lines@[k]@,
        decreases lines@.len() - j,
    {
        v.push(chars_of(lines[j].as_str()));
        j = j + 1;
    }
    v
}

/// How wide the revealed block is: the crop of the base frame's first
/// rows, nothing when those rows have no ink. It does not depend on the
/// frame being drawn.
pub open spec fn reveal_width(base: Seq<String>, rows: u16, widen: bool) -> int {
    if reveals_ink(base, rows) { crop_bounds(base, rows, widen).1 - crop_bounds(base, rows, widen).0 + 1 } else { 0 }
}

/// How tall the revealed block is: the base frame's first `rows` rows, as
/// far as a frame of `frame_rows` rows reaches; nothing without ink.
pub open spec fn reveal_height(base: Seq<String>, frame_rows: int, rows: u16) -> int {
    if reveals_ink(base, rows) {
        if shown_rows(base, rows) < frame_rows { shown_rows(base, rows) } else { frame_rows }
    } else {
        0
    }
}

proof fn lemma_no_rows_no_ink(lines: Seq<String>, x: int)
    ensures
        ink_from(lines, 0, x) == canvas(lines) || x >= canvas(lines),
        x <= canvas(lines) ==> ink_from(lines, 0, x) == canvas(lines),
    decreases canvas(lines) - x,
{
    if x < canvas(lines) {
        lemma_no_rows_no_ink(lines, x + 1);
    }
}

/// The crop box is fixed by the base frame: its width depends on no frame
/// at all ([`reveal_width`]), and any two frames of the same height are
/// revealed the same number of rows, at most `rows`, none for no rows.
pub proof fn lemma_crop_box_is_the_base_frames(base: Seq<String>, f1: Seq<String>, f2: Seq<String>, rows: u16)
    requires
        f1.len() == f2.len(),
    ensures
        reveal_height(base, f1.len() as int, rows) == reveal_height(base, f2.len() as int, rows),
        reveal_height(base, f1.len() as int, rows) <= rows,
        rows == 0 ==> reveal_height(base, f1.len() as int, rows) == 0,
{
    if rows == 0 {
        assert(shown_rows(base, rows) == 0);
        lemma_no_rows_no_ink(base, 0);
    }
}

/// The top `rows` lines of a silhouette with the blank columns on either
/// side cropped away. The crop is taken from `base` (frame 0) and applied to
/// `frame`, so the revealed block never jumps between frames; `widen` leaves
/// one more column on each side for a tail that curls up.
pub fn crop_reveal(base: &[String], frame: &[String], rows: u16, widen: bool) -> (rv: Reveal)
    requires
        base@.len() <= u16::MAX,
        forall|j: int| 0 <= j < base@.len() ==> (#[trigger] base@[j])@.len() <= u16::MAX,
    ensures
        rv.w == reveal_width(base@, rows, widen),
        rv.h == reveal_height(base@, frame@.len() as int, rows),
        !reveals_ink(base@, rows) ==> rv.lines@.len() == 0 && rv.w == 0 && rv.h == 0,
        reveals_ink(base@, rows) ==> ({
            let (a, b) = crop_bounds(base@, rows, widen);
            let h = if shown_rows(base@, rows) < frame@.len() { shown_rows(base@, rows) } else { frame@.len() as int };
            &&& 0 <= a <= b
            &&& rv.w == b - a + 1
            &&& rv.h == h
            &&& rv.lines@.len() == h
            &&& forall|j: int| 0 <= j < h ==> (#[trigger] rv.lines@[j])@ == Seq::new(
                (b - a + 1) as nat,
                |k: int| char_or_blank(frame@[j]@, a + k),
            )
        }),
{
    let r: usize = if (rows as usize) < base.len() { rows as usize } else { base.len() };
    let cs = char_lines(base);
    proof {
        lemma_canvas_bounds(base@);
    }
    let mut width: usize = 0;
    let mut j: usize = 0;
    while j < cs.len()
        invariant
            cs@.len() == base@.len(),
            forall|k: int| 0 <= k < cs@.len() ==> (#[trigger] cs@[k])@ == base@[k]@,
            j <= cs@.len(),
            width == canvas(base@.take(j as int)),
        decreases cs@.len() - j,
    {
        assert(base@.take(j + 1).drop_last() =~= base@.take(j as int));
        assert(base@.take(j + 1).last() == base@[j as int]);
        assert(cs@[j as int]@ == base@[j as int]@);
        if cs[j].len() > width {
            width = cs[j].len();
        }
        j = j + 1;
    }
    assert(base@.take(cs@.len() as int) =~= base@);
    if r == 0 {
        proof {
            assert(ink_from(base@, 0, 0) == canvas(base@)) by {
                lemma_ink_from(base@, 0, 0);
                if ink_from(base@, 0, 0) < canvas(base@) {
                    assert(inked(base@, 0, ink_from(base@, 0, 0)));
                }
            }
        }
        return Reveal::empty();
    }
    let mut x0: usize = 0;
    while x0 < width && !column_inked(cs.as_slice(), Ghost(base@), r, x0)
        invariant
            width == canvas(base@),
            r <= cs@.len(),
            cs@.len() == base@.len(),
            forall|k: int| 0 <= k < cs@.len() ==> (#[trigger] cs@[k])@ == base@[k]@,
            x0 <= width,
            ink_from(base@, r as int, 0) == ink_from(base@, r as int, x0 as int),
        decreases width - x0,
    {
        x0 = x0 + 1;
    }
    if x0 >= width {
        return Reveal::empty();
    }
    let mut x: usize = width;
    while x > 0 && !column_inked(cs.as_slice(), Ghost(base@), r, x - 1)
        invariant
            width == canvas(base@),
            r <= cs@.len(),
            cs@.len() == base@.len(),
            forall|k: int| 0 <= k < cs@.len() ==> (#[trigger] cs@[k])@ == base@[k]@,
            x <= width,
            ink_before(base@, r as int, width as int) == ink_before(base@, r as int, x as int),
        decreases x,
    {
        x = x - 1;
    }
    proof {
        lemma_ink_from(base@, r as int, 0);
        lemma_ink_before(base@, r as int, width as int);
        assert(inked(base@, r as int, x0 as int));
        if x == 0 {
            assert(x0 < width && ink_before(base@, r as int, width as int) == -1);
            assert(!inked(base@, r as int, x0 as int));
        }
    }
    let mut x1: usize = x - 1;
    let mut a: usize = x0;
    if widen {
        a = if x0 > 0 { x0 - 1 } else { 0 };
        x1 = if x1 + 1 < width - 1 { x1 + 1 } else { width - 1 };
    }
    let n = x1 - a + 1;
    let mut lines: Vec<String> = Vec::new();
    let mut j: usize = 0;
    while j < r && j < frame.len()
        invariant
            a <= x1,
            n == x1 - a + 1,
            x1 < width,
            width <= u16::MAX,
            r <= u16::MAX,
            j <= r,
            j <= frame@.len(),
            lines@.len() == j,
            forall|k: int| 0 <= k < j ==> (#[trigger] lines@[k])@ == Seq::new(n as nat, |i: int| char_or_blank(frame@[k]@, a + i)),
        decreases r - j,
    {
        let row = chars_of(frame[j].as_str());
        let mut out: Vec<char> = Vec::new();
        let mut c: usize = a;
        while c <= x1
            invariant
                a <= c <= x1 + 1,
                x1 < width,
                width <= u16::MAX,
                row@ == frame@[j as int]@,
                out@ == Seq::new((c - a) as nat, |i: int| char_or_blank(frame@[j as int]@, a + i)),
            decreases x1 + 1 - c,
        {
            let ch = if c < row.len() { row[c] } else { ' ' };
            out.push(ch);
            c = c + 1;
            assert(out@ =~= Seq::new((c - a) as nat, |i: int| char_or_blank(frame@[j as int]@, a + i)));
        }
        lines.push(string_of(out.as_slice()));
        j = j + 1;
    }
    let h = lines.len();
    Reveal { lines, w: n as u16, h: h as u16 }
}

/// Nothing is cut off: every inked column of the revealed rows lies inside
/// the crop, and without the widening the crop's edges are inked.
pub proof fn lemma_crop_keeps_every_inked_column(base: Seq<String>, rows: u16, widen: bool, x: int)
    requires
        reveals_ink(base, rows),
        inked(base, shown_rows(base, rows), x),
    ensures
        crop_bounds(base, rows, widen).0 <= x <= crop_bounds(base, rows, widen).1,
        !widen ==> inked(base, shown_rows(base, rows), crop_bounds(base, rows, false).0),
        !widen ==> inked(base, shown_rows(base, rows), crop_bounds(base, rows, false).1),
{
    let r = shown_rows(base, rows);
    lemma_canvas_bounds(base);
    lemma_ink_from(base, r, 0);
    lemma_ink_before(base, r, canvas(base));
    let j = choose|j: int| 0 <= j < r && 0 <= x < (#[trigger] base[j])@.len() && base[j]@[x] != ' ';
    assert(base[j]@.len() <= canvas(base));
    assert(x < canvas(base));
    assert(ink_from(base, r, 0) <= x);
    assert(x <= ink_before(base, r, canvas(base)));
}

} // verus!
