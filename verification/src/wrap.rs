//! Folding text to a window's width, one piece per screen row.
//!
//! The explain window wraps its text itself rather than leaving it to the
//! terminal widget, so that it knows exactly how many rows the text takes
//! (the scroll limit depends on it). It measures display width, not
//! characters (a CJK character takes two columns), and breaks at a space
//! where a line has one.

use vstd::prelude::*;
use crate::chars::{char_cols, cw, sum_cw};

verus! {

/// Where the greedy fill from `start` stops: the first character that would
/// push the row past `width` (the row's first character is always taken),
/// or the end of the line. `w` is the width taken so far from `start` to `i`.
pub open spec fn fill_end(cs: Seq<char>, width: nat, start: int, i: int, w: nat) -> int
    decreases cs.len() - i,
{
    if i < 0 || i >= cs.len() {
        cs.len() as int
    } else if w + cw(cs[i]) > width && i > start {
        i
    } else {
        fill_end(cs, width, start, i + 1, w + cw(cs[i]))
    }
}

/// The last space among the characters `start..i`, if any.
pub open spec fn last_space(cs: Seq<char>, start: int, i: int) -> Option<int>
    decreases i - start,
{
    if i <= start {
        None
    } else if cs[i - 1] == ' ' {
        Some(i - 1)
    } else {
        last_space(cs, start, i - 1)
    }
}

/// Where the row starting at `start` ends: where the fill stopped, or back
/// at the last space before it when the fill stopped inside a word (but
/// never back to an empty row).
pub open spec fn piece_end(cs: Seq<char>, width: nat, start: int) -> int {
    let i = fill_end(cs, width, start, start, 0);
    if i < cs.len() && cs[i] != ' ' {
        match last_space(cs, start, i) {
            Some(sp) if sp > start => sp,
            _ => i,
        }
    } else {
        i
    }
}

/// Where the next row starts: the one space at the break is dropped, any
/// further indentation is kept.
pub open spec fn next_start(cs: Seq<char>, end: int) -> int {
    if end < cs.len() && cs[end] == ' ' { end + 1 } else { end }
}

proof fn lemma_fill_start(cs: Seq<char>, width: nat, start: int)
    requires
        0 <= start < cs.len(),
    ensures
        start < fill_end(cs, width, start, start, 0) <= cs.len(),
{
    lemma_fill_bounds(cs, width, start, start + 1, cw(cs[start]));
}

proof fn lemma_fill_bounds(cs: Seq<char>, width: nat, start: int, i: int, w: nat)
    requires
        0 <= start < i <= cs.len(),
    ensures
        i <= fill_end(cs, width, start, i, w) <= cs.len(),
    decreases cs.len() - i,
{
    if i < cs.len() && !(w + cw(cs[i]) > width && i > start) {
        lemma_fill_bounds(cs, width, start, i + 1, w + cw(cs[i]));
    }
}

proof fn lemma_last_space(cs: Seq<char>, start: int, i: int)
    requires
        0 <= start <= i <= cs.len(),
    ensures
        last_space(cs, start, i) matches Some(sp) ==> start <= sp < i && cs[sp] == ' ',
    decreases i - start,
{
    if i > start && cs[i - 1] != ' ' {
        lemma_last_space(cs, start, i - 1);
    }
}

/// A row's piece is never empty and never runs past the text or past what
/// fits; the next row starts at most one column later, skipping only a
/// space.
pub proof fn lemma_piece(cs: Seq<char>, width: nat, start: int)
    requires
        0 <= start < cs.len(),
    ensures
        start < piece_end(cs, width, start) <= cs.len(),
        piece_end(cs, width, start) <= fill_end(cs, width, start, start, 0),
        piece_end(cs, width, start) < next_start(cs, piece_end(cs, width, start)) ==> cs[piece_end(cs, width, start)] == ' ',
        next_start(cs, piece_end(cs, width, start)) <= piece_end(cs, width, start) + 1,
        next_start(cs, piece_end(cs, width, start)) <= cs.len(),
{
    lemma_fill_start(cs, width, start);
    let i = fill_end(cs, width, start, start, 0);
    lemma_last_space(cs, start, i);
}

/// The rows that a line too wide for `width` columns folds into, as
/// (first, past-the-last) character positions, from position `start` on.
pub open spec fn pieces(cs: Seq<char>, width: nat, start: int) -> Seq<(int, int)>
    decreases cs.len() - start,
{
    if start < 0 || start >= cs.len() {
        Seq::empty()
    } else {
        let end = piece_end(cs, width, start);
        let next = next_start(cs, end);
        proof {
            lemma_piece(cs, width, start);
        }
        if next <= start {
            seq![(start, end)]
        } else {
            seq![(start, end)] + pieces(cs, width, next)
        }
    }
}

/// The rows of one line of `cs` (whose display width is `line_width`) at
/// `width` columns: the whole line when it fits (or when the width is 0,
/// which leaves text as it is), else the folded pieces.
pub open spec fn spec_wrap(cs: Seq<char>, line_width: nat, width: nat) -> Seq<(int, int)> {
    if width == 0 || line_width <= width {
        seq![(0, cs.len() as int)]
    } else {
        pieces(cs, width, 0)
    }
}

/// Folds one line of characters to `width` columns: the rows, as
/// (first, past-the-last) positions into `cs`. `line_width` is the line's
/// display width; a line that fits is left whole. Rows break at the last
/// space when a word would be cut, and the space at a break is dropped.
pub fn wrap_to_width(cs: &[char], line_width: usize, width: usize) -> (r: Vec<(usize, usize)>)
    ensures
        r@.len() == spec_wrap(cs@, line_width as nat, width as nat).len(),
        forall|k: int| 0 <= k < r@.len() ==> {
            let p = #[trigger] r@[k];
            let q = spec_wrap(cs@, line_width as nat, width as nat)[k];
            p.0 as int == q.0 && p.1 as int == q.1
        },
{
    let mut out: Vec<(usize, usize)> = Vec::new();
    let n = cs.len();
    if width == 0 || line_width <= width {
        out.push((0, n));
        return out;
    }
    let ghost full = pieces(cs@, width as nat, 0);
    let mut start: usize = 0;
    while start < n
        invariant
            n == cs@.len(),
            start <= n,
            width > 0,
            full == pieces(cs@, width as nat, 0),
            full == out@.map_values(|p: (usize, usize)| (p.0 as int, p.1 as int)) + pieces(cs@, width as nat, start as int),
        decreases n - start,
    {
        let mut w: usize = 0;
        let mut i: usize = start;
        let mut sp: Option<usize> = None;
        proof {
            lemma_fill_start(cs@, width as nat, start as int);
        }
        while i < n
            invariant
                n == cs@.len(),
                start < n,
                start <= i <= n,
                i == start ==> w == 0,
                i > start + 1 ==> w <= width,
                i == start + 1 ==> w <= 255,
                fill_end(cs@, width as nat, start as int, start as int, 0) == fill_end(cs@, width as nat, start as int, i as int, w as nat),
                match sp {
                    Some(s) => last_space(cs@, start as int, i as int) == Some(s as int),
                    None => last_space(cs@, start as int, i as int) is None,
                },
            ensures
                fill_end(cs@, width as nat, start as int, start as int, 0) == i as int,
                start < i <= n,
                match sp {
                    Some(s) => last_space(cs@, start as int, i as int) == Some(s as int),
                    None => last_space(cs@, start as int, i as int) is None,
                },
            decreases n - i,
        {
            let c = cs[i];
            let cwc = char_cols(c);
            if i > start && (w > width || cwc > width - w) {
                break;
            }
            if c == ' ' {
                sp = Some(i);
            }
            proof {
                if c != ' ' {
                    assert(last_space(cs@, start as int, i + 1) == last_space(cs@, start as int, i as int));
                }
            }
            w = w + cwc;
            i = i + 1;
        }
        let ghost fe = fill_end(cs@, width as nat, start as int, start as int, 0);
        assert(fe == i as int);
        let mut end = i;
        if end < n && cs[end] != ' ' {
            match sp {
                Some(s) => {
                    if s > start {
                        end = s;
                    }
                },
                None => {},
            }
        }
        assert(end as int == piece_end(cs@, width as nat, start as int));
        proof {
            lemma_piece(cs@, width as nat, start as int);
        }
        let ghost before = out@;
        out.push((start, end));
        let mut next = end;
        if next < n && cs[next] == ' ' {
            next = next + 1;
        }
        proof {
            assert(next as int == next_start(cs@, end as int));
            let m = |p: (usize, usize)| (p.0 as int, p.1 as int);
            assert(out@.map_values(m) == before.map_values(m).push((start as int, end as int)));
            if next as int <= start as int {
                assert(false);
            }
            assert(pieces(cs@, width as nat, start as int) == seq![(start as int, end as int)] + pieces(cs@, width as nat, next as int));
            assert(full == out@.map_values(m) + pieces(cs@, width as nat, next as int));
        }
        start = next;
    }
    proof {
        let m = |p: (usize, usize)| (p.0 as int, p.1 as int);
        assert(pieces(cs@, width as nat, start as int) == Seq::<(int, int)>::empty());
        assert(full == out@.map_values(m));
    }
    out
}

/// The display width of the characters `a..b`.
pub open spec fn span_width(cs: Seq<char>, a: int, b: int) -> nat {
    sum_cw(cs.subrange(a, b))
}

proof fn lemma_span_width_step(cs: Seq<char>, a: int, b: int)
    requires
        0 <= a <= b < cs.len(),
    ensures
        span_width(cs, a, b + 1) == span_width(cs, a, b) + cw(cs[b]),
{
    assert(cs.subrange(a, b + 1).drop_last() == cs.subrange(a, b));
}

proof fn lemma_span_width_mono(cs: Seq<char>, a: int, b: int, c: int)
    requires
        0 <= a <= b <= c <= cs.len(),
    ensures
        span_width(cs, a, b) <= span_width(cs, a, c),
    decreases c - b,
{
    if b < c {
        lemma_span_width_mono(cs, a, b, c - 1);
        lemma_span_width_step(cs, a, c - 1);
    }
}

proof fn lemma_fill_fits(cs: Seq<char>, width: nat, start: int, i: int, w: nat)
    requires
        0 <= start <= i <= cs.len(),
        w == span_width(cs, start, i),
        i > start ==> w <= width,
        forall|j: int| 0 <= j < cs.len() ==> cw(#[trigger] cs[j]) <= width,
    ensures
        span_width(cs, start, fill_end(cs, width, start, i, w)) <= width,
    decreases cs.len() - i,
{
    if i < cs.len() && !(w + cw(cs[i]) > width && i > start) {
        lemma_span_width_step(cs, start, i);
        lemma_fill_fits(cs, width, start, i + 1, w + cw(cs[i]));
    } else if i == start {
        assert(cs.subrange(start, start) =~= Seq::<char>::empty());
    }
}

proof fn lemma_pieces_shape(cs: Seq<char>, width: nat, start: int)
    requires
        0 <= start <= cs.len(),
    ensures
        ({
            let ps = pieces(cs, width, start);
            &&& start < cs.len() ==> ps.len() > 0 && ps[0].0 == start
            &&& start == cs.len() ==> ps.len() == 0
            &&& forall|k: int| 0 <= k < ps.len() ==> start <= (#[trigger] ps[k]).0 < ps[k].1 <= cs.len()
            &&& forall|k: int| 0 <= k < ps.len() - 1 ==>
                (#[trigger] ps[k]).1 <= ps[k + 1].0 <= ps[k].1 + 1 && (ps[k + 1].0 == ps[k].1 + 1 ==> cs[ps[k].1] == ' ')
            &&& ps.len() > 0 ==> (ps.last().1 == cs.len() || (ps.last().1 + 1 == cs.len() && cs[cs.len() - 1] == ' '))
            &&& forall|k: int| 0 <= k < ps.len() ==> span_width(cs, (#[trigger] ps[k]).0, ps[k].1) <= width
                || !(forall|j: int| 0 <= j < cs.len() ==> cw(#[trigger] cs[j]) <= width)
        }),
    decreases cs.len() - start,
{
    if start < cs.len() {
        lemma_piece(cs, width, start);
        let end = piece_end(cs, width, start);
        let next = next_start(cs, end);
        lemma_pieces_shape(cs, width, next);
        let rest = pieces(cs, width, next);
        let ps = pieces(cs, width, start);
        assert(ps == seq![(start, end)] + rest);
        if forall|j: int| 0 <= j < cs.len() ==> cw(#[trigger] cs[j]) <= width {
            let fe = fill_end(cs, width, start, start, 0);
            assert(cs.subrange(start, start) =~= Seq::<char>::empty());
            lemma_fill_fits(cs, width, start, start, 0);
            lemma_fill_start(cs, width, start);
            lemma_span_width_mono(cs, start, end, fe);
        }
        assert forall|k: int| 0 <= k < ps.len() - 1 implies
            (#[trigger] ps[k]).1 <= ps[k + 1].0 <= ps[k].1 + 1 && (ps[k + 1].0 == ps[k].1 + 1 ==> cs[ps[k].1] == ' ') by {
            if k > 0 {
                assert(ps[k] == rest[k - 1]);
                assert(ps[k + 1] == rest[k]);
            } else {
                assert(ps[1] == rest[0]);
            }
        }
        assert forall|k: int| 0 <= k < ps.len() implies start <= (#[trigger] ps[k]).0 < ps[k].1 <= cs.len() by {
            if k > 0 {
                assert(ps[k] == rest[k - 1]);
            }
        }
        assert forall|k: int| 0 <= k < ps.len() implies span_width(cs, (#[trigger] ps[k]).0, ps[k].1) <= width
            || !(forall|j: int| 0 <= j < cs.len() ==> cw(#[trigger] cs[j]) <= width) by {
            if k > 0 {
                assert(ps[k] == rest[k - 1]);
            }
        }
        if rest.len() > 0 {
            assert(ps.last() == rest.last());
        } else {
            assert(ps.last() == (start, end));
        }
    }
}

/// Folding loses nothing and stays inside the window: the rows of a line
/// that does not fit follow each other in order, each non-empty, with
/// nothing between two rows but the one space at the break, the first
/// starting the line and the last ending it (or its one trailing space);
/// and when no single character is wider than the window, no row is.
pub proof fn lemma_wrap_keeps_every_character(cs: Seq<char>, width: nat)
    requires
        cs.len() > 0,
        width > 0,
    ensures
        ({
            let ps = pieces(cs, width, 0);
            &&& ps.len() > 0 && ps[0].0 == 0
            &&& forall|k: int| 0 <= k < ps.len() ==> 0 <= (#[trigger] ps[k]).0 < ps[k].1 <= cs.len()
            &&& forall|k: int| 0 <= k < ps.len() - 1 ==>
                (#[trigger] ps[k]).1 <= ps[k + 1].0 <= ps[k].1 + 1 && (ps[k + 1].0 == ps[k].1 + 1 ==> cs[ps[k].1] == ' ')
            &&& ps.last().1 == cs.len() || (ps.last().1 + 1 == cs.len() && cs[cs.len() - 1] == ' ')
            &&& (forall|j: int| 0 <= j < cs.len() ==> cw(#[trigger] cs[j]) <= width) ==>
                forall|k: int| 0 <= k < ps.len() ==> span_width(cs, (#[trigger] ps[k]).0, ps[k].1) <= width
        }),
{
    lemma_pieces_shape(cs, width, 0);
}

} // verus!
