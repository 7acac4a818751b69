//! Spatial focus navigation over a tree of selectable regions.
//!
//! Focus is a node of a tree: panels at the top, rows inside panels, and
//! deeper levels as far as a page registers them. Arrow keys move only
//! among siblings, so "up, down, left, right" mean the same at every depth;
//! Enter goes down a level and Esc comes back up.

use vstd::prelude::*;
use crate::layout::Rect;
use crate::chars::owned;

verus! {

/// A direction key.
#[derive(Clone, Copy, Debug, PartialEq, Eq)]
pub enum Dir {
    Up,
    Down,
    Left,
    Right,
}

/// One selectable, explainable region of the screen.
#[derive(Clone, Debug, PartialEq)]
pub struct FocusRegion<T> {
    pub rect: Rect,
    /// What `e` explains for this region.
    pub target: T,
    /// The name shown on screen.
    pub label: String,
    /// `None` for a top-level panel; `Some(i)` for a child of region `i`.
    pub parent: Option<usize>,
    /// Whether the region is a scrollable list.
    pub scrollable: bool,
    /// For a list row: its index in the **whole** list, not among the rows
    /// that happen to be visible.
    pub list_index: Option<usize>,
}

/// The span across the movement: columns for up/down, rows for left/right.
pub open spec fn cross_span(r: Rect, dir: Dir) -> (int, int) {
    match dir {
        Dir::Up | Dir::Down => (r.x as int, r.x + r.width),
        Dir::Left | Dir::Right => (r.y as int, r.y + r.height),
    }
}

/// How far `t` lies beyond `c` in direction `dir` (negative when they overlap).
pub open spec fn gap_to(c: Rect, t: Rect, dir: Dir) -> int {
    match dir {
        Dir::Down => t.y - (c.y + c.height),
        Dir::Up => c.y - (t.y + t.height),
        Dir::Right => t.x - (c.x + c.width),
        Dir::Left => c.x - (t.x + t.width),
    }
}

/// Whether `t` starts further along `dir` than `c` does.
pub open spec fn is_ahead(c: Rect, t: Rect, dir: Dir) -> bool {
    match dir {
        Dir::Down => t.y > c.y,
        Dir::Up => t.y < c.y,
        Dir::Right => t.x > c.x,
        Dir::Left => t.x < c.x,
    }
}

pub open spec fn imax(a: int, b: int) -> int {
    if a > b { a } else { b }
}

pub open spec fn imin(a: int, b: int) -> int {
    if a < b { a } else { b }
}

/// How much `t` overlaps `c` across the movement.
pub open spec fn overlap_of(c: Rect, t: Rect, dir: Dir) -> int {
    let (c_lo, c_hi) = cross_span(c, dir);
    let (t_lo, t_hi) = cross_span(t, dir);
    imax(imin(c_hi, t_hi) - imax(c_lo, t_lo), 0)
}

/// The score of a candidate that overlaps: nearer first, then more overlap.
pub open spec fn overlap_score(c: Rect, t: Rect, dir: Dir) -> int {
    imax(gap_to(c, t, dir), 0) * 10000 - overlap_of(c, t, dir)
}

/// The score of a candidate that does not overlap: nearer first, then less
/// offset across the movement.
pub open spec fn fallback_score(c: Rect, t: Rect, dir: Dir) -> int {
    let d = cross_span(c, dir).0 - cross_span(t, dir).0;
    imax(gap_to(c, t, dir), 0) * 10000 + if d < 0 { -d } else { d }
}

/// Keeps the best-scoring candidate; the first one wins ties.
pub open spec fn better(best: Option<(int, usize)>, score: int, i: usize) -> Option<(int, usize)> {
    match best {
        Some((b, _)) => if score < b { Some((score, i)) } else { best },
        None => Some((score, i)),
    }
}

/// The best overlapping and the best other candidate among `cands`.
pub open spec fn scan(regions: Seq<Rect>, cands: Seq<usize>, from: usize, dir: Dir)
    -> (Option<(int, usize)>, Option<(int, usize)>)
    decreases cands.len(),
{
    if cands.len() == 0 {
        (None, None)
    } else {
        let (ov, fb) = scan(regions, cands.drop_last(), from, dir);
        let i = cands.last();
        if i == from || i >= regions.len() {
            (ov, fb)
        } else {
            let c = regions[from as int];
            let t = regions[i as int];
            if !is_ahead(c, t, dir) {
                (ov, fb)
            } else if overlap_of(c, t, dir) > 0 {
                (better(ov, overlap_score(c, t, dir), i), fb)
            } else {
                (ov, better(fb, fallback_score(c, t, dir), i))
            }
        }
    }
}

/// The region `nearest` picks.
pub open spec fn spec_nearest(regions: Seq<Rect>, cands: Seq<usize>, from: usize, dir: Dir) -> Option<usize> {
    if from >= regions.len() {
        None
    } else {
        let (ov, fb) = scan(regions, cands, from, dir);
        match ov {
            Some((_, i)) => Some(i),
            None => match fb {
                Some((_, i)) => Some(i),
                None => None,
            },
        }
    }
}

/// Candidate `i` counts when moving from `from`: another region, starting
/// further along `dir`.
pub open spec fn counts(regions: Seq<Rect>, from: usize, i: usize, dir: Dir) -> bool {
    i != from && i < regions.len() && is_ahead(regions[from as int], regions[i as int], dir)
}

/// Candidate `i` counts and overlaps `from` across the movement.
pub open spec fn overlapping(regions: Seq<Rect>, from: usize, i: usize, dir: Dir) -> bool {
    counts(regions, from, i, dir) && overlap_of(regions[from as int], regions[i as int], dir) > 0
}

/// Candidate `i` counts but does not overlap `from` across the movement.
pub open spec fn beside(regions: Seq<Rect>, from: usize, i: usize, dir: Dir) -> bool {
    counts(regions, from, i, dir) && !overlapping(regions, from, i, dir)
}

proof fn lemma_scan(regions: Seq<Rect>, cands: Seq<usize>, from: usize, dir: Dir)
    requires
        from < regions.len(),
    ensures
        ({
            let (ov, fb) = scan(regions, cands, from, dir);
            let c = regions[from as int];
            &&& ov matches Some((s, i)) ==> cands.contains(i) && overlapping(regions, from, i, dir)
                && s == overlap_score(c, regions[i as int], dir)
                && forall|k: int| 0 <= k < cands.len() && overlapping(regions, from, #[trigger] cands[k], dir)
                    ==> s <= overlap_score(c, regions[cands[k] as int], dir)
            &&& ov is None ==> forall|k: int| 0 <= k < cands.len() ==> !overlapping(regions, from, #[trigger] cands[k], dir)
            &&& fb matches Some((s, i)) ==> cands.contains(i) && counts(regions, from, i, dir)
                && !overlapping(regions, from, i, dir)
                && s == fallback_score(c, regions[i as int], dir)
                && forall|k: int| 0 <= k < cands.len() && beside(regions, from, #[trigger] cands[k], dir)
                    ==> s <= fallback_score(c, regions[cands[k] as int], dir)
            &&& fb is None ==> forall|k: int| 0 <= k < cands.len() && counts(regions, from, #[trigger] cands[k], dir)
                ==> overlapping(regions, from, cands[k], dir)
        }),
    decreases cands.len(),
{
    if cands.len() > 0 {
        let d = cands.drop_last();
        lemma_scan(regions, d, from, dir);
        let i = cands.last();
        assert(forall|k: int| 0 <= k < d.len() ==> cands[k] == #[trigger] d[k]);
        assert(cands[cands.len() - 1] == i);
        assert forall|x: usize| d.contains(x) implies cands.contains(x) by {
            let k = choose|k: int| 0 <= k < d.len() && d[k] == x;
            assert(cands[k] == x);
        }
        assert(cands.contains(i));
        let (ov0, fb0) = scan(regions, d, from, dir);
        let (ov, fb) = scan(regions, cands, from, dir);
        let c = regions[from as int];
        if !counts(regions, from, i, dir) {
            assert(ov == ov0 && fb == fb0);
        } else if overlapping(regions, from, i, dir) {
            let si = overlap_score(c, regions[i as int], dir);
            assert(ov == better(ov0, si, i) && fb == fb0);
            match ov0 {
                Some((b, j)) => {
                    if si < b {
                        assert(ov == Some((si, i)));
                    } else {
                        assert(ov == ov0);
                    }
                },
                None => {
                    assert(ov == Some((si, i)));
                },
            }
        } else {
            let si = fallback_score(c, regions[i as int], dir);
            assert(ov == ov0 && fb == better(fb0, si, i));
            match fb0 {
                Some((b, j)) => {
                    if si < b {
                        assert(fb == Some((si, i)));
                    } else {
                        assert(fb == fb0);
                    }
                },
                None => {
                    assert(fb == Some((si, i)));
                },
            }
        }
        if fb is Some {
            let s = match fb { Some((x, _)) => x, None => 0 };
            assert(fb0 matches Some((b, _)) ==> s <= b);
            assert forall|k: int| 0 <= k < cands.len() && beside(regions, from, #[trigger] cands[k], dir)
                implies s <= fallback_score(c, regions[cands[k] as int], dir) by {
                if k < d.len() {
                    assert(cands[k] == d[k]);
                    assert(beside(regions, from, d[k], dir));
                }
            }
        }
        if ov is Some {
            let s = match ov { Some((x, _)) => x, None => 0 };
            assert(ov0 matches Some((b, _)) ==> s <= b);
            assert forall|k: int| 0 <= k < cands.len() && overlapping(regions, from, #[trigger] cands[k], dir)
                implies s <= overlap_score(c, regions[cands[k] as int], dir) by {
                if k < d.len() {
                    assert(cands[k] == d[k]);
                    assert(overlapping(regions, from, d[k], dir));
                }
            }
        } else {
            assert forall|k: int| 0 <= k < cands.len() implies !overlapping(regions, from, #[trigger] cands[k], dir) by {
                if k < d.len() {
                    assert(cands[k] == d[k]);
                    assert(!overlapping(regions, from, d[k], dir));
                }
            }
        }
        if fb is None {
            assert forall|k: int| 0 <= k < cands.len() && counts(regions, from, #[trigger] cands[k], dir)
                implies overlapping(regions, from, cands[k], dir) by {
                if k < d.len() {
                    assert(cands[k] == d[k]);
                    assert(counts(regions, from, d[k], dir));
                }
            }
        }
    }
}

/// What `nearest` picks is one of the candidates, another region, ahead in
/// the direction of the move. When some candidate ahead overlaps the start
/// across the movement, the pick overlaps it too and none of those is nearer
/// (by the overlap score); it picks nothing only when no candidate is ahead.
pub proof fn lemma_nearest_is_ahead(regions: Seq<Rect>, cands: Seq<usize>, from: usize, dir: Dir)
    ensures
        spec_nearest(regions, cands, from, dir) matches Some(i) ==> cands.contains(i) && counts(regions, from, i, dir),
        from < regions.len() && (exists|k: int| 0 <= k < cands.len() && overlapping(regions, from, #[trigger] cands[k], dir))
            ==> (spec_nearest(regions, cands, from, dir) matches Some(i) && overlapping(regions, from, i, dir)
                && forall|k: int| 0 <= k < cands.len() && overlapping(regions, from, #[trigger] cands[k], dir)
                    ==> overlap_score(regions[from as int], regions[i as int], dir)
                        <= overlap_score(regions[from as int], regions[cands[k] as int], dir)),
        spec_nearest(regions, cands, from, dir) is None <==> (from >= regions.len()
            || forall|k: int| 0 <= k < cands.len() ==> !counts(regions, from, #[trigger] cands[k], dir)),
{
    if from < regions.len() {
        lemma_scan(regions, cands, from, dir);
        let (ov, fb) = scan(regions, cands, from, dir);
        if ov is None && fb is None {
            assert forall|k: int| 0 <= k < cands.len() implies !counts(regions, from, #[trigger] cands[k], dir) by {
                if counts(regions, from, cands[k], dir) {
                    assert(overlapping(regions, from, cands[k], dir));
                }
            }
        }
        if spec_nearest(regions, cands, from, dir) is None {
            assert(ov is None && fb is None);
        } else {
            let i = spec_nearest(regions, cands, from, dir)->0;
            let k = choose|k: int| 0 <= k < cands.len() && cands[k] == i;
            assert(counts(regions, from, cands[k], dir));
        }
    }
}

proof fn lemma_overlap_within(c: Rect, t: Rect, dir: Dir)
    ensures
        0 <= overlap_of(c, t, dir) <= cross_span(c, dir).1 - cross_span(c, dir).0,
{
}

/// Moving focus goes to the nearest: among the candidates ahead that
/// overlap the start across the movement, none is closer in the direction
/// of the move than the pick, and of those as close none overlaps more.
/// (It holds while the start is under 10000 cells across, so that an
/// overlap never outweighs a cell of distance.)
pub proof fn lemma_nearest_is_the_closest(regions: Seq<Rect>, cands: Seq<usize>, from: usize, dir: Dir, k: int)
    requires
        from < regions.len(),
        regions[from as int].width < 10000,
        regions[from as int].height < 10000,
        0 <= k < cands.len(),
        overlapping(regions, from, cands[k], dir),
    ensures
        spec_nearest(regions, cands, from, dir) matches Some(i) && ({
            let c = regions[from as int];
            let gi = imax(gap_to(c, regions[i as int], dir), 0);
            let gk = imax(gap_to(c, regions[cands[k] as int], dir), 0);
            &&& gi <= gk
            &&& gi == gk ==> overlap_of(c, regions[i as int], dir) >= overlap_of(c, regions[cands[k] as int], dir)
        }),
{
    lemma_nearest_is_ahead(regions, cands, from, dir);
    let c = regions[from as int];
    let i = spec_nearest(regions, cands, from, dir)->0;
    lemma_overlap_within(c, regions[i as int], dir);
    lemma_overlap_within(c, regions[cands[k] as int], dir);
    let gi = imax(gap_to(c, regions[i as int], dir), 0);
    let gk = imax(gap_to(c, regions[cands[k] as int], dir), 0);
    let oi = overlap_of(c, regions[i as int], dir);
    let ok = overlap_of(c, regions[cands[k] as int], dir);
    assert(gi * 10000 - oi <= gk * 10000 - ok);
    assert(0 < oi < 10000 && 0 < ok < 10000);
}

/// How far `t` is offset from `c` across the movement (where their cross
/// spans start).
pub open spec fn offset_across(c: Rect, t: Rect, dir: Dir) -> int {
    let d = cross_span(c, dir).0 - cross_span(t, dir).0;
    if d < 0 { -d } else { d }
}

/// Without a candidate that overlaps the start, moving focus still goes to
/// the nearest one ahead: none is closer in the direction of the move, and
/// of those as close none is less offset across it. (It holds while every
/// region starts within 10000 cells of the origin, so that an offset never
/// outweighs a cell of distance.)
pub proof fn lemma_nearest_without_overlap_is_the_closest(regions: Seq<Rect>, cands: Seq<usize>, from: usize, dir: Dir, k: int)
    requires
        from < regions.len(),
        forall|j: int| 0 <= j < regions.len() ==> (#[trigger] regions[j]).x < 10000 && regions[j].y < 10000,
        0 <= k < cands.len(),
        beside(regions, from, cands[k], dir),
        forall|m: int| 0 <= m < cands.len() ==> !overlapping(regions, from, #[trigger] cands[m], dir),
    ensures
        spec_nearest(regions, cands, from, dir) matches Some(i) && ({
            let c = regions[from as int];
            let gi = imax(gap_to(c, regions[i as int], dir), 0);
            let gk = imax(gap_to(c, regions[cands[k] as int], dir), 0);
            &&& gi <= gk
            &&& gi == gk ==> offset_across(c, regions[i as int], dir) <= offset_across(c, regions[cands[k] as int], dir)
        }),
{
    lemma_scan(regions, cands, from, dir);
    let (ov, fb) = scan(regions, cands, from, dir);
    let c = regions[from as int];
    if ov is Some {
        let j = match ov { Some((_, x)) => x, None => 0 };
        let m = choose|m: int| 0 <= m < cands.len() && cands[m] == j;
        assert(overlapping(regions, from, cands[m], dir));
    }
    assert(fb is Some);
    let i = match fb { Some((_, x)) => x, None => 0 };
    assert(spec_nearest(regions, cands, from, dir) == Some(i));
    let t = cands[k];
    assert(regions[i as int].x < 10000 && regions[i as int].y < 10000);
    assert(regions[t as int].x < 10000 && regions[t as int].y < 10000);
    assert(c.x < 10000 && c.y < 10000);
    let gi = imax(gap_to(c, regions[i as int], dir), 0);
    let gk = imax(gap_to(c, regions[t as int], dir), 0);
    assert(gi * 10000 + offset_across(c, regions[i as int], dir) <= gk * 10000 + offset_across(c, regions[t as int], dir));
}

/// The rectangles of some regions.
pub open spec fn rects_of<T>(regions: Seq<FocusRegion<T>>) -> Seq<Rect> {
    regions.map_values(|r: FocusRegion<T>| r.rect)
}

/// From region `from`, the nearest of `candidates` in direction `dir`.
///
/// Only candidates that start further along `dir` count. Candidates that
/// overlap `from` across the movement come first (moving down stays in the
/// same column), nearest first, then the larger overlap; without any, the
/// nearest other candidate, then the smaller offset. Ties go to the earlier
/// candidate.
#[verifier::spinoff_prover]
#[verifier::rlimit(40)]
pub fn nearest<T>(regions: &[FocusRegion<T>], candidates: &[usize], from: usize, dir: Dir) -> (r: Option<usize>)
    ensures
        r == spec_nearest(rects_of(regions@), candidates@, from, dir),
{
    let ghost rs = rects_of(regions@);
    if from >= regions.len() {
        return None;
    }
    let c = regions[from].rect;
    let mut ov: Option<(i64, usize)> = None;
    let mut fb: Option<(i64, usize)> = None;
    let mut k: usize = 0;
    while k < candidates.len()
        invariant
            rs == rects_of(regions@),
            from < regions@.len(),
            c == rs[from as int],
            k <= candidates@.len(),
            ({
                let (sov, sfb) = scan(rs, candidates@.take(k as int), from, dir);
                &&& sov == match ov { Some((s, i)) => Some((s as int, i)), None => None }
                &&& sfb == match fb { Some((s, i)) => Some((s as int, i)), None => None }
            }),
        decreases candidates@.len() - k,
    {
        let i = candidates[k];
        proof {
            assert(candidates@.take(k as int + 1).drop_last() =~= candidates@.take(k as int));
            assert(candidates@.take(k as int + 1).last() == i);
        }
        if i != from && i < regions.len() {
            let t = regions[i].rect;
            assert(t == rs[i as int]);
            let gap: i64 = match dir {
                Dir::Down => t.y as i64 - (c.y as i64 + c.height as i64),
                Dir::Up => c.y as i64 - (t.y as i64 + t.height as i64),
                Dir::Right => t.x as i64 - (c.x as i64 + c.width as i64),
                Dir::Left => c.x as i64 - (t.x as i64 + t.width as i64),
            };
            let ahead = match dir {
                Dir::Down => t.y > c.y,
                Dir::Up => t.y < c.y,
                Dir::Right => t.x > c.x,
                Dir::Left => t.x < c.x,
            };
            if ahead {
                let gap = if gap > 0 { gap } else { 0 };
                let (c_lo, c_hi, t_lo, t_hi): (i64, i64, i64, i64) = match dir {
                    Dir::Up | Dir::Down => (c.x as i64, c.x as i64 + c.width as i64, t.x as i64, t.x as i64 + t.width as i64),
                    Dir::Left | Dir::Right => (c.y as i64, c.y as i64 + c.height as i64, t.y as i64, t.y as i64 + t.height as i64),
                };
                let hi = if c_hi < t_hi { c_hi } else { t_hi };
                let lo = if c_lo > t_lo { c_lo } else { t_lo };
                let overlap = if hi - lo > 0 { hi - lo } else { 0 };
                if overlap > 0 {
                    let score = gap * 10000 - overlap;
                    match ov {
                        Some((b, _)) => {
                            if score < b {
                                ov = Some((score, i));
                            }
                        },
                        None => {
                            ov = Some((score, i));
                        },
                    }
                } else {
                    let d = c_lo - t_lo;
                    let perp = if d < 0 { -d } else { d };
                    let score = gap * 10000 + perp;
                    match fb {
                        Some((b, _)) => {
                            if score < b {
                                fb = Some((score, i));
                            }
                        },
                        None => {
                            fb = Some((score, i));
                        },
                    }
                }
            }
        }
        k = k + 1;
    }
    assert(candidates@.take(candidates@.len() as int) =~= candidates@);
    match ov {
        Some((_, i)) => Some(i),
        None => match fb {
            Some((_, i)) => Some(i),
            None => None,
        },
    }
}

/// Where `from` sits in `cands`, or -1.
pub open spec fn pos_in(cands: Seq<usize>, from: usize) -> int
    decreases cands.len(),
{
    if cands.len() == 0 {
        -1
    } else {
        let p = pos_in(cands.drop_last(), from);
        if p >= 0 { p } else if cands.last() == from { cands.len() - 1 } else { -1 }
    }
}

proof fn lemma_pos_in(cands: Seq<usize>, from: usize)
    ensures
        -1 <= pos_in(cands, from) < cands.len(),
        pos_in(cands, from) >= 0 ==> cands[pos_in(cands, from)] == from,
        pos_in(cands, from) >= 0 ==> forall|j: int| 0 <= j < pos_in(cands, from) ==> cands[j] != from,
        pos_in(cands, from) < 0 ==> forall|j: int| 0 <= j < cands.len() ==> cands[j] != from,
    decreases cands.len(),
{
    if cands.len() > 0 {
        let d = cands.drop_last();
        lemma_pos_in(d, from);
        assert forall|j: int| 0 <= j < pos_in(cands, from) implies cands[j] != from by {
            assert(cands[j] == d[j]);
        }
        assert forall|j: int| 0 <= j < cands.len() && pos_in(cands, from) < 0 implies cands[j] != from by {
            if j < cands.len() - 1 {
                assert(cands[j] == d[j]);
            }
        }
    }
}

/// Steps once around `candidates` in screen order from `from` (used when
/// no neighbour lies in the pressed direction): forward to the next, or
/// back to the previous, wrapping at either end. `None` when `from` is not
/// among the candidates.
pub fn wrap_within(candidates: &[usize], from: usize, forward: bool) -> (r: Option<usize>)
    ensures
        r == wrap_step(candidates@, from, forward),
{
    let n = candidates.len();
    if n == 0 {
        return None;
    }
    proof {
        lemma_pos_in(candidates@, from);
    }
    let mut i: usize = 0;
    while i < n
        invariant
            n == candidates@.len(),
            i <= n,
            forall|j: int| 0 <= j < i ==> candidates@[j] != from,
            -1 <= pos_in(candidates@, from) < n,
            pos_in(candidates@, from) >= 0 ==> candidates@[pos_in(candidates@, from)] == from,
            pos_in(candidates@, from) >= 0 ==> forall|j: int| 0 <= j < pos_in(candidates@, from) ==> candidates@[j] != from,
            pos_in(candidates@, from) < 0 ==> forall|j: int| 0 <= j < n ==> candidates@[j] != from,
        decreases n - i,
    {
        if candidates[i] == from {
            assert(pos_in(candidates@, from) == i);
            let k = if forward {
                if i + 1 == n { 0 } else { i + 1 }
            } else {
                if i == 0 { n - 1 } else { i - 1 }
            };
            assert(forward ==> k == (i + 1) % (n as int)) by (nonlinear_arith)
                requires
                    i < n,
                    forward ==> k == if i + 1 == n { 0 } else { i + 1 },
            ;
            assert(!forward ==> k == (i + n - 1) % (n as int)) by (nonlinear_arith)
                requires
                    i < n,
                    !forward ==> k == if i == 0 { n - 1 } else { i - 1 },
            ;
            return Some(candidates[k]);
        }
        i = i + 1;
    }
    None
}

/// The indices among the first `n` regions whose region has the given parent
/// (`None`: the top-level regions), in order.
pub open spec fn with_parent<T>(regs: Seq<FocusRegion<T>>, n: nat, parent: Option<usize>) -> Seq<usize>
    decreases n,
{
    if n == 0 {
        Seq::empty()
    } else {
        let before = with_parent(regs, (n - 1) as nat, parent);
        if regs[n - 1].parent == parent {
            before.push((n - 1) as usize)
        } else {
            before
        }
    }
}

/// The parent of region `i`, `None` for a top-level region or an index out
/// of range.
pub open spec fn parent_in<T>(regs: Seq<FocusRegion<T>>, i: int) -> Option<usize> {
    if 0 <= i < regs.len() { regs[i].parent } else { None }
}

/// The depth reached walking up from `cur` having taken `d` steps: each step
/// goes to the parent, and the walk gives up after 33 steps, so that
/// malformed data (a cycle) cannot hang it.
pub open spec fn depth_from<T>(regs: Seq<FocusRegion<T>>, cur: int, d: nat) -> nat
    decreases 33 - d,
{
    if d > 32 {
        d
    } else {
        match parent_in(regs, cur) {
            Some(p) => depth_from(regs, p as int, d + 1),
            None => d,
        }
    }
}

/// The ancestors met walking up from `cur` when the path already holds `len`
/// nodes: the walk stops at a top-level region or once the path holds 33.
pub open spec fn ancestors<T>(regs: Seq<FocusRegion<T>>, cur: int, len: nat) -> Seq<usize>
    decreases 33 - len,
{
    if len > 32 {
        Seq::empty()
    } else {
        match parent_in(regs, cur) {
            Some(p) => seq![p].add(ancestors(regs, p as int, len + 1)),
            None => Seq::empty(),
        }
    }
}

/// The selectable regions of one frame, rebuilt at every draw.
pub struct FocusRegistry<T> {
    regions: Vec<FocusRegion<T>>,
}

impl<T> View for FocusRegistry<T> {
    type V = Seq<FocusRegion<T>>;

    closed spec fn view(&self) -> Seq<FocusRegion<T>> {
        self.regions@
    }
}

impl<T> Default for FocusRegistry<T> {
    fn default() -> (r: FocusRegistry<T>)
        ensures
            r@ == Seq::<FocusRegion<T>>::empty(),
    {
        FocusRegistry { regions: Vec::new() }
    }
}

impl<T> FocusRegistry<T> {
    /// Forgets every region.
    pub fn clear(&mut self)
        ensures
            final(self)@ == Seq::<FocusRegion<T>>::empty(),
    {
        self.regions.clear();
    }

    /// Registers a region and gives its index. A region without area can be
    /// neither selected nor outlined: it is not kept, and the index is
    /// `usize::MAX` so that the caller can go on.
    fn push(&mut self, r: FocusRegion<T>) -> (i: usize)
        ensures
            (r.rect.width == 0 || r.rect.height == 0) ==> i == usize::MAX && final(self)@ == old(self)@,
            !(r.rect.width == 0 || r.rect.height == 0) ==> i == old(self)@.len() && final(self)@ == old(self)@.push(r),
    {
        if r.rect.width == 0 || r.rect.height == 0 {
            return usize::MAX;
        }
        let n = self.regions.len();
        self.regions.push(r);
        n
    }

    /// Registers a top-level panel and gives its index (its rows name it as
    /// their parent).
    pub fn add_panel(&mut self, rect: Rect, target: T, label: &str) -> (i: usize)
        ensures
            (rect.width == 0 || rect.height == 0) ==> i == usize::MAX && final(self)@ == old(self)@,
            !(rect.width == 0 || rect.height == 0) ==> i == old(self)@.len() && final(self)@.len() == old(self)@.len() + 1
                && final(self)@.drop_last() == old(self)@ && final(self)@.last().rect == rect
                && final(self)@.last().target == target && final(self)@.last().label@ == label@
                && final(self)@.last().parent is None && !final(self)@.last().scrollable
                && final(self)@.last().list_index is None,
    {
        let r = FocusRegion { rect, target, label: owned(label), parent: None, scrollable: false, list_index: None };
        let i = self.push(r);
        proof {
            if !(rect.width == 0 || rect.height == 0) {
                assert(final(self)@.drop_last() == old(self)@);
            }
        }
        i
    }

    /// Registers a top-level panel that stands for a concrete thing of the
    /// machine (a GPU, a network interface, a disk).
    pub fn add_entity_panel(&mut self, rect: Rect, target: T, label: &str) -> (i: usize)
        ensures
            (rect.width == 0 || rect.height == 0) ==> i == usize::MAX && final(self)@ == old(self)@,
            !(rect.width == 0 || rect.height == 0) ==> i == old(self)@.len() && final(self)@.len() == old(self)@.len() + 1
                && final(self)@.drop_last() == old(self)@ && final(self)@.last().rect == rect
                && final(self)@.last().target == target && final(self)@.last().label@ == label@
                && final(self)@.last().parent is None && !final(self)@.last().scrollable
                && final(self)@.last().list_index is None,
    {
        self.add_panel(rect, target, label)
    }

    /// Registers a top-level panel whose content is a scrollable list.
    pub fn add_list_panel(&mut self, rect: Rect, target: T, label: &str) -> (i: usize)
        ensures
            (rect.width == 0 || rect.height == 0) ==> i == usize::MAX && final(self)@ == old(self)@,
            !(rect.width == 0 || rect.height == 0) ==> i == old(self)@.len() && final(self)@.len() == old(self)@.len() + 1
                && final(self)@.drop_last() == old(self)@ && final(self)@.last().rect == rect
                && final(self)@.last().target == target && final(self)@.last().label@ == label@
                && final(self)@.last().parent is None && final(self)@.last().scrollable
                && final(self)@.last().list_index is None,
    {
        let r = FocusRegion { rect, target, label: owned(label), parent: None, scrollable: true, list_index: None };
        let i = self.push(r);
        proof {
            if !(rect.width == 0 || rect.height == 0) {
                assert(final(self)@.drop_last() == old(self)@);
            }
        }
        i
    }

    /// Registers a child of region `parent`, at any depth.
    pub fn add_child(&mut self, parent: usize, rect: Rect, target: T, label: &str) -> (i: usize)
        ensures
            (rect.width == 0 || rect.height == 0) ==> i == usize::MAX && final(self)@ == old(self)@,
            !(rect.width == 0 || rect.height == 0) ==> i == old(self)@.len() && final(self)@.len() == old(self)@.len() + 1
                && final(self)@.drop_last() == old(self)@ && final(self)@.last().rect == rect
                && final(self)@.last().target == target && final(self)@.last().label@ == label@
                && final(self)@.last().parent == Some(parent) && !final(self)@.last().scrollable
                && final(self)@.last().list_index is None,
    {
        let r = FocusRegion { rect, target, label: owned(label), parent: Some(parent), scrollable: false, list_index: None };
        let i = self.push(r);
        proof {
            if !(rect.width == 0 || rect.height == 0) {
                assert(final(self)@.drop_last() == old(self)@);
            }
        }
        i
    }

    /// Registers a child that stands for a concrete thing (one process, one
    /// mount point).
    pub fn add_entity_item(&mut self, parent: usize, rect: Rect, target: T, label: &str) -> (i: usize)
        ensures
            (rect.width == 0 || rect.height == 0) ==> i == usize::MAX && final(self)@ == old(self)@,
            !(rect.width == 0 || rect.height == 0) ==> i == old(self)@.len() && final(self)@.len() == old(self)@.len() + 1
                && final(self)@.drop_last() == old(self)@ && final(self)@.last().rect == rect
                && final(self)@.last().target == target && final(self)@.last().label@ == label@
                && final(self)@.last().parent == Some(parent) && !final(self)@.last().scrollable
                && final(self)@.last().list_index is None,
    {
        self.add_child(parent, rect, target, label)
    }

    /// Registers a row of a panel (the same as [`add_child`](Self::add_child)).
    pub fn add_item(&mut self, parent: usize, rect: Rect, target: T, label: &str) -> (i: usize)
        ensures
            (rect.width == 0 || rect.height == 0) ==> i == usize::MAX && final(self)@ == old(self)@,
            !(rect.width == 0 || rect.height == 0) ==> i == old(self)@.len() && final(self)@.len() == old(self)@.len() + 1
                && final(self)@.drop_last() == old(self)@ && final(self)@.last().rect == rect
                && final(self)@.last().target == target && final(self)@.last().label@ == label@
                && final(self)@.last().parent == Some(parent) && !final(self)@.last().scrollable
                && final(self)@.last().list_index is None,
    {
        self.add_child(parent, rect, target, label)
    }

    /// Registers a child whose content can be drilled into further.
    pub fn add_list_child(&mut self, parent: usize, rect: Rect, target: T, label: &str) -> (i: usize)
        ensures
            (rect.width == 0 || rect.height == 0) ==> i == usize::MAX && final(self)@ == old(self)@,
            !(rect.width == 0 || rect.height == 0) ==> i == old(self)@.len() && final(self)@.len() == old(self)@.len() + 1
                && final(self)@.drop_last() == old(self)@ && final(self)@.last().rect == rect
                && final(self)@.last().target == target && final(self)@.last().label@ == label@
                && final(self)@.last().parent == Some(parent) && final(self)@.last().scrollable
                && final(self)@.last().list_index is None,
    {
        let r = FocusRegion { rect, target, label: owned(label), parent: Some(parent), scrollable: true, list_index: None };
        let i = self.push(r);
        proof {
            if !(rect.width == 0 || rect.height == 0) {
                assert(final(self)@.drop_last() == old(self)@);
            }
        }
        i
    }

    /// Registers a row of a scrollable list with its index in the whole list,
    /// so that the selection can find the same row again after a scroll.
    pub fn add_row(&mut self, parent: usize, rect: Rect, target: T, label: &str, index: usize) -> (i: usize)
        ensures
            (rect.width == 0 || rect.height == 0) ==> i == usize::MAX && final(self)@ == old(self)@,
            !(rect.width == 0 || rect.height == 0) ==> i == old(self)@.len() && final(self)@.len() == old(self)@.len() + 1
                && final(self)@.drop_last() == old(self)@ && final(self)@.last().rect == rect
                && final(self)@.last().target == target && final(self)@.last().label@ == label@
                && final(self)@.last().parent == Some(parent) && !final(self)@.last().scrollable
                && final(self)@.last().list_index == Some(index),
    {
        let r = FocusRegion { rect, target, label: owned(label), parent: Some(parent), scrollable: false, list_index: Some(index) };
        let i = self.push(r);
        proof {
            if !(rect.width == 0 || rect.height == 0) {
                assert(final(self)@.drop_last() == old(self)@);
            }
        }
        i
    }

    /// The first child of `parent` whose index in the whole list is `index`.
    pub fn row_with_index(&self, parent: usize, index: usize) -> (r: Option<usize>)
        ensures
            match r {
                Some(k) => k < self@.len() && self@[k as int].parent == Some(parent) && self@[k as int].list_index == Some(index)
                    && forall|j: int| 0 <= j < k ==> !(self@[j].parent == Some(parent) && self@[j].list_index == Some(index)),
                None => forall|j: int| 0 <= j < self@.len() ==> !(self@[j].parent == Some(parent) && self@[j].list_index == Some(index)),
            },
    {
        let mut k: usize = 0;
        while k < self.regions.len()
            invariant
                k <= self@.len(),
                self@ == self.regions@,
                forall|j: int| 0 <= j < k ==> !(self@[j].parent == Some(parent) && self@[j].list_index == Some(index)),
            decreases self@.len() - k,
        {
            let r = &self.regions[k];
            let p_ok = match r.parent {
                Some(q) => q == parent,
                None => false,
            };
            let i_ok = match r.list_index {
                Some(q) => q == index,
                None => false,
            };
            if p_ok && i_ok {
                return Some(k);
            }
            k = k + 1;
        }
        None
    }

    /// How many regions there are.
    pub fn len(&self) -> (n: usize)
        ensures
            n == self@.len(),
    {
        self.regions.len()
    }

    /// Whether there are no regions.
    pub fn is_empty(&self) -> (b: bool)
        ensures
            b == (self@.len() == 0),
    {
        self.regions.len() == 0
    }

    /// Region `i`, if there is one.
    pub fn get(&self, i: usize) -> (r: Option<&FocusRegion<T>>)
        ensures
            i < self@.len() ==> r == Some(&self@[i as int]),
            i >= self@.len() ==> r is None,
    {
        if i < self.regions.len() {
            Some(&self.regions[i])
        } else {
            None
        }
    }

    /// All the regions, in the order they were registered.
    pub fn all(&self) -> (r: &[FocusRegion<T>])
        ensures
            r@ == self@,
    {
        self.regions.as_slice()
    }

    fn indices_with_parent(&self, parent: Option<usize>) -> (v: Vec<usize>)
        ensures
            v@ == with_parent(self@, self@.len(), parent),
    {
        let mut v: Vec<usize> = Vec::new();
        let mut k: usize = 0;
        while k < self.regions.len()
            invariant
                k <= self@.len(),
                self@ == self.regions@,
                v@ == with_parent(self@, k as nat, parent),
            decreases self@.len() - k,
        {
            let same = match (self.regions[k].parent, parent) {
                (Some(a), Some(b)) => a == b,
                (None, None) => true,
                _ => false,
            };
            if same {
                v.push(k);
            }
            k = k + 1;
        }
        v
    }

    /// The indices of all top-level panels, in order.
    pub fn panels(&self) -> (v: Vec<usize>)
        ensures
            v@ == with_parent(self@, self@.len(), None),
    {
        self.indices_with_parent(None)
    }

    /// The indices of the rows of `panel`, in order.
    pub fn items_of(&self, panel: usize) -> (v: Vec<usize>)
        ensures
            v@ == with_parent(self@, self@.len(), Some(panel)),
    {
        self.indices_with_parent(Some(panel))
    }

    /// The panel that region `i` belongs to (a panel belongs to itself).
    pub fn panel_of(&self, i: usize) -> (r: Option<usize>)
        ensures
            i >= self@.len() ==> r is None,
            i < self@.len() ==> r == Some(match self@[i as int].parent {
                Some(p) => p,
                None => i,
            }),
    {
        if i >= self.regions.len() {
            return None;
        }
        match self.regions[i].parent {
            Some(p) => Some(p),
            None => Some(i),
        }
    }

    /// The regions without a parent, in order.
    pub fn roots(&self) -> (v: Vec<usize>)
        ensures
            v@ == with_parent(self@, self@.len(), None),
    {
        self.indices_with_parent(None)
    }

    /// The direct children of region `i`, in order.
    pub fn children_of(&self, i: usize) -> (v: Vec<usize>)
        ensures
            v@ == with_parent(self@, self@.len(), Some(i)),
    {
        self.indices_with_parent(Some(i))
    }

    /// The parent of region `i`.
    pub fn parent_of(&self, i: usize) -> (r: Option<usize>)
        ensures
            r == parent_in(self@, i as int),
    {
        if i < self.regions.len() {
            self.regions[i].parent
        } else {
            None
        }
    }

    /// The regions on the same level under the same parent as `i`, itself
    /// included: the arrow keys move only within this set.
    pub fn siblings_of(&self, i: usize) -> (v: Vec<usize>)
        ensures
            v@ == with_parent(self@, self@.len(), parent_in(self@, i as int)),
    {
        match self.parent_of(i) {
            Some(p) => self.children_of(p),
            None => self.roots(),
        }
    }

    /// The depth of region `i` in the tree (top level is 0). The walk up
    /// gives up after 33 steps, so malformed data cannot hang it.
    pub fn depth_of(&self, i: usize) -> (d: usize)
        ensures
            d == depth_from(self@, i as int, 0),
            d <= 33,
    {
        let mut d: usize = 0;
        let mut cur: usize = i;
        proof {
            lemma_depth_bound(self@, i as int, 0);
        }
        loop
            invariant
                self@ == self.regions@,
                d <= 33,
                depth_from(self@, cur as int, d as nat) == depth_from(self@, i as int, 0),
            decreases 33 - d,
        {
            if d > 32 {
                return d;
            }
            let p = self.parent_of(cur);
            match p {
                Some(q) => {
                    d = d + 1;
                    cur = q;
                },
                None => {
                    return d;
                },
            }
        }
    }

    /// The path from the top level down to region `i` (for breadcrumbs): at
    /// most 33 regions, ending with `i`.
    pub fn path_to(&self, i: usize) -> (path: Vec<usize>)
        ensures
            path@ == seq![i].add(ancestors(self@, i as int, 1)).reverse(),
    {
        let mut up: Vec<usize> = Vec::new();
        up.push(i);
        let mut cur: usize = i;
        loop
            invariant
                self@ == self.regions@,
                1 <= up@.len() <= 33,
                up@.add(ancestors(self@, cur as int, up@.len())) == seq![i].add(ancestors(self@, i as int, 1)),
            ensures
                1 <= up@.len() <= 33,
                up@.add(ancestors(self@, cur as int, up@.len())) == seq![i].add(ancestors(self@, i as int, 1)),
                ancestors(self@, cur as int, up@.len()) == Seq::<usize>::empty(),
            decreases 33 - up@.len(),
        {
            if up.len() > 32 {
                break;
            }
            let p = self.parent_of(cur);
            match p {
                Some(q) => {
                    let ghost before = up@;
                    up.push(q);
                    proof {
                        assert(ancestors(self@, cur as int, before.len()) == seq![q].add(ancestors(self@, q as int, before.len() + 1)));
                        assert(before.add(seq![q].add(ancestors(self@, q as int, before.len() + 1)))
                            == before.push(q).add(ancestors(self@, q as int, before.len() + 1)));
                    }
                    cur = q;
                },
                None => {
                    break;
                },
            }
        }
        assert(up@.add(Seq::<usize>::empty()) == up@);
        let mut path: Vec<usize> = Vec::new();
        let mut k: usize = up.len();
        while k > 0
            invariant
                k <= up@.len(),
                path@ == up@.subrange(k as int, up@.len() as int).reverse(),
            decreases k,
        {
            k = k - 1;
            path.push(up[k]);
            proof {
                assert(up@.subrange(k as int, up@.len() as int).reverse()
                    =~= up@.subrange(k + 1, up@.len() as int).reverse().push(up@[k as int]));
            }
        }
        assert(up@.subrange(0, up@.len() as int) == up@);
        path
    }
}

proof fn lemma_depth_bound<T>(regs: Seq<FocusRegion<T>>, cur: int, d: nat)
    requires
        d <= 33,
    ensures
        d <= depth_from(regs, cur, d) <= 33,
    decreases 33 - d,
{
    if d <= 32 {
        match parent_in(regs, cur) {
            Some(p) => lemma_depth_bound(regs, p as int, d + 1),
            None => {},
        }
    }
}

proof fn lemma_ancestors_len<T>(regs: Seq<FocusRegion<T>>, cur: int, d: nat)
    requires
        d <= 32,
    ensures
        ancestors(regs, cur, d + 1).len() + d == if depth_from(regs, cur, d) < 32 { depth_from(regs, cur, d) } else { 32 },
    decreases 32 - d,
{
    if d < 32 {
        match parent_in(regs, cur) {
            Some(p) => lemma_ancestors_len(regs, p as int, d + 1),
            None => {},
        }
    } else {
        match parent_in(regs, cur) {
            Some(p) => {
                assert(depth_from(regs, p as int, 33) == 33);
            },
            None => {},
        }
    }
}

proof fn lemma_ancestors_chain<T>(regs: Seq<FocusRegion<T>>, cur: usize, len: nat)
    ensures
        ({
            let up = seq![cur].add(ancestors(regs, cur as int, len));
            forall|j: int| 0 <= j < up.len() - 1 ==> parent_in(regs, #[trigger] up[j] as int) == Some(up[j + 1])
        }),
    decreases 33 - len,
{
    let up = seq![cur].add(ancestors(regs, cur as int, len));
    if len <= 32 {
        match parent_in(regs, cur as int) {
            Some(p) => {
                lemma_ancestors_chain(regs, p, len + 1);
                let rest = seq![p].add(ancestors(regs, p as int, len + 1));
                assert(up == seq![cur].add(rest));
                assert forall|j: int| 0 <= j < up.len() - 1 implies parent_in(regs, #[trigger] up[j] as int) == Some(up[j + 1]) by {
                    if j > 0 {
                        assert(up[j] == rest[j - 1]);
                        assert(up[j + 1] == rest[j]);
                    }
                }
            },
            None => {},
        }
    }
}

/// The breadcrumb path and the depth agree: the path to `i` ends at `i`,
/// each region on it is the parent of the next, and it holds one region
/// more than the depth of `i` (both walks give up on data that nests deeper
/// than 32 levels).
pub proof fn lemma_path_follows_parents<T>(regs: Seq<FocusRegion<T>>, i: usize)
    ensures
        ({
            let path = seq![i].add(ancestors(regs, i as int, 1)).reverse();
            &&& path.len() == (if depth_from(regs, i as int, 0) < 32 { depth_from(regs, i as int, 0) } else { 32 }) + 1
            &&& path.last() == i
            &&& forall|k: int| 0 <= k < path.len() - 1 ==> parent_in(regs, #[trigger] path[k + 1] as int) == Some(path[k])
        }),
{
    lemma_ancestors_len(regs, i as int, 0);
    lemma_ancestors_chain(regs, i, 1);
    let up = seq![i].add(ancestors(regs, i as int, 1));
    let path = up.reverse();
    assert(path.last() == up[0]);
    assert forall|k: int| 0 <= k < path.len() - 1 implies parent_in(regs, #[trigger] path[k + 1] as int) == Some(path[k]) by {
        let j = up.len() - 2 - k;
        assert(path[k + 1] == up[j]);
        assert(path[k] == up[j + 1]);
    }
}

proof fn lemma_with_parent_members<T>(regs: Seq<FocusRegion<T>>, n: nat, parent: Option<usize>)
    requires
        n <= regs.len(),
        regs.len() <= usize::MAX,
    ensures
        forall|j: int| 0 <= j < with_parent(regs, n, parent).len() ==> {
            let k = #[trigger] with_parent(regs, n, parent)[j];
            k < n && regs[k as int].parent == parent
        },
        forall|k: usize| k < n && regs[k as int].parent == parent ==> #[trigger] with_parent(regs, n, parent).contains(k),
        forall|a: int, b: int| 0 <= a < b < with_parent(regs, n, parent).len() ==> with_parent(regs, n, parent)[a] < with_parent(regs, n, parent)[b],
    decreases n,
{
    if n > 0 {
        lemma_with_parent_members(regs, (n - 1) as nat, parent);
        let before = with_parent(regs, (n - 1) as nat, parent);
        if regs[n - 1].parent == parent {
            let now = before.push((n - 1) as usize);
            assert(((n - 1) as usize) as int == n - 1);
            assert forall|j: int| 0 <= j < now.len() implies {
                let k = #[trigger] now[j];
                k < n && regs[k as int].parent == parent
            } by {
                if j < before.len() {
                    assert(now[j] == before[j]);
                }
            }
            assert forall|a: int, b: int| 0 <= a < b < now.len() implies now[a] < now[b] by {
                assert(now[a] == before[a]);
                if b < before.len() {
                    assert(now[b] == before[b]);
                } else {
                    let k = before[a];
                    assert(k < n - 1);
                }
            }
            assert forall|k: usize| k < n && regs[k as int].parent == parent implies #[trigger] now.contains(k) by {
                if k == n - 1 {
                    assert(now[before.len() as int] == k);
                } else {
                    assert(before.contains(k));
                    let t = choose|t: int| 0 <= t < before.len() && before[t] == k;
                    assert(now[t] == k);
                }
            }
        }
    }
}

/// The sibling sets are exact: every region of a sibling set has the same
/// parent, each appears once in screen order, and every region with that
/// parent is in it; in particular a region is among its own siblings.
pub proof fn lemma_siblings_exact<T>(regs: Seq<FocusRegion<T>>, i: usize)
    requires
        i < regs.len(),
        regs.len() <= usize::MAX,
    ensures
        ({
            let sib = with_parent(regs, regs.len(), parent_in(regs, i as int));
            &&& sib.contains(i)
            &&& forall|j: int| 0 <= j < sib.len() ==> (#[trigger] sib[j] as int) < regs.len() && regs[sib[j] as int].parent == regs[i as int].parent
            &&& forall|a: int, b: int| 0 <= a < b < sib.len() ==> sib[a] < sib[b]
            &&& forall|k: usize| k < regs.len() && regs[k as int].parent == regs[i as int].parent ==> sib.contains(k)
        }),
{
    lemma_with_parent_members(regs, regs.len(), parent_in(regs, i as int));
}

/// The step a wrap takes: the candidate after (or before) `from`'s place,
/// wrapping at the ends.
pub open spec fn wrap_step(cands: Seq<usize>, from: usize, forward: bool) -> Option<usize> {
    let n = cands.len() as int;
    let p = pos_in(cands, from);
    if n == 0 || p < 0 {
        None
    } else if forward {
        Some(cands[(p + 1) % n])
    } else {
        Some(cands[(p + n - 1) % n])
    }
}

/// Wrapping stays within the candidates and can be undone: among distinct
/// candidates, a step forward from one of them lands on a candidate, and a
/// step back from there returns to where it started (and the other way
/// round).
pub proof fn lemma_wrap_is_undone(cands: Seq<usize>, from: usize, forward: bool)
    requires
        cands.contains(from),
        forall|i: int, j: int| 0 <= i < j < cands.len() ==> cands[i] != cands[j],
    ensures
        wrap_step(cands, from, forward) matches Some(to) && cands.contains(to)
            && wrap_step(cands, to, !forward) == Some(from),
{
    let n = cands.len() as int;
    lemma_pos_in(cands, from);
    let p = pos_in(cands, from);
    if p < 0 {
        let k = choose|k: int| 0 <= k < cands.len() && cands[k] == from;
        assert(cands[k] != from);
    }
    let q = if forward { (p + 1) % n } else { (p + n - 1) % n };
    let to = cands[q];
    assert(0 <= q < n);
    assert(cands.contains(to));
    lemma_pos_in(cands, to);
    let pq = pos_in(cands, to);
    if pq != q {
        if pq < 0 {
            assert(cands[q] != to);
        } else if pq < q {
            assert(cands[pq] == to);
        } else {
            assert(cands[q] != to);
        }
    }
    assert(pq == q);
    if forward {
        assert((q + n - 1) % n == p) by (nonlinear_arith)
            requires
                0 <= p < n,
                q == (p + 1) % n,
        {
            if p + 1 < n {
                assert(q == p + 1);
                assert((p + n) % n == p);
            } else {
                assert(q == 0);
            }
        }
    } else {
        assert((q + 1) % n == p) by (nonlinear_arith)
            requires
                0 <= p < n,
                q == (p + n - 1) % n,
        {
            if p >= 1 {
                assert(q == p - 1);
            } else {
                assert(q == n - 1);
            }
        }
    }
}

} // verus!
