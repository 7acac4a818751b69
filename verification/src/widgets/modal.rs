//! What an overlay tells the user they can do.
//!
//! Each overlay declares the operations it really supports ([`Cap`]); the
//! hint line is derived from that, so it never lies: a window that scrolls
//! says "any *other* key closes", because the arrows do not close it.

use vstd::prelude::*;
use crate::chars::str_width;
use crate::format::width;
use crate::layout::{on_grid, Rect};

verus! {

/// An operation an overlay really supports.
#[derive(Clone, Copy, Debug, PartialEq, Eq, Structural)]
pub enum Cap {
    /// The content is longer than the window; ↑↓ scroll it.
    Scroll,
    /// ←→ choose, Enter confirms.
    Choose,
    /// Playing the game.
    Play,
    /// After game over: restart only.
    Restart,
    /// Any key closes (any *other* key, with [`Cap::Scroll`]).
    CloseAny,
    /// Only Esc closes.
    CloseEsc,
    /// Any key starts (the splash screen).
    StartAny,
    /// Typing a name: Enter submits, Esc skips; nothing else is hinted.
    Name,
}

/// Whether the caps include `c`.
pub open spec fn has_cap(caps: Seq<Cap>, c: Cap) -> bool {
    exists|i: int| 0 <= i < caps.len() && caps[i] == c
}

/// The hint pairs (key, action) for a set of caps: what can be done
/// first, the way out last.
pub open spec fn spec_hint(caps: Seq<Cap>) -> Seq<(Seq<char>, Seq<char>)> {
    if has_cap(caps, Cap::Name) {
        seq![("Enter"@, "送出"@), ("Esc"@, "不記錄"@)]
    } else {
        let a = if has_cap(caps, Cap::Scroll) { seq![("↑↓"@, "捲動"@)] } else { Seq::empty() };
        let b = if has_cap(caps, Cap::Choose) { seq![("←→"@, "選擇"@), ("Enter"@, "確認"@)] } else { Seq::empty() };
        let c = if has_cap(caps, Cap::Play) {
            seq![("空白 / ↑"@, "跳"@), ("↓"@, "蹲"@), ("r"@, "重來"@)]
        } else {
            Seq::empty()
        };
        let d = if has_cap(caps, Cap::Restart) { seq![("r"@, "重來"@)] } else { Seq::empty() };
        let e = if has_cap(caps, Cap::StartAny) {
            seq![("任意鍵"@, "開始"@)]
        } else if has_cap(caps, Cap::CloseEsc) {
            seq![("Esc"@, if has_cap(caps, Cap::Choose) { "取消"@ } else { "關閉"@ })]
        } else if has_cap(caps, Cap::CloseAny) {
            if has_cap(caps, Cap::Scroll) { seq![("其他任意鍵"@, "關閉"@)] } else { seq![("任意鍵"@, "關閉"@)] }
        } else {
            Seq::empty()
        };
        a + b + c + d + e
    }
}

/// The views of hint pairs.
pub open spec fn pair_views(v: Seq<(&'static str, &'static str)>) -> Seq<(Seq<char>, Seq<char>)> {
    v.map_values(|p: (&'static str, &'static str)| (p.0@, p.1@))
}

fn has(caps: &[Cap], c: Cap) -> (r: bool)
    ensures
        r == has_cap(caps@, c),
{
    let mut i: usize = 0;
    while i < caps.len()
        invariant
            i <= caps@.len(),
            forall|j: int| 0 <= j < i ==> caps@[j] != c,
        decreases caps@.len() - i,
    {
        if caps[i] == c {
            return true;
        }
        i = i + 1;
    }
    false
}

fn push_pair(out: &mut Vec<(&'static str, &'static str)>, k: &'static str, d: &'static str)
    ensures
        pair_views(final(out)@) == pair_views(old(out)@).push((k@, d@)),
{
    out.push((k, d));
    assert(pair_views(final(out)@) =~= pair_views(old(out)@).push((k@, d@)));
}

/// The hint line for what an overlay supports.
pub fn hint(caps: &[Cap]) -> (r: Vec<(&'static str, &'static str)>)
    ensures
        pair_views(r@) == spec_hint(caps@),
{
    let mut out: Vec<(&'static str, &'static str)> = Vec::new();
    if has(caps, Cap::Name) {
        push_pair(&mut out, "Enter", "送出");
        push_pair(&mut out, "Esc", "不記錄");
        assert(pair_views(out@) =~= spec_hint(caps@));
        return out;
    }
    let ghost g0 = pair_views(out@);
    assert(g0 =~= Seq::<(Seq<char>, Seq<char>)>::empty());
    let scroll = has(caps, Cap::Scroll);
    let choose_cap = has(caps, Cap::Choose);
    if scroll {
        push_pair(&mut out, "↑↓", "捲動");
    }
    let ghost ga = pair_views(out@);
    if choose_cap {
        push_pair(&mut out, "←→", "選擇");
        push_pair(&mut out, "Enter", "確認");
    }
    let ghost gb = pair_views(out@);
    if has(caps, Cap::Play) {
        push_pair(&mut out, "空白 / ↑", "跳");
        push_pair(&mut out, "↓", "蹲");
        push_pair(&mut out, "r", "重來");
    }
    let ghost gc = pair_views(out@);
    if has(caps, Cap::Restart) {
        push_pair(&mut out, "r", "重來");
    }
    let ghost gd = pair_views(out@);
    if has(caps, Cap::StartAny) {
        push_pair(&mut out, "任意鍵", "開始");
    } else if has(caps, Cap::CloseEsc) {
        push_pair(&mut out, "Esc", if choose_cap { "取消" } else { "關閉" });
    } else if has(caps, Cap::CloseAny) {
        if scroll {
            push_pair(&mut out, "其他任意鍵", "關閉");
        } else {
            push_pair(&mut out, "任意鍵", "關閉");
        }
    }
    assert(pair_views(out@) =~= spec_hint(caps@));
    out
}

/// The columns a hint line takes: each key, a space and its description,
/// with ` · ` between entries.
pub open spec fn hint_width(line: Seq<(&'static str, &'static str)>) -> int
    decreases line.len(),
{
    if line.len() == 0 {
        0
    } else {
        let rest = hint_width(line.drop_last());
        let (k, d) = line.last();
        rest + str_width(k@) + str_width(d@) + 1 + if line.len() > 1 { 3int } else { 0int }
    }
}

/// Where a hint line is drawn inside an overlay: right-aligned on its last
/// row, as `(column, row)` of its first key; `None` when the overlay has no
/// row or the line does not fit its width (a hint is dropped, not wrapped).
pub fn hint_start(inner: Rect, line: &[(&'static str, &'static str)]) -> (p: Option<(u16, u16)>)
    requires
        on_grid(inner),
    ensures
        inner.height == 0 || hint_width(line@) > inner.width <==> p is None,
        p matches Some((x, y)) ==> x == inner.x + inner.width - hint_width(line@) && y == inner.y + inner.height - 1,
{
    if inner.height == 0 {
        return None;
    }
    let mut total: usize = 0;
    let mut i: usize = 0;
    while i < line.len()
        invariant
            i <= line@.len(),
            total == hint_width(line@.take(i as int)),
            total <= inner.width,
        decreases line@.len() - i,
    {
        let (k, d) = line[i];
        let kw = width(k);
        let dw = width(d);
        let sep: usize = if i > 0 { 3 } else { 0 };
        assert(line@.take(i + 1).drop_last() =~= line@.take(i as int));
        proof {
            lemma_hint_width_grows(line@, i as int + 1);
            assert(line@.take(i + 1).last() == line@[i as int]);
            assert(hint_width(line@.take(i + 1)) == total + kw + dw + 1 + sep);
            assert(line@.take(line@.len() as int) =~= line@);
            assert(hint_width(line@.take(i + 1)) <= hint_width(line@.take(line@.len() as int)));
        }
        if kw > inner.width as usize || dw > inner.width as usize {
            return None;
        }
        let next = total + kw + dw + 1 + sep;
        if next > inner.width as usize {
            return None;
        }
        total = next;
        i = i + 1;
    }
    assert(line@.take(line@.len() as int) =~= line@);
    Some((inner.x + (inner.width - total as u16), inner.y + inner.height - 1))
}

proof fn lemma_hint_width_grows(line: Seq<(&'static str, &'static str)>, n: int)
    requires
        0 <= n <= line.len(),
    ensures
        forall|m: int| n <= m <= line.len() ==> hint_width(line.take(n)) <= #[trigger] hint_width(line.take(m)),
    decreases line.len() - n,
{
    if n < line.len() {
        lemma_hint_width_grows(line, n + 1);
        assert(line.take(n + 1).drop_last() =~= line.take(n));
    }
}

/// What is left for an overlay's content inside its frame: the area less
/// the hint line and the row above it, when a hint is drawn (only when
/// there is one and the area has at least three rows).
pub fn modal_body(inner: Rect, hinted: bool) -> (r: Rect)
    ensures
        r == if inner.width == 0 || inner.height == 0 || !hinted || inner.height < 3 {
            inner
        } else {
            Rect { height: (inner.height - 2) as u16, ..inner }
        },
{
    if inner.width == 0 || inner.height == 0 || !hinted || inner.height < 3 {
        inner
    } else {
        Rect { height: inner.height - 2, ..inner }
    }
}

} // verus!
