//! Where the pieces of a panel's rounded frame go: the title and subtitle
//! set into the top border, and the inner area the content gets.
//!
//! ```text
//! ╭─┤ CPU ├─────────────┤ 62.5 GB ├──╮
//! │                                  │
//! ╰──────────────────────────────────╯
//! ```
//!
//! A title that does not fit is cut; a subtitle that does not fit is
//! dropped: neither may push through the corners.

use vstd::prelude::*;
use vstd::string::StringExecFns;
use crate::chars::str_width;
use crate::format::{spec_truncate, truncate, width};
use crate::layout::{on_grid, Rect};

verus! {

/// `area` shrunk by `h` columns on the left and right and `v` rows on the
/// top and bottom; the size never goes below zero.
pub fn inset(area: Rect, h: u16, v: u16) -> (r: Rect)
    requires
        area.x + h <= u16::MAX,
        area.y + v <= u16::MAX,
        2 * h <= u16::MAX,
        2 * v <= u16::MAX,
    ensures
        r.x == area.x + h,
        r.y == area.y + v,
        r.width == if area.width >= 2 * h { area.width - 2 * h } else { 0 },
        r.height == if area.height >= 2 * v { area.height - 2 * v } else { 0 },
{
    let hh = h * 2;
    let vv = v * 2;
    Rect {
        x: area.x + h,
        y: area.y + v,
        width: if area.width >= hh { area.width - hh } else { 0 },
        height: if area.height >= vv { area.height - vv } else { 0 },
    }
}

/// Where a panel's frame puts its pieces.
#[derive(Clone, Debug)]
pub struct PanelFrame {
    /// What is left inside the border for the content.
    pub inner: Rect,
    /// The title as shown (cut to the room there is; empty draws nothing).
    pub title: String,
    /// The column of the title's left bracket `┤ `; the title follows two
    /// columns later.
    pub title_at: u16,
    /// The column of the title's right bracket ` ├`.
    pub title_end: u16,
    /// The subtitle as shown and the column of its left bracket, when it fits.
    pub subtitle: Option<(u16, String)>,
}

/// The room a title gets: the width less the corners, the brackets and a
/// column of border on each side.
pub open spec fn title_room(area: Rect) -> nat {
    if area.width >= 6 { (area.width - 6) as nat } else { 0 }
}

/// The title as shown.
pub open spec fn shown_title(area: Rect, title: Seq<char>) -> Seq<char> {
    spec_truncate(title, title_room(area))
}

/// The column after the title's text (its left bracket when there is no
/// title), held at the last column of the grid.
pub open spec fn after_title(area: Rect, title: Seq<char>) -> int {
    if shown_title(area, title).len() == 0 {
        area.x + 2
    } else if area.x + 4 + str_width(shown_title(area, title)) <= u16::MAX {
        area.x + 4 + str_width(shown_title(area, title))
    } else {
        u16::MAX as int
    }
}

/// The room a subtitle gets: what the title left, less the brackets and
/// some border on either side.
pub open spec fn subtitle_room(area: Rect, title: Seq<char>) -> nat {
    let used = after_title(area, title) - area.x + 2;
    if area.width >= used + 8 { (area.width - used - 8) as nat } else { 0 }
}

/// The subtitle as cut to its room.
pub open spec fn shown_subtitle(area: Rect, title: Seq<char>, sub: Seq<char>) -> Seq<char> {
    spec_truncate(sub, subtitle_room(area, title))
}

/// The column of the subtitle's left bracket: five columns and the
/// subtitle from the right edge (the left edge when that does not fit).
pub open spec fn subtitle_at(area: Rect, sw: int) -> int {
    if area.width >= 5 + sw { area.x + area.width - 5 - sw } else { area.x as int }
}

/// The frame of a panel over `area`, or `None` when the area is too small to
/// hold a border (less than 2×2): then nothing is drawn and the content gets
/// no room.
pub fn panel_frame(area: Rect, title: &str, subtitle: Option<&str>) -> (p: Option<PanelFrame>)
    requires
        on_grid(area),
    ensures
        (area.width < 2 || area.height < 2) <==> p is None,
        p matches Some(f) ==> {
            &&& f.inner == (Rect { x: (area.x + 1) as u16, y: (area.y + 1) as u16, width: (area.width - 2) as u16, height: (area.height - 2) as u16 })
            &&& f.title@ == shown_title(area, title@)
            &&& f.title_at == area.x + 2
            &&& f.title_end == after_title(area, title@)
            &&& match subtitle {
                None => f.subtitle is None,
                Some(s) => {
                    let sub = shown_subtitle(area, title@, s@);
                    let sw = str_width(sub) as int;
                    let sx = subtitle_at(area, sw);
                    if sw > 0 && sx > after_title(area, title@) {
                        f.subtitle matches Some((x, t)) && x == sx && t@ == sub
                    } else {
                        f.subtitle is None
                    }
                },
            }
        },
{
    if area.width < 2 || area.height < 2 {
        return None;
    }
    let room = if area.width >= 6 { area.width - 6 } else { 0 };
    let t = truncate(title, room as usize);
    let mut x: u16 = area.x + 2;
    if t.as_str().unicode_len() > 0 {
        let tw = width(t.as_str());
        x = if tw <= 65535 && x as usize + 2 + tw <= 65535 { (x as usize + 2 + tw) as u16 } else { u16::MAX };
    }
    let sub = match subtitle {
        None => None,
        Some(s) => {
            let used: usize = (x - area.x) as usize + 2;
            let budget: usize = if (area.width as usize) >= used + 8 { area.width as usize - used - 8 } else { 0 };
            let st = truncate(s, budget);
            let sw = width(st.as_str());
            if sw > 0 {
                let sx: u16 = if sw <= area.width as usize && area.width as usize >= 5 + sw {
                    (area.x as usize + (area.width as usize - 5 - sw)) as u16
                } else {
                    area.x
                };
                if sx > x { Some((sx, st)) } else { None }
            } else {
                None
            }
        },
    };
    Some(PanelFrame {
        inner: Rect { x: area.x + 1, y: area.y + 1, width: area.width - 2, height: area.height - 2 },
        title: t,
        title_at: area.x + 2,
        title_end: x,
        subtitle: sub,
    })
}

} // verus!
