//! Decoration slots: where the logo, the mascot and the signature line may
//! be drawn. Every "can it be drawn here" decision lives here, so a caller
//! hands over an area and nothing half-drawn ever breaks its layout.

use vstd::prelude::*;
use vstd::string::StringExecFns;
use crate::chars::{owned, str_width};
use crate::format::{spec_truncate, truncate, width};
use crate::layout::{on_grid, Rect};
use crate::visual::{Decoration, level};
use crate::visual::glyph::string_views;
use crate::visual::logo::{spec_render, spec_word, tagline, Brand};
use crate::visual::mascot::{ground, ground_at, Species, State};

verus! {

/// The columns a full mascot takes.
pub const MASCOT_W: u16 = 56;

/// The rows a full mascot takes.
pub const MASCOT_H: u16 = 16;

/// Whether an area can hold the mascot. There is no half-size mascot: at
/// half size the thin legs break into single cells, and no mascot is better
/// than an ugly one.
#[derive(Clone, Copy, Debug, PartialEq, Eq)]
pub enum Fit {
    /// It does not fit; nothing is drawn.
    Nothing,
    /// The whole mascot fits, with a row for the ground.
    Full,
}

/// Whether the mascot fits in `area` at decoration level `deco`: it needs at
/// least the standard level, its full width, and one row more than its
/// height for the ground.
pub fn fit(area: Rect, deco: Decoration) -> (f: Fit)
    ensures
        f == (if level(deco) >= level(Decoration::Standard) && area.width >= MASCOT_W && area.height > MASCOT_H {
            Fit::Full
        } else {
            Fit::Nothing
        }),
{
    if deco.at_least(Decoration::Standard) && area.width >= MASCOT_W && area.height > MASCOT_H {
        Fit::Full
    } else {
        Fit::Nothing
    }
}

/// Whether the mascot fits: what [`fit`] decides.
pub open spec fn mascot_fits(area: Rect, deco: Decoration) -> bool {
    level(deco) >= level(Decoration::Standard) && area.width >= MASCOT_W && area.height > MASCOT_H
}

/// Everything needed to draw one mascot.
#[derive(Clone, Copy, Debug)]
pub struct Draw {
    pub species: Species,
    pub state: State,
    /// The animation frame (from the application's animation clock, not the
    /// sampling clock).
    pub frame: u64,
    pub deco: Decoration,
    /// Whether to draw the state tag and the two caption lines as well.
    pub captioned: bool,
}

/// The level the logo slot draws at. The slot is room set aside for the
/// logo, so it does not follow the dashboard's budget: any decoration at all
/// means the full logo (which still backs off to what fits), and none means
/// text only.
pub fn logo_level(deco: Decoration) -> (d: Decoration)
    ensures
        d == (if deco == Decoration::Nothing { Decoration::Nothing } else { Decoration::Full }),
{
    match deco {
        Decoration::Nothing => Decoration::Nothing,
        _ => Decoration::Full,
    }
}

/// Whether the footer signature line is drawn at all: it needs some
/// decoration, a row, and 30 columns.
pub fn signature_shown(deco: Decoration, area: Rect) -> (b: bool)
    ensures
        b == (deco != Decoration::Nothing && area.height > 0 && area.width >= 30),
{
    let on = match deco {
        Decoration::Nothing => false,
        _ => true,
    };
    on && area.height > 0 && area.width >= 30
}

/// Whether the signature's right-hand part (of `right_w` columns) is drawn
/// beside its left part (of `left_w` columns): it needs the standard level,
/// 60 columns, and four columns of air between the two.
pub fn signature_right_fits(deco: Decoration, width: u16, left_w: usize, right_w: usize) -> (b: bool)
    ensures
        b == (level(deco) >= level(Decoration::Standard) && width >= 60 && right_w + left_w + 4 <= width),
{
    if !deco.at_least(Decoration::Standard) || width < 60 {
        return false;
    }
    if left_w > 0xffff || right_w > 0xffff {
        return false;
    }
    right_w + left_w + 4 <= width as usize
}

/// Which of the theme's text styles a piece is drawn in.
#[derive(Clone, Copy, Debug, PartialEq, Eq)]
pub enum Tone {
    /// The foreground colour.
    Ink,
    /// Dimmed.
    Dim,
    /// Fainter still.
    Faint,
    /// The accent colour, bold.
    Accent,
}

/// One string to draw: where it starts, the text and its style.
#[derive(Clone, Debug)]
pub struct Put {
    pub x: u16,
    pub y: u16,
    pub text: String,
    pub tone: Tone,
}

/// The put draws `text` at `(x, y)` in `tone`.
pub open spec fn put_is(p: Put, x: int, y: int, text: Seq<char>, tone: Tone) -> bool {
    p.x == x && p.y == y && p.text@ == text && p.tone == tone
}

/// The widest of the lines, in columns.
pub open spec fn widest(lines: Seq<String>) -> int
    decreases lines.len(),
{
    if lines.len() == 0 {
        0
    } else {
        let rest = widest(lines.drop_last());
        if str_width(lines.last()@) > rest { str_width(lines.last()@) as int } else { rest }
    }
}

/// The seed of the ground under a mascot, so that it always looks the same.
pub const GROUND_SEED: u64 = 0x5157_1E77;

/// The mascot card's tag: `// FOX · OBSERVE`.
pub open spec fn tag_text(species: Species, state: State) -> Seq<char> {
    "// "@ + (match species {
        Species::Fox => "FOX"@,
        Species::Deer => "DEER"@,
    }) + " · "@ + (match state {
        State::Observe => "OBSERVE"@,
        State::Explore => "EXPLORE"@,
        State::Proceed => "PROCEED"@,
        State::Rest => "REST"@,
        State::Return => "RETURN"@,
    })
}

/// A pose's two caption lines.
pub open spec fn caption_text(state: State) -> (Seq<char>, Seq<char>) {
    match state {
        State::Observe => ("QUIET AWARENESS"@, "EVERYTHING LEAVES A TRACE."@),
        State::Explore => ("STEADY CURIOSITY"@, "FURTHER IS A KIND OF HOME."@),
        State::Proceed => ("FOCUSED MOVEMENT"@, "SMALL STEPS. BIGGER PATHS."@),
        State::Rest => ("STILL PRESENCE"@, "A CALMER MIND EXPLORES MORE."@),
        State::Return => ("ALWAYS A WAY BACK"@, "SOME PLACES STAY WITH YOU."@),
    }
}

/// The rows a mascot of `l` lines uses in `h` rows: its lines, the ground
/// under them, and with a caption the tag and the two caption lines, as far
/// as they fit (the caption only starts when the tag and one line fit).
pub open spec fn mascot_rows(l: int, h: int, captioned: bool) -> int {
    if l >= h {
        h
    } else if !captioned || l + 2 >= h {
        l + 1
    } else if l + 3 < h {
        l + 4
    } else {
        l + 3
    }
}

fn tag_of(species: Species, state: State) -> (t: String)
    ensures
        t@ == tag_text(species, state),
{
    let mut t = owned("// ");
    t.append(species.name());
    t.append(" · ");
    t.append(state.name());
    t
}

fn put(x: u16, y: u16, text: String, tone: Tone) -> (p: Put)
    ensures
        put_is(p, x as int, y as int, text@, tone),
{
    Put { x, y, text, tone }
}

/// What drawing a mascot puts where: the silhouette's `lines` centred at the
/// top of `area`, the ground under them, then (when asked for and there is
/// room) the tag and the caption at the left. Each put is cut to the area's
/// width and has a row of its own; the second value is the rows used, 0 when
/// the mascot does not fit.
pub fn mascot_plan(area: Rect, d: Draw, lines: &[String]) -> (r: (Vec<Put>, u16))
    requires
        on_grid(area),
    ensures
        !mascot_fits(area, d.deco) ==> r.0@.len() == 0 && r.1 == 0,
        mascot_fits(area, d.deco) ==> ({
            let (l, h, w) = (lines@.len() as int, area.height as int, area.width as nat);
            let aw = (widest(lines@) as u16) as int;
            let x0 = area.x + (if area.width >= aw { area.width - aw } else { 0 }) / 2;
            let cap = caption_text(d.state);
            &&& r.1 == mascot_rows(l, h, d.captioned)
            &&& r.0@.len() == r.1
            &&& forall|i: int| 0 <= i < l && i < h ==>
                put_is(#[trigger] r.0@[i], x0, area.y + i, spec_truncate(lines@[i]@, w), Tone::Ink)
            &&& l < h ==> put_is(r.0@[l], x0, area.y + l,
                spec_truncate(Seq::new(aw as nat, |k: int| ground_at(GROUND_SEED, k)), w), Tone::Faint)
            &&& mascot_rows(l, h, d.captioned) > l + 1 ==> put_is(r.0@[l + 1], area.x as int, area.y + l + 1,
                spec_truncate(tag_text(d.species, d.state), w), Tone::Faint)
                && put_is(r.0@[l + 2], area.x as int, area.y + l + 2, spec_truncate(cap.0, w), Tone::Dim)
            &&& mascot_rows(l, h, d.captioned) > l + 3 ==> put_is(r.0@[l + 3], area.x as int, area.y + l + 3,
                spec_truncate(cap.1, w), Tone::Faint)
        }),
{
    let mut puts: Vec<Put> = Vec::new();
    match fit(area, d.deco) {
        Fit::Nothing => return (puts, 0),
        Fit::Full => {},
    }
    let mut widest_w: usize = 0;
    let mut i: usize = 0;
    while i < lines.len()
        invariant
            i <= lines@.len(),
            widest_w == widest(lines@.take(i as int)),
        decreases lines@.len() - i,
    {
        assert(lines@.take(i + 1).drop_last() =~= lines@.take(i as int));
        let lw = width(lines[i].as_str());
        if lw > widest_w {
            widest_w = lw;
        }
        i = i + 1;
    }
    assert(lines@.take(lines@.len() as int) =~= lines@);
    let aw = widest_w as u16;
    let x0 = area.x + (if area.width >= aw { area.width - aw } else { 0 }) / 2;
    let bottom = area.y + area.height;
    let wmax = area.width as usize;
    let mut y = area.y;
    let mut k: usize = 0;
    while k < lines.len()
        invariant
            on_grid(area),
            mascot_fits(area, d.deco),
            aw as int == (widest(lines@) as u16) as int,
            x0 == area.x + (if area.width >= aw { area.width - aw } else { 0 }) / 2,
            bottom == area.y + area.height,
            wmax == area.width,
            k <= lines@.len(),
            y == area.y + k,
            y <= bottom,
            puts@.len() == k,
            forall|j: int| 0 <= j < k ==>
                put_is(#[trigger] puts@[j], x0 as int, area.y + j, spec_truncate(lines@[j]@, wmax as nat), Tone::Ink),
        decreases lines@.len() - k,
    {
        if y >= bottom {
            return (puts, y - area.y);
        }
        puts.push(put(x0, y, truncate(lines[k].as_str(), wmax), Tone::Ink));
        y = y + 1;
        k = k + 1;
    }
    if y < bottom {
        let g = ground(aw as usize, GROUND_SEED);
        puts.push(put(x0, y, truncate(g.as_str(), wmax), Tone::Faint));
        y = y + 1;
    }
    if d.captioned && y < bottom && bottom - y > 1 {
        let (cap, line) = d.state.caption();
        let tag = tag_of(d.species, d.state);
        puts.push(put(area.x, y, truncate(tag.as_str(), wmax), Tone::Faint));
        y = y + 1;
        if y < bottom {
            puts.push(put(area.x, y, truncate(cap, wmax), Tone::Dim));
            y = y + 1;
        }
        if y < bottom {
            puts.push(put(area.x, y, truncate(line, wmax), Tone::Faint));
            y = y + 1;
        }
    }
    (puts, y - area.y)
}

/// What drawing the logo puts where, in a slot set aside for it: the brand's
/// lines at the slot's level ([`logo_level`]) from the top left, each cut to
/// the width, as many as there are rows; the second value is the rows used.
pub fn logo_plan(area: Rect, brand: &Brand, deco: Decoration) -> (r: (Vec<Put>, u16))
    requires
        on_grid(area),
        spec_word(*brand).len() <= usize::MAX / 6,
    ensures
        area.width == 0 || area.height == 0 ==> r.0@.len() == 0 && r.1 == 0,
        area.width > 0 && area.height > 0 ==> ({
            let lines = spec_render(*brand, area.width as nat, area.height as nat,
                if deco == Decoration::Nothing { Decoration::Nothing } else { Decoration::Full });
            let n = if lines.len() < area.height { lines.len() as int } else { area.height as int };
            &&& r.0@.len() == n
            &&& r.1 == n
            &&& forall|i: int| 0 <= i < n ==>
                put_is(#[trigger] r.0@[i], area.x as int, area.y + i, spec_truncate(lines[i], area.width as nat), Tone::Accent)
        }),
{
    let mut puts: Vec<Put> = Vec::new();
    if area.width == 0 || area.height == 0 {
        return (puts, 0);
    }
    let lines = brand.render(area.width as usize, area.height as usize, logo_level(deco));
    let wmax = area.width as usize;
    let mut i: usize = 0;
    while i < lines.len() && i < area.height as usize
        invariant
            on_grid(area),
            wmax == area.width,
            i <= lines@.len(),
            i <= area.height,
            puts@.len() == i,
            forall|j: int| 0 <= j < i ==>
                put_is(#[trigger] puts@[j], area.x as int, area.y + j, spec_truncate(lines@[j]@, wmax as nat), Tone::Accent),
        decreases lines@.len() - i,
    {
        let y = area.y + i as u16;
        puts.push(put(area.x, y, truncate(lines[i].as_str(), wmax), Tone::Accent));
        i = i + 1;
    }
    let n = i as u16;
    (puts, n)
}

/// What the footer signature puts where: the brand's tagline at the left,
/// and `OBSERVE  EXPLAIN  UNDERSTAND ╴╴╴╴` right-aligned when there is room
/// for both; nothing when the line is not drawn ([`signature_shown`]).
pub fn signature_plan(area: Rect, brand: &Brand, deco: Decoration) -> (r: Vec<Put>)
    requires
        on_grid(area),
    ensures
        !(deco != Decoration::Nothing && area.height > 0 && area.width >= 30) ==> r@.len() == 0,
        deco != Decoration::Nothing && area.height > 0 && area.width >= 30 ==> ({
            let left = if brand.name@.len() > 0 {
                crate::visual::logo::spec_slashed(brand.name@) + "  |  sysview observability"@
            } else {
                "// SYSVIEW  |  one command, the whole machine"@
            };
            let right = "OBSERVE  EXPLAIN  UNDERSTAND ╴╴╴╴"@;
            let rw = str_width(right) as int;
            &&& put_is(r@[0], area.x as int, area.y as int, spec_truncate(left, area.width as nat), Tone::Faint)
            &&& if level(deco) >= level(Decoration::Standard) && area.width >= 60 && rw + str_width(left) + 4 <= area.width {
                r@.len() == 2 && put_is(r@[1], area.x + area.width - rw, area.y as int, right, Tone::Faint)
            } else {
                r@.len() == 1
            }
        }),
{
    let mut puts: Vec<Put> = Vec::new();
    if !signature_shown(deco, area) {
        return puts;
    }
    let left = tagline(brand);
    let lw = width(left.as_str());
    puts.push(put(area.x, area.y, truncate(left.as_str(), area.width as usize), Tone::Faint));
    let right = owned("OBSERVE  EXPLAIN  UNDERSTAND ╴╴╴╴");
    let rw = width(right.as_str());
    if signature_right_fits(deco, area.width, lw, rw) {
        puts.push(put(area.x + area.width - rw as u16, area.y, right, Tone::Faint));
    }
    puts
}

/// The mascot never draws outside its slot: a mascot of `l` lines uses at
/// most the slot's `h` rows, and when its lines fit it also gets the row of
/// ground under them.
pub proof fn lemma_mascot_stays_in_its_slot(l: int, h: int, captioned: bool)
    requires
        0 <= l,
        0 <= h,
    ensures
        mascot_rows(l, h, captioned) <= h,
        l < h ==> mascot_rows(l, h, captioned) >= l + 1,
        l >= h ==> mascot_rows(l, h, captioned) == h,
{
}

} // verus!
