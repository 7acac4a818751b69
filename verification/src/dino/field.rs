//! The dinosaur game's field: the obstacles and their sizes, which sprite is
//! drawn when, and the braille picture of the field.
//!
//! Two units are in play. Obstacle gaps, speeds and the score are in the
//! units of the browser game (its pixels, its frames); whatever is drawn is
//! in braille dots, two columns by four rows to a character cell. The
//! physics that connects them is floating point and lives with the game
//! loop; what is here is whole numbers.

use vstd::prelude::*;
use crate::dino::art::{BIRD_DOWN, BIRD_UP, CACTUS_L, CACTUS_S, CRASH, DUCK, RUN_A, RUN_B};
use crate::dino::{xorshift, Rng};
use crate::layout::{on_grid, Rect};

verus! {

/// The field's size in character cells: wide and low, floating in the middle
/// of the screen (the browser's canvas is about three dinosaurs high).
pub const FIELD_W: u16 = 130;
pub const FIELD_H: u16 = 19;

/// Below this area the game shows a one-line note instead.
pub const MIN_W: u16 = 40;
pub const MIN_H: u16 = 8;

/// The dinosaur's column, in dots: further left than in the browser, which
/// leaves more runway to react on a coarse grid.
pub const DINO_X: i32 = 10;

/// Day and night swap every this many points.
pub const INVERT_DISTANCE: u32 = 700;

/// At most this many obstacles side by side.
pub const MAX_OBSTACLE_LENGTH: i64 = 3;

/// At most this many obstacles of one family in a row.
pub const MAX_OBSTACLE_DUPLICATION: usize = 2;

/// A sprite of the game.
#[derive(Clone, Copy, Debug, PartialEq, Eq)]
pub enum Art {
    RunA,
    RunB,
    Duck,
    Crash,
    CactusSmall,
    CactusLarge,
    BirdUp,
    BirdDown,
}

impl Art {
    /// The sprite's rows.
    pub fn rows(self) -> (r: &'static [&'static str])
        ensures
            r@ == match self {
                Art::RunA => RUN_A@,
                Art::RunB => RUN_B@,
                Art::Duck => DUCK@,
                Art::Crash => CRASH@,
                Art::CactusSmall => CACTUS_S@,
                Art::CactusLarge => CACTUS_L@,
                Art::BirdUp => BIRD_UP@,
                Art::BirdDown => BIRD_DOWN@,
            },
    {
        match self {
            Art::RunA => &RUN_A,
            Art::RunB => &RUN_B,
            Art::Duck => &DUCK,
            Art::Crash => &CRASH,
            Art::CactusSmall => &CACTUS_S,
            Art::CactusLarge => &CACTUS_L,
            Art::BirdUp => &BIRD_UP,
            Art::BirdDown => &BIRD_DOWN,
        }
    }
}

/// A kind of obstacle. Sizes, gaps and when each appears follow the browser
/// game's obstacle table.
#[derive(Clone, Copy, Debug, PartialEq, Eq)]
pub enum Kind {
    CactusSmall,
    CactusLarge,
    /// A pterodactyl at one of three heights (0 lowest).
    Pterodactyl(u8),
}

impl Kind {
    /// The width of one obstacle, in dots (the width of its sprite).
    pub fn unit_w(self) -> (r: i32)
        ensures
            r == match self {
                Kind::CactusSmall => 9int,
                Kind::CactusLarge => 13,
                Kind::Pterodactyl(_) => 23,
            },
    {
        match self {
            Kind::CactusSmall => 9,
            Kind::CactusLarge => 13,
            Kind::Pterodactyl(_) => 23,
        }
    }

    /// The height of its sprite, in dots.
    pub fn height(self) -> (r: i32)
        ensures
            r == match self {
                Kind::CactusSmall => 18int,
                Kind::CactusLarge => 25,
                Kind::Pterodactyl(_) => 20,
            },
    {
        match self {
            Kind::CactusSmall => 18,
            Kind::CactusLarge => 25,
            Kind::Pterodactyl(_) => 20,
        }
    }

    /// The rows that hit, counted up from its base. A cactus hits with all
    /// of it; a pterodactyl only with its body, not its wings, or passing
    /// under a wing would kill.
    pub fn hit_range(self) -> (r: (i32, i32))
        ensures
            r == match self {
                Kind::Pterodactyl(_) => (7i32, 16i32),
                Kind::CactusSmall => (0i32, 18i32),
                Kind::CactusLarge => (0i32, 25i32),
            },
    {
        match self {
            Kind::Pterodactyl(_) => (7, 16),
            k => (0, k.height()),
        }
    }

    /// How high its base is above the ground, in dots: the lowest
    /// pterodactyl is jumped over, the middle one ducked under, the highest
    /// one run under.
    pub fn base(self) -> (r: i32)
        ensures
            r == match self {
                Kind::Pterodactyl(0) => 0int,
                Kind::Pterodactyl(1) => 13,
                Kind::Pterodactyl(_) => 26,
                _ => 0,
            },
    {
        match self {
            Kind::Pterodactyl(0) => 0,
            Kind::Pterodactyl(1) => 13,
            Kind::Pterodactyl(_) => 26,
            _ => 0,
        }
    }

    /// Its sprite; a pterodactyl flaps between two.
    pub fn art(self, wings_up: bool) -> (a: Art)
        ensures
            a == match self {
                Kind::CactusSmall => Art::CactusSmall,
                Kind::CactusLarge => Art::CactusLarge,
                Kind::Pterodactyl(_) => if wings_up { Art::BirdUp } else { Art::BirdDown },
            },
    {
        match self {
            Kind::CactusSmall => Art::CactusSmall,
            Kind::CactusLarge => Art::CactusLarge,
            Kind::Pterodactyl(_) => if wings_up { Art::BirdUp } else { Art::BirdDown },
        }
    }

    /// Its family, for the rule against long runs of one kind.
    pub fn family(self) -> (r: u8)
        ensures
            r == spec_family(self),
    {
        match self {
            Kind::CactusSmall => 0,
            Kind::CactusLarge => 1,
            Kind::Pterodactyl(_) => 2,
        }
    }
}

/// The family of a kind: small cacti, large cacti, pterodactyls.
pub open spec fn spec_family(k: Kind) -> u8 {
    match k {
        Kind::CactusSmall => 0,
        Kind::CactusLarge => 1,
        Kind::Pterodactyl(_) => 2,
    }
}

/// The dinosaur's column while it ducks. The ducking sprite is longer than
/// the standing one; it grows backwards so that the head, and the front of
/// the hitbox, stay where they are.
pub fn duck_x() -> (x: i32)
    ensures
        x == DINO_X - (29 - 22),
{
    DINO_X - (29 - 22)
}

/// The dinosaur's sprite: crashed once the game is over, ducking while it
/// ducks, otherwise running on alternate feet (`stride_a` picks the foot; in
/// the air it is the first).
pub fn dino_art(over: bool, ducking: bool, stride_a: bool) -> (a: Art)
    ensures
        a == if over { Art::Crash } else if ducking { Art::Duck } else if stride_a { Art::RunA } else { Art::RunB },
{
    if over {
        Art::Crash
    } else if ducking {
        Art::Duck
    } else if stride_a {
        Art::RunA
    } else {
        Art::RunB
    }
}

/// The dinosaur's column for the sprite it shows.
pub fn dino_x(ducking: bool) -> (x: i32)
    ensures
        x == if ducking { DINO_X - 7 } else { DINO_X as int },
{
    if ducking { duck_x() } else { DINO_X }
}

/// Whether the field is drawn at night: every other stretch of
/// `INVERT_DISTANCE` points.
pub fn is_night(score: u32) -> (b: bool)
    ensures
        b == ((score / INVERT_DISTANCE) % 2 == 1),
{
    (score / INVERT_DISTANCE) % 2 == 1
}

/// One draw of a kind from state `s`: a small cactus, a large one or a
/// pterodactyl (whose height is a second draw), with the state after it.
pub open spec fn draw_kind(s: u64) -> (Kind, u64) {
    let s1 = xorshift(s);
    let v = s1 % 3;
    if v == 0 {
        (Kind::CactusSmall, s1)
    } else if v == 1 {
        (Kind::CactusLarge, s1)
    } else {
        let s2 = xorshift(s1);
        (Kind::Pterodactyl((s2 % 3) as u8), s2)
    }
}

/// Whether a drawn kind is taken: pterodactyls only once they are unlocked,
/// and no kind whose family filled the whole recent history.
pub open spec fn accepts(k: Kind, history: Seq<u8>, birds: bool) -> bool {
    let dup = history.len() >= MAX_OBSTACLE_DUPLICATION
        && forall|i: int| 0 <= i < history.len() ==> history[i] == spec_family(k);
    (birds || !(k is Pterodactyl)) && !dup
}

/// The kind picked in at most `tries` draws from state `s` (a small cactus
/// when every draw is refused), and the state after the draws.
pub open spec fn pick_from(s: u64, history: Seq<u8>, birds: bool, tries: nat) -> (Kind, u64)
    decreases tries,
{
    if tries == 0 {
        (Kind::CactusSmall, s)
    } else {
        let (k, s1) = draw_kind(s);
        if accepts(k, history, birds) { (k, s1) } else { pick_from(s1, history, birds, (tries - 1) as nat) }
    }
}

fn draw(rng: &mut Rng) -> (k: Kind)
    ensures
        (k, final(rng).0) == draw_kind(old(rng).0),
{
    let v = rng.range(0, 2);
    if v == 0 {
        Kind::CactusSmall
    } else if v == 1 {
        Kind::CactusLarge
    } else {
        let h = rng.range(0, 2);
        Kind::Pterodactyl(h as u8)
    }
}

fn all_family(history: &[u8], f: u8) -> (b: bool)
    ensures
        b == forall|i: int| 0 <= i < history@.len() ==> history@[i] == f,
{
    let mut i: usize = 0;
    while i < history.len()
        invariant
            i <= history@.len(),
            forall|j: int| 0 <= j < i ==> history@[j] == f,
        decreases history@.len() - i,
    {
        if history[i] != f {
            return false;
        }
        i = i + 1;
    }
    true
}

/// The next obstacle's kind. A refused kind is drawn again (not weighted),
/// up to eight times, so unlocking pterodactyls does not make them common;
/// `birds` says whether the speed has unlocked them, `history` holds the
/// families of the latest obstacles, newest first.
pub fn pick_kind(rng: &mut Rng, history: &[u8], birds: bool) -> (k: Kind)
    ensures
        (k, final(rng).0) == pick_from(old(rng).0, history@, birds, 8),
{
    let mut tries: usize = 8;
    while tries > 0
        invariant
            tries <= 8,
            pick_from(old(rng).0, history@, birds, 8) == pick_from(rng.0, history@, birds, tries as nat),
        decreases tries,
    {
        let k = draw(rng);
        let dup = history.len() >= MAX_OBSTACLE_DUPLICATION && all_family(history, k.family());
        let bird = match k {
            Kind::Pterodactyl(_) => true,
            _ => false,
        };
        if (birds || !bird) && !dup {
            return k;
        }
        tries = tries - 1;
    }
    Kind::CactusSmall
}

/// How many obstacles stand side by side: one to three, drawn; a group only
/// when the speed allows groups of this kind (`groups`), else one.
pub fn group_size(rng: &mut Rng, groups: bool) -> (n: i32)
    ensures
        final(rng).0 == xorshift(old(rng).0),
        ({
            let drawn = 1 + xorshift(old(rng).0) % 3;
            n == if drawn > 1 && !groups { 1 } else { drawn }
        }),
        1 <= n <= MAX_OBSTACLE_LENGTH,
{
    let size = rng.range(1, MAX_OBSTACLE_LENGTH) as i32;
    if size > 1 && !groups { 1 } else { size }
}

/// Adds an obstacle's family to the front of the history and keeps only
/// the latest `MAX_OBSTACLE_DUPLICATION`.
pub fn remember(history: &mut Vec<u8>, family: u8)
    ensures
        final(history)@ == (seq![family] + old(history)@).take(
            if old(history)@.len() + 1 < MAX_OBSTACLE_DUPLICATION { old(history)@.len() + 1int } else { MAX_OBSTACLE_DUPLICATION as int },
        ),
{
    history.insert(0, family);
    assert(history@ =~= seq![family] + old(history)@);
    history.truncate(MAX_OBSTACLE_DUPLICATION);
}

/// Where the game-over board floats: up to 50 columns wide and ten rows
/// high (a title, five names, a gap and the input line, in a margin), three
/// rows below the field's top, centred; `None` when the field is too small
/// for a readable board.
pub fn board_box(field: Rect) -> (b: Option<Rect>)
    requires
        on_grid(field),
    ensures
        ({
            let w = if field.width < 50 { field.width as int } else { 50 };
            let room = if field.height >= 4 { field.height - 4 } else { 0 };
            let h = if room < 10 { room } else { 10 };
            if w < 32 || h < 6 {
                b is None
            } else {
                b == Some(Rect { x: (field.x + (field.width - w) / 2) as u16, y: (field.y + 3) as u16, width: w as u16, height: h as u16 })
            }
        }),
{
    let rows: u16 = 1 + 5 + 1 + 1;
    let w: u16 = if field.width < 50 { field.width } else { 50 };
    let room: u16 = if field.height >= 4 { field.height - 4 } else { 0 };
    let h: u16 = if room < rows + 2 { room } else { rows + 2 };
    if w < 32 || h < 6 {
        return None;
    }
    Some(Rect { x: field.x + (field.width - w) / 2, y: field.y + 3, width: w, height: h })
}

/// A sprite placed on the field: its pixels (`w`×`h`, row-major), the
/// column of its left edge and the row of its bottom, in dots.
#[derive(Clone, Copy, Debug)]
pub struct Stamp<'a> {
    pub w: usize,
    pub h: usize,
    pub bits: &'a [bool],
    pub x: i32,
    pub bottom: i32,
}

/// The stamp is well formed: its pixels fill its box, and its size fits the
/// signed arithmetic of the field.
pub open spec fn stamp_wf(s: Stamp) -> bool {
    &&& s.bits@.len() == s.w * s.h
    &&& s.w <= i32::MAX
    &&& s.h <= i32::MAX
}

/// Whether the stamp inks dot `(px, py)` (rows counted down from the top).
pub open spec fn stamp_lit(s: Stamp, px: int, py: int) -> bool {
    let i = py - s.bottom + s.h - 1;
    let j = px - s.x;
    0 <= i < s.h && 0 <= j < s.w && s.bits@[i * s.w + j]
}

/// Whether dot `(px, py)` of a `cols`×`rows` field is inked: inside the
/// field, and on the ground (the bottom row of dots) or under a stamp.
pub open spec fn field_lit(stamps: Seq<Stamp>, cols: int, rows: int, px: int, py: int) -> bool {
    &&& 0 <= px < 2 * cols
    &&& 0 <= py < 4 * rows
    &&& (py == 4 * rows - 1 || exists|k: int| 0 <= k < stamps.len() && #[trigger] stamp_lit(stamps[k], px, py))
}

/// A braille dot's bit when it is inked.
pub open spec fn dot_bit(lit: bool, bit: int) -> int {
    if lit { bit } else { 0 }
}

/// The braille bits of cell `(cx, cy)`: dots 1–3 and 7 down the left
/// column, 4–6 and 8 down the right.
pub open spec fn cell_bits(stamps: Seq<Stamp>, cols: int, rows: int, cx: int, cy: int) -> int {
    let (x, y) = (2 * cx, 4 * cy);
    dot_bit(field_lit(stamps, cols, rows, x, y), 0x01) + dot_bit(field_lit(stamps, cols, rows, x, y + 1), 0x02)
        + dot_bit(field_lit(stamps, cols, rows, x, y + 2), 0x04) + dot_bit(field_lit(stamps, cols, rows, x, y + 3), 0x40)
        + dot_bit(field_lit(stamps, cols, rows, x + 1, y), 0x08) + dot_bit(field_lit(stamps, cols, rows, x + 1, y + 1), 0x10)
        + dot_bit(field_lit(stamps, cols, rows, x + 1, y + 2), 0x20) + dot_bit(field_lit(stamps, cols, rows, x + 1, y + 3), 0x80)
}

fn stamp_hits(s: &Stamp, px: i64, py: i64) -> (b: bool)
    requires
        stamp_wf(*s),
        -0x1_0000_0000 <= px <= 0x1_0000_0000,
        -0x1_0000_0000 <= py <= 0x1_0000_0000,
    ensures
        b == stamp_lit(*s, px as int, py as int),
{
    let i: i64 = py - s.bottom as i64 + s.h as i64 - 1;
    let j: i64 = px - s.x as i64;
    if i < 0 || j < 0 || i >= s.h as i64 || j >= s.w as i64 {
        return false;
    }
    let (iu, ju) = (i as usize, j as usize);
    let n = s.bits.len();
    assert(iu * s.w + ju < s.w * s.h && iu * s.w <= iu * s.w + ju) by (nonlinear_arith)
        requires
            iu < s.h,
            ju < s.w,
    ;
    s.bits[iu * s.w + ju]
}

fn lit(stamps: &[Stamp], cols: u16, rows: u16, px: i64, py: i64) -> (b: bool)
    requires
        forall|k: int| 0 <= k < stamps@.len() ==> stamp_wf(#[trigger] stamps@[k]),
        0 <= px <= 0x1_0000_0000,
        0 <= py <= 0x1_0000_0000,
    ensures
        b == field_lit(stamps@, cols as int, rows as int, px as int, py as int),
{
    if px >= 2 * cols as i64 || py >= 4 * rows as i64 {
        return false;
    }
    if py == 4 * rows as i64 - 1 {
        return true;
    }
    let mut k: usize = 0;
    while k < stamps.len()
        invariant
            forall|m: int| 0 <= m < stamps@.len() ==> stamp_wf(#[trigger] stamps@[m]),
            0 <= px <= 0x1_0000_0000,
            0 <= py <= 0x1_0000_0000,
            px < 2 * cols,
            py < 4 * rows,
            k <= stamps@.len(),
            forall|m: int| 0 <= m < k ==> !stamp_lit(#[trigger] stamps@[m], px as int, py as int),
        decreases stamps@.len() - k,
    {
        if stamp_hits(&stamps[k], px, py) {
            assert(stamp_lit(stamps@[k as int], px as int, py as int));
            return true;
        }
        k = k + 1;
    }
    false
}

/// The field as braille cells, row by row: the ground along the bottom row
/// of dots and every stamp, clipped to the field.
pub fn field_dots(cols: u16, rows: u16, stamps: &[Stamp]) -> (g: Vec<u8>)
    requires
        forall|k: int| 0 <= k < stamps@.len() ==> stamp_wf(#[trigger] stamps@[k]),
    ensures
        g@.len() == cols * rows,
        forall|cx: int, cy: int| 0 <= cx < cols && 0 <= cy < rows ==>
            #[trigger] g@[cy * cols + cx] == cell_bits(stamps@, cols as int, rows as int, cx, cy),
{
    let mut g: Vec<u8> = Vec::new();
    let mut cy: u16 = 0;
    while cy < rows
        invariant
            forall|k: int| 0 <= k < stamps@.len() ==> stamp_wf(#[trigger] stamps@[k]),
            cy <= rows,
            g@.len() == cy * cols,
            forall|x: int, y: int| 0 <= x < cols && 0 <= y < cy ==>
                #[trigger] g@[y * cols + x] == cell_bits(stamps@, cols as int, rows as int, x, y),
        decreases rows - cy,
    {
        let mut cx: u16 = 0;
        while cx < cols
            invariant
                forall|k: int| 0 <= k < stamps@.len() ==> stamp_wf(#[trigger] stamps@[k]),
                cy < rows,
                cx <= cols,
                g@.len() == cy * cols + cx,
                forall|x: int, y: int| 0 <= x < cols && 0 <= y < cy ==>
                    #[trigger] g@[y * cols + x] == cell_bits(stamps@, cols as int, rows as int, x, y),
                forall|x: int| 0 <= x < cx ==>
                    #[trigger] g@[cy * cols + x] == cell_bits(stamps@, cols as int, rows as int, x, cy as int),
            decreases cols - cx,
        {
            let x: i64 = 2 * cx as i64;
            let y: i64 = 4 * cy as i64;
            let mut v: u8 = 0;
            if lit(stamps, cols, rows, x, y) { v = v + 0x01; }
            if lit(stamps, cols, rows, x, y + 1) { v = v + 0x02; }
            if lit(stamps, cols, rows, x, y + 2) { v = v + 0x04; }
            if lit(stamps, cols, rows, x, y + 3) { v = v + 0x40; }
            if lit(stamps, cols, rows, x + 1, y) { v = v + 0x08; }
            if lit(stamps, cols, rows, x + 1, y + 1) { v = v + 0x10; }
            if lit(stamps, cols, rows, x + 1, y + 2) { v = v + 0x20; }
            if lit(stamps, cols, rows, x + 1, y + 3) { v = v + 0x80; }
            let ghost at = g@.len() as int;
            g.push(v);
            proof {
                assert(at == cy * cols + cx);
                assert forall|xx: int, yy: int| 0 <= xx < cols && 0 <= yy < cy implies
                    #[trigger] g@[yy * cols + xx] == cell_bits(stamps@, cols as int, rows as int, xx, yy) by {
                    assert(yy * cols + xx < cy * cols) by (nonlinear_arith)
                        requires
                            0 <= xx < cols,
                            0 <= yy < cy,
                    ;
                }
            }
            cx = cx + 1;
        }
        proof {
            assert((cy + 1) * cols == cy * cols + cols) by (nonlinear_arith);
        }
        cy = cy + 1;
    }
    g
}

/// The ground runs the whole width of the field along its bottom row of
/// dots, whatever stands on it; and nothing is inked outside the field.
pub proof fn lemma_ground_and_clipping(stamps: Seq<Stamp>, cols: int, rows: int, px: int, py: int)
    requires
        cols >= 0,
        rows >= 1,
    ensures
        0 <= px < 2 * cols ==> field_lit(stamps, cols, rows, px, 4 * rows - 1),
        field_lit(stamps, cols, rows, px, py) ==> 0 <= px < 2 * cols && 0 <= py < 4 * rows,
{
}

} // verus!
