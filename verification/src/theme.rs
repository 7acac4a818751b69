//! Colour themes. Widgets ask for a role ("the CPU accent"), never for a
//! number; the theme answers in 24-bit colour and steps the answer down to
//! what the terminal can show.
//!
//! Severity is never told by colour alone: the symbols and words that go with
//! it live beside the colours, so a grey-scale screen still reads.

use vstd::prelude::*;
use crate::chars::{chars_of, spec_lowered, lowered, same_chars};

verus! {

/// A 24-bit colour.
#[derive(Clone, Copy, Debug, PartialEq, Eq, Structural)]
pub struct Rgb {
    pub r: u8,
    pub g: u8,
    pub b: u8,
}

/// A colour as the terminal is asked to show it: the 24-bit value itself,
/// an index into the 256-colour table, one of the sixteen basic colours, or
/// the terminal's own default.
#[derive(Clone, Copy, Debug, PartialEq, Eq, Structural)]
pub enum Color {
    Reset,
    Red,
    Green,
    Yellow,
    Blue,
    Magenta,
    Cyan,
    Gray,
    DarkGray,
    LightRed,
    LightGreen,
    LightYellow,
    LightBlue,
    LightMagenta,
    LightCyan,
    White,
    Rgb(u8, u8, u8),
    Indexed(u8),
}

/// A whole set of colours, all given in 24-bit and stepped down on use.
#[derive(Clone, Copy, Debug, PartialEq, Eq, Structural)]
pub struct Palette {
    pub bg: Rgb,
    pub surface: Rgb,
    pub fg: Rgb,
    pub dim: Rgb,
    pub faint: Rgb,
    pub border: Rgb,
    pub accent: Rgb,
    pub ok: Rgb,
    pub notice: Rgb,
    pub warning: Rgb,
    pub critical: Rgb,
    pub cpu: Rgb,
    pub memory: Rgb,
    pub gpu: Rgb,
    pub disk: Rgb,
    pub network: Rgb,
    pub process: Rgb,
    /// Estimated or unavailable data: deliberately quiet.
    pub estimated: Rgb,
}

/// What colours the terminal can show.
#[derive(Clone, Copy, Debug, PartialEq, Eq, Structural)]
pub enum ColorDepth {
    /// 24-bit RGB.
    TrueColor,
    /// The 256-colour table.
    Indexed256,
    /// Only the 8/16 basic colours.
    Basic,
    /// No colour at all (a pipe, `NO_COLOR`, a dumb terminal).
    Monochrome,
}

/// The parts of the machine that have a colour of their own.
#[derive(Clone, Copy, Debug, PartialEq, Eq, Structural)]
pub enum Subsystem {
    Cpu,
    Memory,
    Gpu,
    Disk,
    Network,
    Process,
}

/// Whether `needle` occurs in `hay` as a run of consecutive characters.
pub open spec fn spec_contains(hay: Seq<char>, needle: Seq<char>) -> bool {
    exists|i: int| 0 <= i <= hay.len() - needle.len() && #[trigger] hay.subrange(i, i + needle.len()) == needle
}

/// Whether `needle` occurs in `hay`.
pub fn contains_str(hay: &str, needle: &str) -> (r: bool)
    ensures
        r == spec_contains(hay@, needle@),
{
    let h = chars_of(hay);
    let n = chars_of(needle);
    if n.len() == 0 {
        assert(hay@.subrange(0, 0 + needle@.len() as int) =~= needle@);
        return true;
    }
    if n.len() > h.len() {
        return false;
    }
    let last = h.len() - n.len();
    let mut i: usize = 0;
    while i <= last
        invariant
            h@ == hay@,
            n@ == needle@,
            1 <= n@.len() <= h@.len() <= usize::MAX,
            last == h@.len() - n@.len(),
            i <= last + 1,
            forall|k: int| 0 <= k < i ==> #[trigger] h@.subrange(k, k + n@.len()) != n@,
        decreases last + 1 - i,
    {
        let mut j: usize = 0;
        let mut same = true;
        while j < n.len()
            invariant
                h@ == hay@,
                n@ == needle@,
                i <= last,
                1 <= n@.len() <= h@.len() <= usize::MAX,
                last == h@.len() - n@.len(),
                j <= n@.len(),
                same == (forall|t: int| 0 <= t < j ==> h@[i + t] == n@[t]),
            decreases n@.len() - j,
        {
            if h[i + j] != n[j] {
                same = false;
            }
            j = j + 1;
        }
        if same {
            assert(h@.subrange(i as int, i + n@.len()) =~= n@);
            return true;
        }
        assert(h@.subrange(i as int, i + n@.len()) != n@) by {
            let k = choose|t: int| 0 <= t < n@.len() && h@[i + t] != n@[t];
            assert(h@.subrange(i as int, i + n@.len())[k] == h@[i + k]);
        }
        i = i + 1;
    }
    proof {
        if spec_contains(hay@, needle@) {
            let k = choose|k: int| 0 <= k <= hay@.len() - needle@.len() && #[trigger] hay@.subrange(k, k + needle@.len()) == needle@;
            assert(h@.subrange(k, k + n@.len()) != n@);
        }
    }
    false
}

/// Each palette is written as its colours in the order of [`Palette`]'s
/// fields, red, green and blue each.
/// The default theme: neutral and cool, easy on the eyes for long stretches.
pub const DEFAULT: [[u8; 3]; 18] = [
    [0x0d, 0x11, 0x17],
    [0x16, 0x1b, 0x22],
    [0xc9, 0xd1, 0xd9],
    [0x8b, 0x94, 0x9e],
    [0x56, 0x5f, 0x6a],
    [0x30, 0x36, 0x3d],
    [0x58, 0xa6, 0xff],
    [0x3f, 0xb9, 0x50],
    [0x58, 0xa6, 0xff],
    [0xd2, 0x99, 0x22],
    [0xf8, 0x51, 0x49],
    [0x58, 0xa6, 0xff],
    [0xbc, 0x8c, 0xff],
    [0x3f, 0xb9, 0x50],
    [0xdb, 0x6d, 0x28],
    [0x39, 0xc5, 0xcf],
    [0xe3, 0xb3, 0x41],
    [0x76, 0x80, 0x8a],
];

/// High contrast, for projectors, bright rooms and readers who need it.
pub const HIGH_CONTRAST: [[u8; 3]; 18] = [
    [0x00, 0x00, 0x00],
    [0x0a, 0x0a, 0x0a],
    [0xff, 0xff, 0xff],
    [0xd0, 0xd0, 0xd0],
    [0x90, 0x90, 0x90],
    [0xa0, 0xa0, 0xa0],
    [0x00, 0xd7, 0xff],
    [0x00, 0xff, 0x87],
    [0x00, 0xd7, 0xff],
    [0xff, 0xd7, 0x00],
    [0xff, 0x00, 0x5f],
    [0x00, 0xd7, 0xff],
    [0xd7, 0x87, 0xff],
    [0x5f, 0xff, 0x5f],
    [0xff, 0xaf, 0x00],
    [0x5f, 0xff, 0xff],
    [0xff, 0xff, 0x5f],
    [0xb0, 0xb0, 0xb0],
];

pub const CATPPUCCIN: [[u8; 3]; 18] = [
    [0x1e, 0x1e, 0x2e],
    [0x31, 0x32, 0x44],
    [0xcd, 0xd6, 0xf4],
    [0xa6, 0xad, 0xc8],
    [0x6c, 0x70, 0x86],
    [0x45, 0x47, 0x5a],
    [0x89, 0xb4, 0xfa],
    [0xa6, 0xe3, 0xa1],
    [0x89, 0xdc, 0xeb],
    [0xf9, 0xe2, 0xaf],
    [0xf3, 0x8b, 0xa8],
    [0x89, 0xb4, 0xfa],
    [0xcb, 0xa6, 0xf7],
    [0xa6, 0xe3, 0xa1],
    [0xfa, 0xb3, 0x87],
    [0x94, 0xe2, 0xd5],
    [0xf9, 0xe2, 0xaf],
    [0x7f, 0x84, 0x9c],
];

pub const TOKYO_NIGHT: [[u8; 3]; 18] = [
    [0x1a, 0x1b, 0x26],
    [0x24, 0x28, 0x3b],
    [0xc0, 0xca, 0xf5],
    [0x9a, 0xa5, 0xce],
    [0x56, 0x5f, 0x89],
    [0x3b, 0x42, 0x61],
    [0x7a, 0xa2, 0xf7],
    [0x9e, 0xce, 0x6a],
    [0x7d, 0xcf, 0xff],
    [0xe0, 0xaf, 0x68],
    [0xf7, 0x76, 0x8e],
    [0x7a, 0xa2, 0xf7],
    [0xbb, 0x9a, 0xf7],
    [0x9e, 0xce, 0x6a],
    [0xff, 0x9e, 0x64],
    [0x2a, 0xc3, 0xde],
    [0xe0, 0xaf, 0x68],
    [0x6b, 0x70, 0x89],
];

pub const NORD: [[u8; 3]; 18] = [
    [0x2e, 0x34, 0x40],
    [0x3b, 0x42, 0x52],
    [0xd8, 0xde, 0xe9],
    [0xa6, 0xb1, 0xc2],
    [0x66, 0x71, 0x85],
    [0x4c, 0x56, 0x6a],
    [0x88, 0xc0, 0xd0],
    [0xa3, 0xbe, 0x8c],
    [0x81, 0xa1, 0xc1],
    [0xeb, 0xcb, 0x8b],
    [0xbf, 0x61, 0x6a],
    [0x81, 0xa1, 0xc1],
    [0xb4, 0x8e, 0xad],
    [0xa3, 0xbe, 0x8c],
    [0xd0, 0x87, 0x70],
    [0x8f, 0xbc, 0xbb],
    [0xeb, 0xcb, 0x8b],
    [0x77, 0x82, 0x96],
];

pub const GRUVBOX: [[u8; 3]; 18] = [
    [0x28, 0x28, 0x28],
    [0x3c, 0x38, 0x36],
    [0xeb, 0xdb, 0xb2],
    [0xbd, 0xae, 0x93],
    [0x7c, 0x6f, 0x64],
    [0x50, 0x49, 0x45],
    [0x83, 0xa5, 0x98],
    [0xb8, 0xbb, 0x26],
    [0x83, 0xa5, 0x98],
    [0xfa, 0xbd, 0x2f],
    [0xfb, 0x49, 0x34],
    [0x83, 0xa5, 0x98],
    [0xd3, 0x86, 0x9b],
    [0xb8, 0xbb, 0x26],
    [0xfe, 0x80, 0x19],
    [0x8e, 0xc0, 0x7c],
    [0xfa, 0xbd, 0x2f],
    [0x92, 0x83, 0x74],
];

pub const DRACULA: [[u8; 3]; 18] = [
    [0x28, 0x2a, 0x36],
    [0x44, 0x47, 0x5a],
    [0xf8, 0xf8, 0xf2],
    [0xbd, 0xbd, 0xd0],
    [0x6d, 0x6f, 0x84],
    [0x51, 0x54, 0x6b],
    [0xbd, 0x93, 0xf9],
    [0x50, 0xfa, 0x7b],
    [0x8b, 0xe9, 0xfd],
    [0xf1, 0xfa, 0x8c],
    [0xff, 0x55, 0x55],
    [0x8b, 0xe9, 0xfd],
    [0xbd, 0x93, 0xf9],
    [0x50, 0xfa, 0x7b],
    [0xff, 0xb8, 0x6c],
    [0x8b, 0xe9, 0xfd],
    [0xf1, 0xfa, 0x8c],
    [0x7d, 0x80, 0x99],
];

/// The built-in palettes, in the order of [`THEMES`].
pub const PALETTES: [[[u8; 3]; 18]; 7] = [DEFAULT, HIGH_CONTRAST, CATPPUCCIN, TOKYO_NIGHT, NORD, GRUVBOX, DRACULA];

pub open spec fn rgb_at(t: [[u8; 3]; 18], i: int) -> Rgb {
    Rgb { r: t[i][0], g: t[i][1], b: t[i][2] }
}

/// The palette that a table of colours spells.
pub open spec fn palette_of(t: [[u8; 3]; 18]) -> Palette {
    Palette {
        bg: rgb_at(t, 0),
        surface: rgb_at(t, 1),
        fg: rgb_at(t, 2),
        dim: rgb_at(t, 3),
        faint: rgb_at(t, 4),
        border: rgb_at(t, 5),
        accent: rgb_at(t, 6),
        ok: rgb_at(t, 7),
        notice: rgb_at(t, 8),
        warning: rgb_at(t, 9),
        critical: rgb_at(t, 10),
        cpu: rgb_at(t, 11),
        memory: rgb_at(t, 12),
        gpu: rgb_at(t, 13),
        disk: rgb_at(t, 14),
        network: rgb_at(t, 15),
        process: rgb_at(t, 16),
        estimated: rgb_at(t, 17),
    }
}

fn rgb_from(t: &[[u8; 3]; 18], i: usize) -> (c: Rgb)
    requires
        i < 18,
    ensures
        c == rgb_at(*t, i as int),
{
    Rgb { r: t[i][0], g: t[i][1], b: t[i][2] }
}

/// The palette that a table of colours spells.
pub fn palette_from(t: &[[u8; 3]; 18]) -> (p: Palette)
    ensures
        p == palette_of(*t),
{
    Palette {
        bg: rgb_from(t, 0),
        surface: rgb_from(t, 1),
        fg: rgb_from(t, 2),
        dim: rgb_from(t, 3),
        faint: rgb_from(t, 4),
        border: rgb_from(t, 5),
        accent: rgb_from(t, 6),
        ok: rgb_from(t, 7),
        notice: rgb_from(t, 8),
        warning: rgb_from(t, 9),
        critical: rgb_from(t, 10),
        cpu: rgb_from(t, 11),
        memory: rgb_from(t, 12),
        gpu: rgb_from(t, 13),
        disk: rgb_from(t, 14),
        network: rgb_from(t, 15),
        process: rgb_from(t, 16),
        estimated: rgb_from(t, 17),
    }
}

/// The names of the built-in themes, as `--theme` and the config file take them.
pub const THEMES: [&'static str; 7] = ["default", "high-contrast", "catppuccin", "tokyo-night", "nord", "gruvbox", "dracula"];

/// The palette of the built-in theme at `k` in [`THEMES`].
pub open spec fn palette_at(k: int) -> Palette {
    palette_of(PALETTES[k])
}

/// Which built-in theme a lower-cased name asks for, aliases included;
/// anything else is the default theme.
pub open spec fn theme_slot(lower: Seq<char>) -> int {
    if lower == "high-contrast"@ || lower == "hc"@ {
        1
    } else if lower == "catppuccin"@ || lower == "catppuccin-mocha"@ {
        2
    } else if lower == "tokyo-night"@ || lower == "tokyonight"@ {
        3
    } else if lower == "nord"@ {
        4
    } else if lower == "gruvbox"@ || lower == "gruvbox-dark"@ {
        5
    } else if lower == "dracula"@ {
        6
    } else {
        0
    }
}

/// The name and palette of the theme `name` asks for, matched without regard
/// to ASCII case; an unknown name gives the default theme.
pub fn named(name: &str) -> (r: (&'static str, Palette))
    ensures
        r.0@ == THEMES[theme_slot(spec_lowered(name@))]@,
        r.1 == palette_at(theme_slot(spec_lowered(name@))),
{
    let l = lowered(name);
    let l = l.as_slice();
    if same_chars(l, "high-contrast") || same_chars(l, "hc") {
        (THEMES[1], palette_from(&PALETTES[1]))
    } else if same_chars(l, "catppuccin") || same_chars(l, "catppuccin-mocha") {
        (THEMES[2], palette_from(&PALETTES[2]))
    } else if same_chars(l, "tokyo-night") || same_chars(l, "tokyonight") {
        (THEMES[3], palette_from(&PALETTES[3]))
    } else if same_chars(l, "nord") {
        (THEMES[4], palette_from(&PALETTES[4]))
    } else if same_chars(l, "gruvbox") || same_chars(l, "gruvbox-dark") {
        (THEMES[5], palette_from(&PALETTES[5]))
    } else if same_chars(l, "dracula") {
        (THEMES[6], palette_from(&PALETTES[6]))
    } else {
        (THEMES[0], palette_from(&PALETTES[0]))
    }
}

pub open spec fn max3(c: Rgb) -> u8 {
    if c.r >= c.g && c.r >= c.b {
        c.r
    } else if c.g >= c.b {
        c.g
    } else {
        c.b
    }
}

pub open spec fn min3(c: Rgb) -> u8 {
    if c.r <= c.g && c.r <= c.b {
        c.r
    } else if c.g <= c.b {
        c.g
    } else {
        c.b
    }
}

/// The 256-colour index of a 24-bit colour: near-greys go to the grey ramp
/// (232..=255), everything else to the 6×6×6 cube (16..=231).
pub open spec fn index_256(c: Rgb) -> int {
    if max3(c) - min3(c) < 16 {
        232 + max3(c) * 23 / 255
    } else {
        16 + 36 * (c.r * 5 / 255) + 6 * (c.g * 5 / 255) + c.b * 5 / 255
    }
}

fn cube_level(v: u8) -> (q: u8)
    ensures
        q == v * 5 / 255,
        q <= 5,
{
    (v as u16 * 5 / 255) as u8
}

/// A 24-bit colour stepped down to the 256-colour table.
pub fn downgrade_256(c: Rgb) -> (i: u8)
    ensures
        i == index_256(c),
        16 <= i,
{
    let mx = if c.r >= c.g && c.r >= c.b {
        c.r
    } else if c.g >= c.b {
        c.g
    } else {
        c.b
    };
    let mn = if c.r <= c.g && c.r <= c.b {
        c.r
    } else if c.g <= c.b {
        c.g
    } else {
        c.b
    };
    if mx - mn < 16 {
        let level = (mx as u16 * 23 / 255) as u8;
        return 232 + level;
    }
    16 + 36 * cube_level(c.r) + 6 * cube_level(c.g) + cube_level(c.b)
}

/// The basic colour nearest in hue: each channel counts as on above 96, and
/// the light variant is taken when the strongest channel is above 160.
pub open spec fn basic_of(c: Rgb) -> Color {
    let bright = max3(c) > 160;
    let (r, g, b) = (c.r > 96, c.g > 96, c.b > 96);
    if r && !g && !b {
        if bright { Color::LightRed } else { Color::Red }
    } else if !r && g && !b {
        if bright { Color::LightGreen } else { Color::Green }
    } else if !r && !g && b {
        if bright { Color::LightBlue } else { Color::Blue }
    } else if r && g && !b {
        if bright { Color::LightYellow } else { Color::Yellow }
    } else if r && !g && b {
        if bright { Color::LightMagenta } else { Color::Magenta }
    } else if !r && g && b {
        if bright { Color::LightCyan } else { Color::Cyan }
    } else if r && g && b {
        if bright { Color::White } else { Color::Gray }
    } else {
        Color::DarkGray
    }
}

/// A 24-bit colour stepped down to the 8/16 basic colours.
pub fn downgrade_basic(c: Rgb) -> (k: Color)
    ensures
        k == basic_of(c),
{
    let bright = (if c.r >= c.g && c.r >= c.b {
        c.r
    } else if c.g >= c.b {
        c.g
    } else {
        c.b
    }) > 160;
    let r = c.r > 96;
    let g = c.g > 96;
    let b = c.b > 96;
    if r && !g && !b {
        if bright { Color::LightRed } else { Color::Red }
    } else if !r && g && !b {
        if bright { Color::LightGreen } else { Color::Green }
    } else if !r && !g && b {
        if bright { Color::LightBlue } else { Color::Blue }
    } else if r && g && !b {
        if bright { Color::LightYellow } else { Color::Yellow }
    } else if r && !g && b {
        if bright { Color::LightMagenta } else { Color::Magenta }
    } else if !r && g && b {
        if bright { Color::LightCyan } else { Color::Cyan }
    } else if r && g && b {
        if bright { Color::White } else { Color::Gray }
    } else {
        Color::DarkGray
    }
}

/// The primaries a basic colour is made of, as (red, green, blue): red,
/// green and blue alone; yellow red and green; magenta red and blue; cyan
/// green and blue; grey and white all three; dark grey none.
pub open spec fn primaries(k: Color) -> Option<(bool, bool, bool)> {
    match k {
        Color::Red | Color::LightRed => Some((true, false, false)),
        Color::Green | Color::LightGreen => Some((false, true, false)),
        Color::Blue | Color::LightBlue => Some((false, false, true)),
        Color::Yellow | Color::LightYellow => Some((true, true, false)),
        Color::Magenta | Color::LightMagenta => Some((true, false, true)),
        Color::Cyan | Color::LightCyan => Some((false, true, true)),
        Color::Gray | Color::White => Some((true, true, true)),
        Color::DarkGray => Some((false, false, false)),
        _ => None,
    }
}

/// Whether a basic colour is one of the light (bright) ones.
pub open spec fn is_light(k: Color) -> bool {
    match k {
        Color::LightRed | Color::LightGreen | Color::LightBlue | Color::LightYellow
        | Color::LightMagenta | Color::LightCyan | Color::White => true,
        _ => false,
    }
}

/// On a 16-colour terminal a colour keeps its hue: the basic colour is made
/// of exactly the channels that are on (above 96), and it is a light one
/// exactly when some channel is on and the strongest is above 160.
pub proof fn lemma_basic_colours_keep_their_hue(c: Rgb)
    ensures
        primaries(basic_of(c)) == Some((c.r > 96, c.g > 96, c.b > 96)),
        (c.r > 96 || c.g > 96 || c.b > 96) ==> (is_light(basic_of(c)) <==> (c.r > 160 || c.g > 160 || c.b > 160)),
        !(c.r > 96 || c.g > 96 || c.b > 96) ==> !is_light(basic_of(c)),
{
}

/// What a colour becomes on a terminal of the given depth.
pub open spec fn shown(depth: ColorDepth, c: Rgb) -> Color {
    match depth {
        ColorDepth::TrueColor => Color::Rgb(c.r, c.g, c.b),
        ColorDepth::Indexed256 => Color::Indexed(index_256(c) as u8),
        ColorDepth::Basic => basic_of(c),
        ColorDepth::Monochrome => Color::Reset,
    }
}

impl ColorDepth {
    /// The depth that the environment asks for: `NO_COLOR` set, or `TERM`
    /// empty or `dumb`, means none; `COLORTERM` naming truecolor or 24bit
    /// means 24-bit; a `TERM` of a 256-colour or modern terminal means the
    /// 256-colour table; anything else the basic colours.
    pub fn from_env(no_color: bool, term: &str, colorterm: &str) -> (d: ColorDepth)
        ensures
            d == (if no_color || term@.len() == 0 || term@ == "dumb"@ {
                ColorDepth::Monochrome
            } else if spec_contains(colorterm@, "truecolor"@) || spec_contains(colorterm@, "24bit"@) {
                ColorDepth::TrueColor
            } else if spec_contains(term@, "256"@) || spec_contains(term@, "kitty"@) || spec_contains(term@, "alacritty"@)
                || spec_contains(term@, "ghostty"@) || spec_contains(term@, "wezterm"@) {
                ColorDepth::Indexed256
            } else {
                ColorDepth::Basic
            }),
    {
        if no_color {
            return ColorDepth::Monochrome;
        }
        let t = chars_of(term);
        if t.len() == 0 || same_chars(t.as_slice(), "dumb") {
            return ColorDepth::Monochrome;
        }
        if contains_str(colorterm, "truecolor") || contains_str(colorterm, "24bit") {
            return ColorDepth::TrueColor;
        }
        if contains_str(term, "256") || contains_str(term, "kitty") || contains_str(term, "alacritty")
            || contains_str(term, "ghostty") || contains_str(term, "wezterm") {
            return ColorDepth::Indexed256;
        }
        ColorDepth::Basic
    }
}

/// The colour of a subsystem in a palette.
pub open spec fn subsystem_rgb(p: Palette, s: Subsystem) -> Rgb {
    match s {
        Subsystem::Cpu => p.cpu,
        Subsystem::Memory => p.memory,
        Subsystem::Gpu => p.gpu,
        Subsystem::Disk => p.disk,
        Subsystem::Network => p.network,
        Subsystem::Process => p.process,
    }
}

/// A theme: a named palette shown at a terminal's depth.
#[derive(Clone, Copy, Debug)]
pub struct Theme {
    pub name: &'static str,
    pub palette: Palette,
    pub depth: ColorDepth,
}

impl Theme {
    /// The theme `name` asks for (see [`named`]), at the given depth.
    pub fn new(name: &str, depth: ColorDepth) -> (t: Theme)
        ensures
            t.name@ == THEMES[theme_slot(spec_lowered(name@))]@,
            t.palette == palette_at(theme_slot(spec_lowered(name@))),
            t.depth == depth,
    {
        let (n, p) = named(name);
        Theme { name: n, palette: p, depth }
    }

    /// A palette colour stepped down to what the terminal can show.
    pub fn c(&self, color: Rgb) -> (k: Color)
        ensures
            k == shown(self.depth, color),
    {
        match self.depth {
            ColorDepth::TrueColor => Color::Rgb(color.r, color.g, color.b),
            ColorDepth::Indexed256 => Color::Indexed(downgrade_256(color)),
            ColorDepth::Basic => downgrade_basic(color),
            ColorDepth::Monochrome => Color::Reset,
        }
    }

    /// Whether the terminal shows no colour, so that only reverse video and
    /// dimming can show levels.
    pub fn depth_is_monochrome(&self) -> (r: bool)
        ensures
            r == (self.depth == ColorDepth::Monochrome),
    {
        match self.depth {
            ColorDepth::Monochrome => true,
            _ => false,
        }
    }

    /// The colour of a severity, stepped down to the terminal.
    pub fn severity_color(&self, s: Severity) -> (k: Color)
        ensures
            k == shown(self.depth, severity_rgb(self.palette, s)),
    {
        let p = &self.palette;
        self.c(match s {
            Severity::Normal => p.ok,
            Severity::Notice => p.notice,
            Severity::Warning => p.warning,
            Severity::Critical => p.critical,
            Severity::Unknown => p.faint,
        })
    }

    /// The colour of a subsystem.
    pub fn subsystem(&self, s: Subsystem) -> (k: Color)
        ensures
            k == shown(self.depth, subsystem_rgb(self.palette, s)),
    {
        let p = &self.palette;
        self.c(match s {
            Subsystem::Cpu => p.cpu,
            Subsystem::Memory => p.memory,
            Subsystem::Gpu => p.gpu,
            Subsystem::Disk => p.disk,
            Subsystem::Network => p.network,
            Subsystem::Process => p.process,
        })
    }
}

/// How bad a reading is.
#[derive(Clone, Copy, Debug, PartialEq, Eq)]
pub enum Severity {
    /// All is well.
    Normal,
    Notice,
    Warning,
    Critical,
    /// No reading to judge.
    Unknown,
}

/// The palette colour of a severity.
pub open spec fn severity_rgb(p: Palette, s: Severity) -> Rgb {
    match s {
        Severity::Normal => p.ok,
        Severity::Notice => p.notice,
        Severity::Warning => p.warning,
        Severity::Critical => p.critical,
        Severity::Unknown => p.faint,
    }
}

/// Whether a severity is also shown in bold: warnings and criticals, so
/// that they read without colour (monochrome terminals, colour blindness).
pub fn severity_is_bold(s: Severity) -> (b: bool)
    ensures
        b == (s == Severity::Warning || s == Severity::Critical),
{
    match s {
        Severity::Warning | Severity::Critical => true,
        _ => false,
    }
}

/// In every built-in palette the subsystems have colours of their own; the
/// one pair that may share a colour is the CPU and the network.
pub proof fn lemma_subsystem_colors_distinct(k: int, s1: Subsystem, s2: Subsystem)
    requires
        0 <= k < 7,
        s1 != s2,
        !(s1 == Subsystem::Cpu && s2 == Subsystem::Network),
        !(s1 == Subsystem::Network && s2 == Subsystem::Cpu),
    ensures
        subsystem_rgb(palette_at(k), s1) != subsystem_rgb(palette_at(k), s2),
{
}

/// A terminal without colour is never sent a colour code, and a 24-bit one
/// is sent the palette's colour unchanged.
pub proof fn lemma_depth_extremes(c: Rgb)
    ensures
        shown(ColorDepth::Monochrome, c) == Color::Reset,
        shown(ColorDepth::TrueColor, c) == Color::Rgb(c.r, c.g, c.b),
        16 <= index_256(c) <= 255,
{
}

/// The colours users are told apart by on the storage charts, in order of
/// preference: the subsystem and severity colours, then a few spares (in
/// some palettes the first ones coincide).
pub open spec fn user_candidates(p: Palette) -> Seq<Rgb> {
    seq![p.gpu, p.memory, p.warning, p.disk, p.critical, p.process, p.ok, p.notice, p.cpu, p.estimated, p.dim]
}

/// The candidates from `from` kept after `kept`: a colour is taken when it
/// is neither the accent (the colour of the system's own bar and of the
/// selection) nor the network's (a cyan like the accent in 256 colours) nor
/// taken already, until five are taken.
pub open spec fn pick_users(cands: Seq<Rgb>, accent: Rgb, network: Rgb, kept: Seq<Rgb>) -> Seq<Rgb>
    decreases cands.len(),
{
    if cands.len() == 0 || kept.len() >= 5 {
        kept
    } else {
        let c = cands[0];
        let next = if c != accent && c != network && !kept.contains(c) { kept.push(c) } else { kept };
        pick_users(cands.drop_first(), accent, network, next)
    }
}

/// The user colours of a palette.
pub open spec fn spec_user_palette(p: Palette) -> Seq<Rgb> {
    pick_users(user_candidates(p), p.accent, p.network, Seq::empty())
}

fn contains_rgb(v: &Vec<Rgb>, c: Rgb) -> (b: bool)
    ensures
        b == v@.contains(c),
{
    let mut i: usize = 0;
    while i < v.len()
        invariant
            i <= v@.len(),
            forall|j: int| 0 <= j < i ==> v@[j] != c,
        decreases v@.len() - i,
    {
        if v[i] == c {
            assert(v@[i as int] == c);
            return true;
        }
        i = i + 1;
    }
    false
}

/// Up to five colours for the users of a storage chart, one each, none of
/// them the accent or the network colour and no two alike.
pub fn user_palette(theme: &Theme) -> (r: Vec<Rgb>)
    ensures
        r@ == spec_user_palette(theme.palette),
{
    let p = theme.palette;
    let cands = [p.gpu, p.memory, p.warning, p.disk, p.critical, p.process, p.ok, p.notice, p.cpu, p.estimated, p.dim];
    let mut out: Vec<Rgb> = Vec::new();
    let mut i: usize = 0;
    assert(cands@ == user_candidates(p));
    assert(cands@.skip(0) =~= cands@);
    while i < 11 && out.len() < 5
        invariant
            i <= 11,
            cands@ == user_candidates(p),
            spec_user_palette(p) == pick_users(cands@.skip(i as int), p.accent, p.network, out@),
        decreases 11 - i,
    {
        let c = cands[i];
        assert(cands@.skip(i as int)[0] == c);
        assert(cands@.skip(i as int).drop_first() =~= cands@.skip(i + 1));
        if c != p.accent && c != p.network && !contains_rgb(&out, c) {
            out.push(c);
        }
        i = i + 1;
    }
    proof {
        if i == 11 {
            assert(cands@.skip(11).len() == 0);
        }
        assert(pick_users(cands@.skip(i as int), p.accent, p.network, out@) == out@);
    }
    out
}

/// The user colours never use the accent or the network colour, never
/// repeat, and are at most five.
pub proof fn lemma_user_colors_apart(cands: Seq<Rgb>, accent: Rgb, network: Rgb, kept: Seq<Rgb>)
    requires
        kept.len() <= 5,
        forall|i: int| 0 <= i < kept.len() ==> kept[i] != accent && kept[i] != network,
        forall|i: int, j: int| 0 <= i < j < kept.len() ==> kept[i] != kept[j],
    ensures
        ({
            let r = pick_users(cands, accent, network, kept);
            &&& r.len() <= 5
            &&& forall|i: int| 0 <= i < r.len() ==> r[i] != accent && r[i] != network
            &&& forall|i: int, j: int| 0 <= i < j < r.len() ==> r[i] != r[j]
        }),
    decreases cands.len(),
{
    if cands.len() > 0 && kept.len() < 5 {
        let c = cands[0];
        if c != accent && c != network && !kept.contains(c) {
            let next = kept.push(c);
            assert forall|i: int, j: int| 0 <= i < j < next.len() implies next[i] != next[j] by {
                if j == next.len() - 1 {
                    assert(next[j] == c);
                    assert(next[i] == kept[i]);
                }
            }
            lemma_user_colors_apart(cands.drop_first(), accent, network, next);
        } else {
            lemma_user_colors_apart(cands.drop_first(), accent, network, kept);
        }
    }
}

} // verus!
