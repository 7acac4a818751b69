//! Fill textures that encode which segment is which.
//!
//! A solid bar encodes one dimension, its length. "Memory is used, buffers,
//! cache and free" cannot be read once colour is gone (a monochrome
//! terminal, colour blindness, an 8-colour SSH session), so the segment is
//! encoded in the **texture** too, a channel independent of colour. These
//! patterns are encoding, not decoration.

use vstd::prelude::*;
use crate::chars::{lemma_norm_of_word, normalized, same_chars, small_word, spec_norm, spec_upper};

verus! {

/// A fill texture; each has a ramp of characters from light to heavy.
#[derive(Clone, Copy, Debug, PartialEq, Eq)]
pub enum Pattern {
    /// Solid: the heaviest, for what is used and cannot be reclaimed.
    Solid,
    /// Shading `░▒▓`, for middle layers.
    Shade,
    /// Dots: light, for soft segments such as reclaimable cache.
    Dot,
    /// Braille dots: fine, for layers in small areas.
    Braille,
    /// Vertical lines: "in flow".
    Line,
    /// Hatching, like a section view: reserved or unavailable.
    Hatch,
    /// Digital steps, like an instrument panel: discrete segments.
    Digital,
}

impl Default for Pattern {
    fn default() -> (p: Pattern)
        ensures
            p == Pattern::Solid,
    {
        Pattern::Solid
    }
}

/// The ramp of a pattern, light to heavy.
pub open spec fn spec_ramp(p: Pattern) -> Seq<char> {
    match p {
        Pattern::Solid => seq!['\u{2593}', '\u{2588}'],
        Pattern::Shade => seq!['\u{2591}', '\u{2592}', '\u{2593}'],
        Pattern::Dot => seq!['\u{00b7}', '\u{2219}', '\u{2022}'],
        Pattern::Braille => seq!['\u{2802}', '\u{2812}', '\u{2836}', '\u{28ff}'],
        Pattern::Line => seq!['\u{2575}', '\u{2502}', '\u{2503}'],
        Pattern::Hatch => seq!['\u{2571}', '\u{2573}', '\u{25a8}'],
        Pattern::Digital => seq!['\u{2581}', '\u{2584}', '\u{2586}', '\u{2587}'],
    }
}

/// The name of a pattern in settings.
pub open spec fn spec_pattern_name(p: Pattern) -> Seq<char> {
    match p {
        Pattern::Solid => "solid"@,
        Pattern::Shade => "shade"@,
        Pattern::Dot => "dot"@,
        Pattern::Braille => "braille"@,
        Pattern::Line => "line"@,
        Pattern::Hatch => "hatch"@,
        Pattern::Digital => "digital"@,
    }
}

impl Pattern {
    /// Every pattern.
    pub const ALL: [Pattern; 7] = [
        Pattern::Solid,
        Pattern::Shade,
        Pattern::Dot,
        Pattern::Braille,
        Pattern::Line,
        Pattern::Hatch,
        Pattern::Digital,
    ];

    /// Reads a pattern from a setting (trimmed, any ASCII case).
    pub fn parse(s: &str) -> (r: Option<Pattern>)
        ensures
            r == spec_parse_pattern(s@),
    {
        let n = normalized(s);
        let n = n.as_slice();
        if same_chars(n, "solid") {
            Some(Pattern::Solid)
        } else if same_chars(n, "shade") {
            Some(Pattern::Shade)
        } else if same_chars(n, "dot") {
            Some(Pattern::Dot)
        } else if same_chars(n, "braille") {
            Some(Pattern::Braille)
        } else if same_chars(n, "line") {
            Some(Pattern::Line)
        } else if same_chars(n, "hatch") {
            Some(Pattern::Hatch)
        } else if same_chars(n, "digital") {
            Some(Pattern::Digital)
        } else {
            None
        }
    }

    /// The pattern's name in settings.
    pub fn name(self) -> (r: &'static str)
        ensures
            r@ == spec_pattern_name(self),
    {
        match self {
            Pattern::Solid => "solid",
            Pattern::Shade => "shade",
            Pattern::Dot => "dot",
            Pattern::Braille => "braille",
            Pattern::Line => "line",
            Pattern::Hatch => "hatch",
            Pattern::Digital => "digital",
        }
    }

    /// The pattern's characters from light to heavy (two to four of them).
    /// Digital ends in `▇`, not `█`, so that its heaviest step never looks
    /// like Solid's.
    pub fn ramp(self) -> (r: &'static [char])
        ensures
            r@ == spec_ramp(self),
    {
        match self {
            Pattern::Solid => &['\u{2593}', '\u{2588}'],
            Pattern::Shade => &['\u{2591}', '\u{2592}', '\u{2593}'],
            Pattern::Dot => &['\u{00b7}', '\u{2219}', '\u{2022}'],
            Pattern::Braille => &['\u{2802}', '\u{2812}', '\u{2836}', '\u{28ff}'],
            Pattern::Line => &['\u{2575}', '\u{2502}', '\u{2503}'],
            Pattern::Hatch => &['\u{2571}', '\u{2573}', '\u{25a8}'],
            Pattern::Digital => &['\u{2581}', '\u{2584}', '\u{2586}', '\u{2587}'],
        }
    }

    /// The pattern's representative character: its heaviest step.
    pub fn glyph(self) -> (c: char)
        ensures
            c == spec_ramp(self).last(),
    {
        let r = self.ramp();
        r[r.len() - 1]
    }

    /// Whether the pattern still reads without colour: its glyph is not blank.
    pub fn distinguishable_without_color(self) -> (r: bool)
        ensures
            r == (spec_ramp(self).last() != ' '),
    {
        self.glyph() != ' '
    }
}

/// Patterns that read apart from each other, heaviest first, for
/// composition bars: used, then reclaimable, then empty.
pub const COMPOSITION_ORDER: [Pattern; 7] = [
    Pattern::Solid,
    Pattern::Shade,
    Pattern::Braille,
    Pattern::Hatch,
    Pattern::Line,
    Pattern::Dot,
    Pattern::Digital,
];

/// Which segment of a composition bar cell `c` shows, from segment `i` on:
/// the first segment whose end lies past the cell; `None` past every end.
/// Each segment starts where the furthest earlier one stopped, so the cells
/// go to the segments in order and none is painted twice.
pub open spec fn bar_owner(ends: Seq<usize>, c: int, i: int) -> Option<usize>
    decreases ends.len() - i,
{
    if i < 0 || i >= ends.len() {
        None
    } else if c < ends[i] {
        Some(i as usize)
    } else {
        bar_owner(ends, c, i + 1)
    }
}

fn first_past(ends: &[usize], c: usize) -> (o: Option<usize>)
    ensures
        o == bar_owner(ends@, c as int, 0),
{
    let mut i: usize = 0;
    while i < ends.len()
        invariant
            i <= ends@.len(),
            bar_owner(ends@, c as int, 0) == bar_owner(ends@, c as int, i as int),
        decreases ends@.len() - i,
    {
        if c < ends[i] {
            return Some(i);
        }
        i = i + 1;
    }
    None
}

/// The cells of a composition bar `width` wide, given where each segment
/// ends (its running share of the width, rounded from the running total so
/// that rounding errors do not add up): for each cell, the segment it shows,
/// or `None` for an empty cell.
pub fn compose_cells(ends: &[usize], width: usize) -> (r: Vec<Option<usize>>)
    ensures
        r@.len() == width,
        forall|c: int| 0 <= c < width ==> #[trigger] r@[c] == bar_owner(ends@, c, 0),
{
    let mut r: Vec<Option<usize>> = Vec::new();
    let mut c: usize = 0;
    while c < width
        invariant
            c <= width,
            r@.len() == c,
            forall|d: int| 0 <= d < c ==> #[trigger] r@[d] == bar_owner(ends@, d, 0),
        decreases width - c,
    {
        let owner = first_past(ends, c);
        r.push(owner);
        c = c + 1;
    }
    r
}

proof fn lemma_owner_found(ends: Seq<usize>, c: int, i: int, j: int)
    requires
        0 <= i <= j < ends.len(),
        ends.len() <= usize::MAX,
        c < ends[j],
    ensures
        bar_owner(ends, c, i) matches Some(k) && i <= k <= j && c < ends[k as int],
    decreases j - i,
{
    if c >= ends[i] {
        lemma_owner_found(ends, c, i + 1, j);
    }
}

proof fn lemma_owner_first(ends: Seq<usize>, c: int, i: int)
    requires
        0 <= i,
        ends.len() <= usize::MAX,
    ensures
        bar_owner(ends, c, i) matches Some(k) ==> i <= k < ends.len() && c < ends[k as int]
            && forall|m: int| i <= m < k ==> c >= #[trigger] ends[m],
    decreases ends.len() - i,
{
    if i < ends.len() && c >= ends[i] {
        lemma_owner_first(ends, c, i + 1);
    }
}

/// A composition bar has no gaps and no reordering: when some segment ends
/// at or past the bar's width (as the last running share does whenever the
/// total is positive), every cell shows a segment; and the segments follow
/// each other left to right.
pub proof fn lemma_bar_fills_in_order(ends: Seq<usize>, width: int, c: int, d: int)
    requires
        ends.len() <= usize::MAX,
        exists|j: int| 0 <= j < ends.len() && ends[j] >= width,
        0 <= c <= d < width,
    ensures
        bar_owner(ends, c, 0) is Some,
        bar_owner(ends, d, 0) is Some,
        bar_owner(ends, c, 0)->0 <= bar_owner(ends, d, 0)->0,
{
    let j = choose|j: int| 0 <= j < ends.len() && ends[j] >= width;
    lemma_owner_found(ends, c, 0, j);
    lemma_owner_found(ends, d, 0, j);
    lemma_owner_first(ends, c, 0);
    lemma_owner_first(ends, d, 0);
    let kd = bar_owner(ends, d, 0)->0 as int;
    let kc = bar_owner(ends, c, 0)->0 as int;
    if kc > kd {
        assert(c >= ends[kd]);
        assert(d < ends[kd]);
    }
}

/// Every pattern is distinguishable without colour, and no two
/// patterns share their representative character.
pub proof fn lemma_patterns_distinct(a: Pattern, b: Pattern)
    ensures
        spec_ramp(a).last() != ' ',
        a != b ==> spec_ramp(a).last() != spec_ramp(b).last(),
        2 <= spec_ramp(a).len() <= 4,
{
}

/// What [`Pattern::parse`] gives: the pattern whose name the trimmed,
/// ASCII-lowercased word is, if any.
pub open spec fn spec_parse_pattern(s: Seq<char>) -> Option<Pattern> {
    if spec_norm(s) == "solid"@ {
        Some(Pattern::Solid)
    } else if spec_norm(s) == "shade"@ {
        Some(Pattern::Shade)
    } else if spec_norm(s) == "dot"@ {
        Some(Pattern::Dot)
    } else if spec_norm(s) == "braille"@ {
        Some(Pattern::Braille)
    } else if spec_norm(s) == "line"@ {
        Some(Pattern::Line)
    } else if spec_norm(s) == "hatch"@ {
        Some(Pattern::Hatch)
    } else if spec_norm(s) == "digital"@ {
        Some(Pattern::Digital)
    } else {
        None
    }
}

/// Every pattern's name reads back as that pattern, in small letters and in
/// capitals alike.
pub proof fn lemma_pattern_names_round_trip(p: Pattern)
    ensures
        spec_parse_pattern(spec_pattern_name(p)) == Some(p),
        spec_parse_pattern(spec_pattern_name(p).map_values(|c: char| spec_upper(c))) == Some(p),
{
    reveal_strlit("solid");
    reveal_strlit("shade");
    reveal_strlit("dot");
    reveal_strlit("braille");
    reveal_strlit("line");
    reveal_strlit("hatch");
    reveal_strlit("digital");
    let n = spec_pattern_name(p);
    assert(small_word(n));
    lemma_norm_of_word(n);
    assert("shade"@[1] != "solid"@[1]);
    assert("hatch"@[0] != "solid"@[0]);
    assert("hatch"@[0] != "shade"@[0]);
}

} // verus!
