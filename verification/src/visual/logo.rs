//! The logo and the brand.
//!
//! The brand is identity, not a poster: every way of drawing it has a space
//! budget, and when it does not fit it steps down one level, down to a line
//! of text: `Pixel → Small → Text → nothing`.

use vstd::prelude::*;
use vstd::string::StringExecFns;
use crate::chars::{chars_of, display_width, owned, push_char, str_eq, str_width, string_of};
use crate::visual::glyph::{layout, layout_row, half_line, lemma_glyph_rows_are_five_wide, max_len, spec_bitmap, spec_renderable, string_views, to_half_blocks, GLYPH_H, GLYPH_W};
use crate::visual::{level, Decoration};

verus! {

/// How the logo is drawn.
#[derive(Clone, Copy, Debug, PartialEq, Eq)]
pub enum Style {
    /// The full pixel font (4 terminal rows).
    Pixel,
    /// The pixel font squeezed to half height (2 terminal rows), for headers.
    Small,
    /// Plain text: `// DEVLAB`.
    Text,
    /// Not drawn.
    Off,
}

/// The brand, worked out once from the configuration.
#[derive(Clone, Debug, PartialEq)]
pub struct Brand {
    /// The user's brand code; empty means the sysview brand.
    pub name: String,
    /// How the user asked for it to be drawn.
    pub want: String,
}

/// The word a brand shows.
pub open spec fn spec_word(b: Brand) -> Seq<char> {
    if b.name@.len() == 0 { "sysview"@ } else { b.name@ }
}

/// Columns the pixel font needs for `n` characters.
pub open spec fn spec_pixel_width(n: nat) -> nat {
    if n == 0 { 0 } else { (n * 6 - 1) as nat }
}

/// The style a brand gets in `width`×`height` at a decoration level.
pub open spec fn spec_style(b: Brand, width: nat, height: nat, deco: Decoration) -> Style {
    let want = b.want@;
    let pw = spec_pixel_width(spec_word(b).len());
    let forced = want == "pixel"@ || want == "small"@;
    if want == "off"@ {
        Style::Off
    } else if want == "text"@ {
        Style::Text
    } else if deco == Decoration::Nothing && !forced {
        Style::Text
    } else if want == "pixel"@ {
        if pw <= width && height >= 4 {
            Style::Pixel
        } else if pw <= width && height >= 2 {
            Style::Small
        } else {
            Style::Text
        }
    } else if want == "small"@ {
        if pw <= width && height >= 2 { Style::Small } else { Style::Text }
    } else if level(deco) >= 3 && pw <= width && height >= 4 {
        Style::Pixel
    } else if level(deco) >= 2 && pw <= width && height >= 2 {
        Style::Small
    } else {
        Style::Text
    }
}

impl Brand {
    /// A brand from a code and a requested style.
    pub fn new(name: &str, want: &str) -> (b: Brand)
        ensures
            b.name@ == name@,
            b.want@ == want@,
    {
        Brand { name: owned(name), want: owned(want) }
    }

    /// The word on screen: the product's own name in lower case when no
    /// brand code is set, else the code.
    pub fn word(&self) -> (r: &str)
        ensures
            r@ == spec_word(*self),
    {
        if self.name.as_str().is_empty() {
            "sysview"
        } else {
            self.name.as_str()
        }
    }

    /// Whether the user set a brand of their own.
    pub fn is_custom(&self) -> (r: bool)
        ensures
            r == (self.name@.len() > 0),
    {
        !self.name.as_str().is_empty()
    }

    /// Which style to use in `width` columns and `height` rows at a
    /// decoration level. `off` and `text` are taken as asked; without
    /// decoration only an explicit `pixel` or `small` draws pixels; an
    /// explicit `pixel` still steps down when it does not fit; `auto` wants
    /// full decoration for the pixel font and at least standard for the
    /// small one.
    pub fn style(&self, width: usize, height: usize, deco: Decoration) -> (s: Style)
        requires
            spec_word(*self).len() <= usize::MAX / 6,
        ensures
            s == spec_style(*self, width as nat, height as nat, deco),
    {
        let want = self.want.as_str();
        if str_eq(want, "off") {
            return Style::Off;
        }
        if str_eq(want, "text") {
            return Style::Text;
        }
        let pixel_w = pixel_width(self.word());
        let is_pixel = str_eq(want, "pixel");
        let is_small = str_eq(want, "small");
        let forced = is_pixel || is_small;
        let none = match deco {
            Decoration::Nothing => true,
            _ => false,
        };
        if none && !forced {
            return Style::Text;
        }
        if is_pixel {
            return if pixel_w <= width && height >= 4 {
                Style::Pixel
            } else if pixel_w <= width && height >= 2 {
                Style::Small
            } else {
                Style::Text
            };
        }
        if is_small {
            return if pixel_w <= width && height >= 2 { Style::Small } else { Style::Text };
        }
        if deco.at_least(Decoration::Full) && pixel_w <= width && height >= 4 {
            Style::Pixel
        } else if deco.at_least(Decoration::Standard) && pixel_w <= width && height >= 2 {
            Style::Small
        } else {
            Style::Text
        }
    }

    /// Draws the brand: the lines to place, colour and position being the
    /// caller's. An empty list means no logo at this size.
    ///
    /// Text is `// word` if that fits, else the bare word if its byte length
    /// fits, else nothing. Pixel is the word in the pixel font as half
    /// blocks; Small squeezes it to half height first. A word the font
    /// cannot draw falls back to `// word`.
    pub fn render(&self, width: usize, height: usize, deco: Decoration) -> (r: Vec<String>)
        requires
            spec_word(*self).len() <= usize::MAX / 6,
        ensures
            string_views(r@) == spec_render(*self, width as nat, height as nat, deco),
    {
        let word = self.word();
        match self.style(width, height, deco) {
            Style::Off => Vec::new(),
            Style::Text => {
                let t = slashed(word);
                let mut v: Vec<String> = Vec::new();
                if display_width(t.as_str()) <= width {
                    v.push(t);
                } else if word.len() <= width {
                    v.push(owned(word));
                }
                proof {
                    assert(string_views(v@) =~= spec_render(*self, width as nat, height as nat, deco));
                }
                v
            },
            Style::Small => {
                let v = small(word);
                v
            },
            Style::Pixel => {
                match layout(word, 1) {
                    Some(rows) => {
                        proof {
                            assert(string_views(rows@) =~= word_rows(word@));
                        }
                        let v = to_half_blocks(rows.as_slice());
                        assert(string_views(v@) =~= half_lines(word_rows(word@)));
                        assert(string_views(v@) =~= spec_render(*self, width as nat, height as nat, deco));
                        v
                    },
                    None => {
                        let mut v: Vec<String> = Vec::new();
                        v.push(slashed(word));
                        assert(string_views(v@) =~= spec_render(*self, width as nat, height as nat, deco));
                        v
                    },
                }
            },
        }
    }
}

/// `// word`.
pub open spec fn spec_slashed(w: Seq<char>) -> Seq<char> {
    seq!['/', '/', ' '] + w
}

fn slashed(word: &str) -> (r: String)
    ensures
        r@ == spec_slashed(word@),
{
    let mut s = String::new();
    push_char(&mut s, '/');
    push_char(&mut s, '/');
    push_char(&mut s, ' ');
    s.append(word);
    assert(s@ =~= spec_slashed(word@));
    s
}

/// The seven pixel rows of the word, spaced one column apart.
pub open spec fn word_rows(w: Seq<char>) -> Seq<Seq<char>> {
    Seq::new(GLYPH_H as nat, |k: int| layout_row(w, 1, k))
}

/// The half-block lines of some pixel rows.
pub open spec fn half_lines(rows: Seq<Seq<char>>) -> Seq<Seq<char>> {
    Seq::new(((rows.len() + 1) / 2) as nat, |p: int| half_line(rows, p))
}

/// Pixel rows folded pairwise: (0,1) (2,3) (4,5) (6), a pixel lit if lit in either.
pub open spec fn squashed(rows: Seq<Seq<char>>) -> Seq<Seq<char>> {
    Seq::new(((rows.len() + 1) / 2) as nat, |p: int| {
        let top = rows[2 * p];
        let bottom = if 2 * p + 1 < rows.len() { rows[2 * p + 1] } else { Seq::empty() };
        Seq::new(max_len(rows), |x: int| if (0 <= x < top.len() && top[x] == '#') || (0 <= x < bottom.len() && bottom[x] == '#') { '#' } else { ' ' })
    })
}

/// What [`Brand::render`] draws.
pub open spec fn spec_render(b: Brand, width: nat, height: nat, deco: Decoration) -> Seq<Seq<char>> {
    let w = spec_word(b);
    match spec_style(b, width, height, deco) {
        Style::Off => Seq::empty(),
        Style::Text => if str_width(spec_slashed(w)) <= width {
            seq![spec_slashed(w)]
        } else if (vstd::utf8::encode_utf8(w).len() as usize) <= width {
            seq![w]
        } else {
            Seq::empty()
        },
        Style::Small => if spec_renderable(w) {
            half_lines(squashed(word_rows(w)))
        } else {
            seq![spec_slashed(w)]
        },
        Style::Pixel => if spec_renderable(w) {
            half_lines(word_rows(w))
        } else {
            seq![spec_slashed(w)]
        },
    }
}

/// Columns the pixel font needs for the word.
pub fn pixel_width(word: &str) -> (r: usize)
    requires
        word@.len() <= usize::MAX / 6,
    ensures
        r == spec_pixel_width(word@.len()),
{
    let n = word.unicode_len();
    if n == 0 {
        0
    } else {
        n * GLYPH_W + (n - 1)
    }
}

/// The word in the pixel font squeezed to half height (rows OR-ed in
/// pairs, so that no stroke disappears), drawn in half blocks.
fn small(word: &str) -> (r: Vec<String>)
    ensures
        string_views(r@) == if spec_renderable(word@) {
            half_lines(squashed(word_rows(word@)))
        } else {
            seq![spec_slashed(word@)]
        },
{
    match layout(word, 1) {
        None => {
            let mut v: Vec<String> = Vec::new();
            v.push(slashed(word));
            assert(string_views(v@) =~= seq![spec_slashed(word@)]);
            v
        },
        Some(rows) => {
            proof {
                assert(string_views(rows@) =~= word_rows(word@));
            }
            let sq = squash(rows.as_slice());
            let v = to_half_blocks(sq.as_slice());
            proof {
                assert(string_views(sq@) =~= squashed(word_rows(word@)));
                assert(string_views(v@) =~= half_lines(squashed(word_rows(word@))));
            }
            v
        },
    }
}

/// Folds pixel rows pairwise: (0,1) (2,3) (4,5) (6).
fn squash(rows: &[String]) -> (r: Vec<String>)
    ensures
        string_views(r@) == squashed(string_views(rows@)),
{
    let ghost rv = string_views(rows@);
    let n = rows.len();
    let mut grid: Vec<Vec<char>> = Vec::new();
    let mut width: usize = 0;
    let mut i: usize = 0;
    while i < n
        invariant
            n == rows@.len(),
            rv == string_views(rows@),
            i <= n,
            grid@.len() == i,
            forall|j: int| 0 <= j < i ==> #[trigger] grid@[j]@ == rv[j],
            width == max_len(rv.take(i as int)),
        decreases n - i,
    {
        let cs = chars_of(rows[i].as_str());
        proof {
            assert(rv.take(i as int + 1).drop_last() =~= rv.take(i as int));
            assert(rv[i as int] == rows@[i as int]@);
        }
        if cs.len() > width {
            width = cs.len();
        }
        grid.push(cs);
        i = i + 1;
    }
    assert(rv.take(n as int) =~= rv);
    let mut out: Vec<String> = Vec::new();
    let mut p: usize = 0;
    let lines = n / 2 + n % 2;
    while p < lines
        invariant
            n == rows@.len(),
            rv == string_views(rows@),
            grid@.len() == n,
            forall|j: int| 0 <= j < n ==> #[trigger] grid@[j]@ == rv[j],
            width == max_len(rv),
            lines == (n + 1) / 2,
            p <= lines,
            out@.len() == p,
            forall|q: int| 0 <= q < p ==> #[trigger] out@[q]@ == squashed(rv)[q],
        decreases lines - p,
    {
        let top = &grid[2 * p];
        let empty: Vec<char> = Vec::new();
        let bottom = if 2 * p + 1 < n { &grid[2 * p + 1] } else { &empty };
        let ghost bot_view = if 2 * p + 1 < n { rv[2 * p + 1] } else { Seq::<char>::empty() };
        assert(bottom@ == bot_view);
        let mut line: Vec<char> = Vec::new();
        let mut x: usize = 0;
        while x < width
            invariant
                x <= width,
                top@ == rv[2 * p as int],
                bottom@ == bot_view,
                line@ =~= Seq::new(x as nat, |k: int| if (0 <= k < rv[2 * p as int].len() && rv[2 * p as int][k] == '#') || (0 <= k < bot_view.len() && bot_view[k] == '#') { '#' } else { ' ' }),
            decreases width - x,
        {
            let t = x < top.len() && top[x] == '#';
            let b = x < bottom.len() && bottom[x] == '#';
            line.push(if t || b { '#' } else { ' ' });
            x = x + 1;
        }
        let s = string_of(line.as_slice());
        assert(s@ =~= squashed(rv)[p as int]);
        out.push(s);
        p = p + 1;
    }
    assert(string_views(out@) =~= squashed(rv));
    out
}

/// The slogan under the logo: the product's own for the default brand; a
/// custom brand says that it is sysview.
pub fn slogan(brand: &Brand) -> (r: &'static str)
    ensures
        r@ == if brand.name@.len() > 0 { "sysview observability"@ } else { "one command, the whole machine"@ },
{
    if brand.is_custom() {
        "sysview observability"
    } else {
        "one command, the whole machine"
    }
}

/// The one-line brand strip for the footer.
pub fn tagline(brand: &Brand) -> (r: String)
    ensures
        r@ == if brand.name@.len() > 0 {
            spec_slashed(brand.name@) + "  |  sysview observability"@
        } else {
            "// SYSVIEW  |  one command, the whole machine"@
        },
{
    if brand.is_custom() {
        let mut s = slashed(brand.word());
        s.append("  |  sysview observability");
        s
    } else {
        owned("// SYSVIEW  |  one command, the whole machine")
    }
}

/// What `pixel_width` says a word needs is the width of every row the
/// pixel font lays it out in, one column between glyphs.
pub proof fn lemma_pixel_width_is_layout_width(cs: Seq<char>, r: int)
    requires
        spec_renderable(cs),
        0 <= r < 7,
    ensures
        layout_row(cs, 1, r).len() == spec_pixel_width(cs.len()),
    decreases cs.len(),
{
    lemma_glyph_rows_are_five_wide(cs.last(), r);
    if cs.len() > 1 {
        let d = cs.drop_last();
        assert forall|i: int| 0 <= i < d.len() implies spec_bitmap(#[trigger] d[i]) is Some by {
            assert(d[i] == cs[i]);
        }
        lemma_pixel_width_is_layout_width(d, r);
        assert(layout_row(cs, 1, r) == layout_row(d, 1, r) + Seq::new(1, |i: int| ' ') + spec_bitmap(cs.last()).unwrap()[r]@);
        assert(spec_pixel_width(cs.len()) == spec_pixel_width(d.len()) + 6);
    } else {
        assert(cs.drop_last().len() == 0);
        assert(layout_row(cs.drop_last(), 1, r).len() == 0);
        assert(layout_row(cs, 1, r) == layout_row(cs.drop_last(), 1, r) + Seq::<char>::empty() + spec_bitmap(cs.last()).unwrap()[r]@);
    }
}

} // verus!
