//! Column arithmetic for text on a terminal.
//!
//! A CJK character takes **two** columns. Every width in the interface is a
//! display width, never a byte length or a character count.

use vstd::prelude::*;
use vstd::string::StringExecFns;
use crate::chars::{char_cols, chars_of, cw, display_width, printable_ascii, push_char, str_width};

verus! {

/// How many columns the string takes on a terminal.
pub fn width(s: &str) -> (r: usize)
    ensures
        r == str_width(s@),
        printable_ascii(s@) ==> r == s@.len(),
{
    display_width(s)
}

/// The longest prefix of `cs` whose characters, taken one at a time from the
/// left, all fit in `budget` columns (it stops at the first one that does not).
pub open spec fn fit_prefix(cs: Seq<char>, budget: nat) -> Seq<char>
    decreases cs.len(),
{
    if cs.len() == 0 || cw(cs[0]) > budget {
        Seq::empty()
    } else {
        seq![cs[0]] + fit_prefix(cs.drop_first(), (budget - cw(cs[0])) as nat)
    }
}

/// The ellipsis that marks a cut.
pub open spec fn ellipsis() -> char {
    '\u{2026}'
}

/// What `truncate(s, max)` gives.
pub open spec fn spec_truncate(s: Seq<char>, max: nat) -> Seq<char> {
    if max == 0 {
        Seq::empty()
    } else if str_width(s) <= max {
        s
    } else if max == 1 {
        seq![ellipsis()]
    } else {
        fit_prefix(s, (max - 1) as nat).push(ellipsis())
    }
}

/// Per-character width of the prefix kept before the ellipsis.
pub open spec fn cw_sum(cs: Seq<char>) -> nat
    decreases cs.len(),
{
    if cs.len() == 0 {
        0
    } else {
        cw(cs[0]) + cw_sum(cs.drop_first())
    }
}

proof fn lemma_fit_prefix(cs: Seq<char>, budget: nat)
    ensures
        cw_sum(fit_prefix(cs, budget)) <= budget,
        fit_prefix(cs, budget).len() <= cs.len(),
        fit_prefix(cs, budget) =~= cs.take(fit_prefix(cs, budget).len() as int),
    decreases cs.len(),
{
    if cs.len() > 0 && cw(cs[0]) <= budget {
        let rest = fit_prefix(cs.drop_first(), (budget - cw(cs[0])) as nat);
        lemma_fit_prefix(cs.drop_first(), (budget - cw(cs[0])) as nat);
        let f = fit_prefix(cs, budget);
        assert(f.drop_first() =~= rest);
        assert(f[0] == cs[0]);
    }
}

/// Cuts a string to at most `max` columns, marking a cut with `…`.
///
/// A string that fits comes back unchanged. Otherwise characters are kept
/// from the left while they fit in `max - 1` columns and `…` is added (for
/// `max == 1` the result is `…` alone); a wide character that does not fit
/// in what is left ends the cut, so the result may be a column short.
pub fn truncate(s: &str, max: usize) -> (r: String)
    ensures
        r@ == spec_truncate(s@, max as nat),
        max > 1 && str_width(s@) > max ==> cw_sum(r@.drop_last()) <= max - 1,
        max >= 1 && str_width(s@) > max ==> r@.last() == ellipsis() && cw_sum(r@) <= (max - 1) + cw(ellipsis()),
{
    if max == 0 {
        return String::new();
    }
    if width(s) <= max {
        return String::from_str(s);
    }
    if max == 1 {
        let mut e = String::new();
        push_char(&mut e, '\u{2026}');
        proof {
            lemma_cw_sum_push(Seq::<char>::empty(), '\u{2026}');
            assert(e@ =~= Seq::<char>::empty().push('\u{2026}'));
        }
        return e;
    }
    let cs = chars_of(s);
    let mut out = String::new();
    let mut w: usize = 0;
    let mut i: usize = 0;
    let budget = max - 1;
    proof {
        lemma_fit_prefix(s@, budget as nat);
        assert(cs@.skip(0) =~= s@);
        assert(out@ + fit_prefix(cs@.skip(0), budget as nat) =~= fit_prefix(s@, budget as nat));
        assert(cs@.take(0) =~= out@);
    }
    let mut stop = false;
    while i < cs.len() && !stop
        invariant
            cs@ == s@,
            i <= cs@.len(),
            stop ==> fit_prefix(cs@.skip(i as int), (budget - w) as nat) =~= Seq::<char>::empty(),
            w <= budget,
            fit_prefix(s@, budget as nat) == out@ + fit_prefix(cs@.skip(i as int), (budget - w) as nat),
            cw_sum(out@) == w,
            out@ == cs@.take(i as int),
        decreases cs@.len() - i + if stop { 0int } else { 1int },
    {
        let c = cs[i];
        let cwc = char_cols(c);
        proof {
            assert(cs@.skip(i as int)[0] == c);
            assert(cs@.skip(i as int).drop_first() =~= cs@.skip(i as int + 1));
        }
        if cwc > budget - w {
            assert(fit_prefix(cs@.skip(i as int), (budget - w) as nat) =~= Seq::<char>::empty());
            stop = true;
        } else {
        proof {
            lemma_cw_sum_push(out@, c);
            let rest = fit_prefix(cs@.skip(i as int + 1), (budget - w - cwc) as nat);
            assert(fit_prefix(cs@.skip(i as int), (budget - w) as nat) == seq![c] + rest);
            assert(out@ + (seq![c] + rest) =~= out@.push(c) + rest);
        }
        push_char(&mut out, c);
        w = w + cwc;
        i = i + 1;
        assert(out@ =~= cs@.take(i as int));
        }
    }
    proof {
        if !stop {
            assert(cs@.skip(i as int) =~= Seq::<char>::empty());
        }
        assert(out@ + Seq::<char>::empty() =~= out@);
        assert(fit_prefix(s@, budget as nat) =~= out@);
    }
    let ghost kept = out@;
    push_char(&mut out, '\u{2026}');
    proof {
        assert(out@.drop_last() =~= fit_prefix(s@, budget as nat));
        lemma_cw_sum_push(kept, '\u{2026}');
    }
    out
}

proof fn lemma_cw_sum_push(s: Seq<char>, c: char)
    ensures
        cw_sum(s.push(c)) == cw_sum(s) + cw(c),
    decreases s.len(),
{
    if s.len() > 0 {
        lemma_cw_sum_push(s.drop_first(), c);
        assert(s.push(c).drop_first() =~= s.drop_first().push(c));
        assert(s.push(c)[0] == s[0]);
    } else {
        assert(s.push(c).drop_first() =~= Seq::<char>::empty());
        assert(s.push(c)[0] == c);
        assert(cw_sum(Seq::<char>::empty()) == 0);
    }
}

/// `n` spaces.
pub open spec fn spaces(n: nat) -> Seq<char> {
    Seq::new(n, |i: int| ' ')
}

fn push_spaces(s: &mut String, n: usize)
    ensures
        final(s)@ == old(s)@ + spaces(n as nat),
{
    let mut i: usize = 0;
    while i < n
        invariant
            i <= n,
            s@ == old(s)@ + spaces(i as nat),
        decreases n - i,
    {
        push_char(s, ' ');
        i = i + 1;
        assert(s@ =~= old(s)@ + spaces(i as nat));
    }
}

/// How many spaces pad a cut string to `w` columns.
pub open spec fn pad_fill(s: Seq<char>, w: nat) -> nat {
    let t = spec_truncate(s, w);
    if str_width(t) >= w { 0 } else { (w - str_width(t)) as nat }
}

/// Cuts to `w` columns and pads with spaces on the right; printable ASCII
/// that fits comes back exactly `w` columns wide.
pub fn pad(s: &str, w: usize) -> (r: String)
    ensures
        r@ == spec_truncate(s@, w as nat) + spaces(pad_fill(s@, w as nat)),
        printable_ascii(s@) && s@.len() <= w ==> r@ == s@ + spaces((w - s@.len()) as nat) && r@.len() == w,
{
    let _full = width(s);
    proof {
        lemma_ascii_fits(s@, w as nat);
    }
    let t = truncate(s, w);
    let cur = width(t.as_str());
    let fill = if cur >= w { 0 } else { w - cur };
    let mut out = t;
    push_spaces(&mut out, fill);
    out
}

/// Cuts to `w` columns and pads with spaces on the left; printable ASCII
/// that fits comes back exactly `w` columns wide.
pub fn pad_left(s: &str, w: usize) -> (r: String)
    ensures
        r@ == spaces(pad_fill(s@, w as nat)) + spec_truncate(s@, w as nat),
        printable_ascii(s@) && s@.len() <= w ==> r@ == spaces((w - s@.len()) as nat) + s@ && r@.len() == w,
{
    let _full = width(s);
    proof {
        lemma_ascii_fits(s@, w as nat);
    }
    let t = truncate(s, w);
    let cur = width(t.as_str());
    let fill = if cur >= w { 0 } else { w - cur };
    let mut out = String::new();
    push_spaces(&mut out, fill);
    out.append(t.as_str());
    assert(out@ =~= spaces(fill as nat) + t@);
    out
}

/// A plain-text bar for snapshots: `filled` of `width` cells as `#`, the
/// rest `.`, in square brackets; ASCII only, for logs and issues.
pub fn ascii_bar(filled: usize, width: usize) -> (r: String)
    requires
        filled <= width,
        width < usize::MAX - 1,
    ensures
        r@ == seq!['['] + Seq::new(width as nat, |i: int| if i < filled { '#' } else { '.' }) + seq![']'],
{
    let mut s = String::new();
    push_char(&mut s, '[');
    let mut i: usize = 0;
    while i < width
        invariant
            i <= width,
            s@ == seq!['['] + Seq::new(i as nat, |k: int| if k < filled { '#' } else { '.' }),
        decreases width - i,
    {
        push_char(&mut s, if i < filled { '#' } else { '.' });
        i = i + 1;
        assert(s@ =~= seq!['['] + Seq::new(i as nat, |k: int| if k < filled { '#' } else { '.' }));
    }
    push_char(&mut s, ']');
    s
}

/// A decimal digit.
pub open spec fn digit(d: nat) -> char {
    if d == 0 { '0' } else if d == 1 { '1' } else if d == 2 { '2' } else if d == 3 { '3' }
    else if d == 4 { '4' } else if d == 5 { '5' } else if d == 6 { '6' } else if d == 7 { '7' }
    else if d == 8 { '8' } else { '9' }
}

/// `n` in decimal.
pub open spec fn dec(n: nat) -> Seq<char>
    decreases n,
{
    if n < 10 { seq![digit(n)] } else { dec(n / 10).push(digit(n % 10)) }
}

fn put_digit(o: &mut String, d: usize)
    requires
        d < 10,
    ensures
        final(o)@ == old(o)@.push(digit(d as nat)),
{
    let c = match d {
        0 => '0',
        1 => '1',
        2 => '2',
        3 => '3',
        4 => '4',
        5 => '5',
        6 => '6',
        7 => '7',
        8 => '8',
        _ => '9',
    };
    push_char(o, c);
}

/// `n` written in decimal.
pub fn decimal(n: usize) -> (r: String)
    ensures
        r@ == dec(n as nat),
    decreases n,
{
    let mut o = if n >= 10 { decimal(n / 10) } else { String::new() };
    put_digit(&mut o, n % 10);
    assert(o@ =~= dec(n as nat));
    o
}

/// A `u64` written in decimal.
pub fn decimal_u64(n: u64) -> (r: String)
    ensures
        r@ == dec(n as nat),
    decreases n,
{
    let mut o = if n >= 10 { decimal_u64(n / 10) } else { String::new() };
    let d = decimal((n % 10) as usize);
    proof {
        assert(dec((n % 10) as nat) == seq![digit((n % 10) as nat)]);
    }
    o.append(d.as_str());
    assert(o@ =~= dec(n as nat));
    o
}

/// Printable ASCII that is no longer than `w` fits in `w` columns as it is.
proof fn lemma_ascii_fits(s: Seq<char>, w: nat)
    ensures
        printable_ascii(s) && s.len() <= w && str_width(s) == s.len() ==> spec_truncate(s, w) == s && pad_fill(s, w) == w - s.len(),
{
}

/// How far a reading can be trusted.
pub enum Quality {
    /// Measured as it is.
    Measured,
    /// An estimate.
    Estimated,
    /// Could not be had; the short reason to show instead (such as
    /// `unsupported` or `no permission`).
    Unavailable(String),
}

/// What a reading shows: the reason when it could not be had, `n/a` when
/// there is no value, else the value (its unit already formatted), marked
/// `~` when it is an estimate. A missing value never shows as zero.
pub open spec fn spec_reading(q: Quality, body: Option<Seq<char>>) -> Seq<char> {
    match q {
        Quality::Unavailable(u) => u@,
        _ => match body {
            None => "n/a"@,
            Some(b) => match q {
                Quality::Estimated => "~"@ + b,
                _ => b,
            },
        },
    }
}

/// A reading as the interface shows it.
pub fn reading(q: &Quality, body: Option<&str>) -> (r: String)
    ensures
        r@ == spec_reading(*q, match body { Some(b) => Some(b@), None => None }),
{
    match q {
        Quality::Unavailable(u) => String::from_str(u.as_str()),
        _ => match body {
            None => String::from_str("n/a"),
            Some(b) => match q {
                Quality::Estimated => {
                    let mut s = String::from_str("~");
                    s.append(b);
                    s
                },
                _ => String::from_str(b),
            },
        },
    }
}

/// A reading right-aligned in `w` columns, for table cells.
pub fn reading_padded(q: &Quality, body: Option<&str>, w: usize) -> (r: String)
    ensures
        ({
            let t = spec_reading(*q, match body { Some(b) => Some(b@), None => None });
            r@ == spaces(pad_fill(t, w as nat)) + spec_truncate(t, w as nat)
        }),
{
    let t = reading(q, body);
    pad_left(t.as_str(), w)
}

} // verus!
