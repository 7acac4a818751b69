//! Decorative motifs: the dashed rule, telemetry ticks, circuit traces.
//!
//! They belong on the splash, help, the locked admin page, decoration slots
//! and empty states, **never** in a data area.

use vstd::prelude::*;
use crate::chars::{push_char, string_of};

verus! {

/// The tail of a rule.
pub open spec fn rule_tail() -> Seq<char> {
    seq!['\u{2574}', '\u{2574}', '\u{2574}']
}

/// `n` copies of `c`.
pub open spec fn rep(c: char, n: nat) -> Seq<char> {
    Seq::new(n, |i: int| c)
}

fn push_rep(s: &mut Vec<char>, c: char, n: usize)
    ensures
        final(s)@ == old(s)@ + rep(c, n as nat),
{
    let mut i: usize = 0;
    while i < n
        invariant
            i <= n,
            s@ == old(s)@ + rep(c, i as nat),
        decreases n - i,
    {
        s.push(c);
        i = i + 1;
        assert(s@ =~= old(s)@ + rep(c, i as nat));
    }
}

/// What `rule(width)` draws.
pub open spec fn spec_rule(width: nat) -> Seq<char> {
    if width < 8 {
        rep('\u{2500}', width)
    } else {
        seq!['\u{258f}'] + rep('\u{2500}', (width - 4) as nat) + rule_tail()
    }
}

/// The dashed measuring rule: `▏` first, a long line, three short dashes at
/// the end. Narrower than 8 it is a plain line.
pub fn rule(width: usize) -> (r: String)
    ensures
        r@ == spec_rule(width as nat),
        r@.len() == width,
{
    let mut v: Vec<char> = Vec::new();
    if width < 8 {
        push_rep(&mut v, '\u{2500}', width);
        assert(v@ =~= spec_rule(width as nat));
    } else {
        v.push('\u{258f}');
        push_rep(&mut v, '\u{2500}', width - 4);
        v.push('\u{2574}');
        v.push('\u{2574}');
        v.push('\u{2574}');
        assert(v@ =~= spec_rule(width as nat));
    }
    string_of(v.as_slice())
}

/// What `rule_plain(width)` draws.
pub open spec fn spec_rule_plain(width: nat) -> Seq<char> {
    if width < 8 { rep('\u{2500}', width) } else { rep('\u{2500}', (width - 3) as nat) + rule_tail() }
}

/// The same rule without the leading `▏`, for places that already have a
/// border on their left.
pub fn rule_plain(width: usize) -> (r: String)
    ensures
        r@ == spec_rule_plain(width as nat),
        r@.len() == width,
{
    let mut v: Vec<char> = Vec::new();
    if width < 8 {
        push_rep(&mut v, '\u{2500}', width);
        assert(v@ =~= spec_rule_plain(width as nat));
    } else {
        push_rep(&mut v, '\u{2500}', width - 3);
        v.push('\u{2574}');
        v.push('\u{2574}');
        v.push('\u{2574}');
        assert(v@ =~= spec_rule_plain(width as nat));
    }
    string_of(v.as_slice())
}

/// Column `i` of the dashed line: three dashes, one gap.
pub open spec fn dash_at(i: int) -> char {
    if i % 4 == 3 { ' ' } else { '\u{254c}' }
}

/// A light dashed line.
pub fn dashed(width: usize) -> (r: String)
    ensures
        r@ == Seq::new(width as nat, |i: int| dash_at(i)),
{
    let mut v: Vec<char> = Vec::new();
    let mut i: usize = 0;
    while i < width
        invariant
            i <= width,
            v@ == Seq::new(i as nat, |k: int| dash_at(k)),
        decreases width - i,
    {
        v.push(if i % 4 == 3 { ' ' } else { '\u{254c}' });
        i = i + 1;
        assert(v@ =~= Seq::new(i as nat, |k: int| dash_at(k)));
    }
    string_of(v.as_slice())
}

/// Column `i` of the tick row: a long tick every 10, a short one at 5.
pub open spec fn tick_at(i: int) -> char {
    if i % 10 == 0 {
        '\u{253c}'
    } else if i % 10 == 5 {
        '\u{2534}'
    } else {
        '\u{2500}'
    }
}

/// A telemetry tick row, like the scale under an oscilloscope.
pub fn ticks(width: usize) -> (r: String)
    ensures
        r@ == Seq::new(width as nat, |i: int| tick_at(i)),
{
    let mut v: Vec<char> = Vec::new();
    let mut i: usize = 0;
    while i < width
        invariant
            i <= width,
            v@ == Seq::new(i as nat, |k: int| tick_at(k)),
        decreases width - i,
    {
        let c = if i % 10 == 0 {
            '\u{253c}'
        } else if i % 10 == 5 {
            '\u{2534}'
        } else {
            '\u{2500}'
        };
        v.push(c);
        i = i + 1;
        assert(v@ =~= Seq::new(i as nat, |k: int| tick_at(k)));
    }
    string_of(v.as_slice())
}

/// The pieces a circuit trace is made of.
pub const PIECES: [char; 6] = ['\u{2500}', '\u{2500}', '\u{252c}', '\u{2500}', '\u{2534}', '\u{00b7}'];

/// The generator's state after `k` steps from `seed`.
pub open spec fn lcg_state(seed: u64, k: nat) -> u64
    decreases k,
{
    if k == 0 {
        seed.wrapping_mul(0x9E37_79B9_7F4A_7C15u64).wrapping_add(0x5DEE_CE66_D000_0001u64)
    } else {
        lcg_state(seed, (k - 1) as nat).wrapping_mul(6364136223846793005u64).wrapping_add(1442695040888963407u64)
    }
}

/// Column `i` of the circuit trace for `seed`.
pub open spec fn circuit_at(seed: u64, i: int) -> char {
    PIECES[((lcg_state(seed, (i + 1) as nat) >> 33u64) % 6) as int]
}

/// A faint circuit-like trace. The same seed always draws the same trace,
/// so the screen never jumps between redraws.
pub fn circuit(width: usize, seed: u64) -> (r: String)
    ensures
        r@ == Seq::new(width as nat, |i: int| circuit_at(seed, i)),
{
    let mut r: u64 = seed.wrapping_mul(0x9E37_79B9_7F4A_7C15).wrapping_add(0x5DEE_CE66_D000_0001);
    let mut v: Vec<char> = Vec::new();
    let mut i: usize = 0;
    while i < width
        invariant
            i <= width,
            r == lcg_state(seed, i as nat),
            v@ == Seq::new(i as nat, |k: int| circuit_at(seed, k)),
        decreases width - i,
    {
        r = r.wrapping_mul(6364136223846793005).wrapping_add(1442695040888963407);
        let idx = ((r >> 33) % 6) as usize;
        v.push(PIECES[idx]);
        i = i + 1;
        assert(v@ =~= Seq::new(i as nat, |k: int| circuit_at(seed, k)));
    }
    string_of(v.as_slice())
}

/// Light corner marks for decoration slots.
pub const CORNER_TL: &'static str = "\u{256d}\u{2574}";
pub const CORNER_TR: &'static str = "\u{2576}\u{256e}";
pub const CORNER_BL: &'static str = "\u{2570}\u{2574}";
pub const CORNER_BR: &'static str = "\u{2576}\u{256f}";

/// The short dashes of the top-right signature.
pub const SIGNATURE: &'static str = "\u{2574}\u{2574}\u{2574}\u{2574}";

/// The title prefix.
pub const PREFIX: &'static str = "//";

/// The section mark.
pub const SECTION: &'static str = "\u{258f}";

/// Every character these motifs use.
pub const MOTIF_CHARS: [char; 12] = [
    '\u{258f}', '\u{2574}', '\u{254c}', '\u{253c}', '\u{2534}', '\u{252c}', '\u{256d}', '\u{256e}',
    '\u{2570}', '\u{256f}', '\u{2576}', '\u{00b7}',
];

} // verus!
