//! The text of a gauge bar: whole blocks, one block in eighths for the
//! fraction, and a dotted track for the rest, so that a 20-column bar has
//! 160 steps.

use vstd::prelude::*;
use crate::chars::push_char;

verus! {

/// Blocks in eighths: index 0 is a blank, 8 a whole block.
pub const BLOCKS: [char; 9] = [' ', '\u{258f}', '\u{258e}', '\u{258d}', '\u{258c}', '\u{258b}', '\u{258a}', '\u{2589}', '\u{2588}'];

/// The track under the part that is not filled: dots rather than blanks, so
/// that the bar's extent shows.
pub const TRACK: char = '\u{00b7}';

/// The filled part of a bar `width` cells wide with `full` whole cells and a
/// cell of `eighths`: the whole blocks, then the partial block when there is
/// one and room for it; and how many cells of track follow it.
pub fn bar_cells(full: usize, eighths: usize, width: usize) -> (r: (String, usize))
    requires
        full <= width,
        eighths <= 8,
    ensures
        ({
            let part = full < width && eighths > 0;
            let used = if part { full + 1 } else { full as int };
            &&& r.0@ == Seq::new(full as nat, |i: int| BLOCKS[8]) + if part { seq![BLOCKS[eighths as int]] } else { Seq::<char>::empty() }
            &&& r.1 == width - used
        }),
{
    let mut s = String::new();
    let mut i: usize = 0;
    while i < full
        invariant
            i <= full,
            s@ == Seq::new(i as nat, |k: int| BLOCKS[8]),
        decreases full - i,
    {
        push_char(&mut s, BLOCKS[8]);
        i = i + 1;
        assert(s@ =~= Seq::new(i as nat, |k: int| BLOCKS[8]));
    }
    let mut used = full;
    if used < width && eighths > 0 {
        push_char(&mut s, BLOCKS[eighths]);
        used = used + 1;
    } else {
        assert(s@ =~= Seq::new(full as nat, |k: int| BLOCKS[8]) + Seq::<char>::empty());
    }
    (s, width - used)
}

} // verus!
