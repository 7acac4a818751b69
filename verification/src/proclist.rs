//! The process page's plan: its title and subtitle, which columns fit, where
//! each cell goes, and the scroll indicator. The values arrive formatted.

use vstd::prelude::*;
use vstd::string::StringExecFns;
use crate::chars::{owned, push_char};
use crate::ranking::{by_usage, usage_order};
use crate::snapshot::joined;
use crate::format::{dec, decimal, decimal_u64, pad, pad_fill, pad_left, spaces, spec_truncate, truncate};

verus! {

/// The table's columns: title, width and whether right-aligned. The
/// command takes what is left.
pub const COLUMN_TITLES: [&'static str; 10] = ["PID", "PPID", "USER", "S", "CPU%", "MEM%", "RSS", "VIRT", "THR", "TIME"];
pub const COLUMN_WIDTHS: [u16; 10] = [7, 7, 12, 1, 6, 6, 10, 10, 5, 9];
pub const COLUMN_RIGHT: [bool; 10] = [true, true, false, false, true, true, true, true, true, true];

/// Where column `k` starts: the widths before it, one column apart.
pub open spec fn column_x(k: int) -> int
    decreases k,
{
    if k <= 0 { 0 } else { column_x(k - 1) + COLUMN_WIDTHS[k - 1] + 1 }
}

/// Whether column `k` fits in `width` columns.
pub open spec fn column_fits(k: int, width: int) -> bool {
    column_x(k) + COLUMN_WIDTHS[k] <= width
}

/// How many columns are drawn: they are laid out from the left and stop at
/// the first that does not fit.
pub open spec fn shown_columns(width: int) -> int
    decreases 10int,
{
    shown_from(0, width)
}

pub open spec fn shown_from(k: int, width: int) -> int
    decreases 10 - k,
{
    if k < 0 || k >= 10 || !column_fits(k, width) { if k < 0 { 0 } else { k } } else { shown_from(k + 1, width) }
}

/// The page's title: the sort, and the filter when there is one.
pub open spec fn spec_title(sort: Seq<char>, filter: Seq<char>) -> Seq<char> {
    if filter.len() == 0 {
        "Processes  (sort: "@ + sort + ")"@
    } else {
        "Processes  (sort: "@ + sort + "  filter: "@ + filter + ")"@
    }
}

/// The page's title.
pub fn title(sort: &str, filter: &str) -> (r: String)
    ensures
        r@ == spec_title(sort@, filter@),
{
    let mut t = owned("Processes  (sort: ");
    t.append(sort);
    if filter.unicode_len() > 0 {
        t.append("  filter: ");
        t.append(filter);
    }
    t.append(")");
    t
}

/// How many columns fit in `width`, and where the command column starts.
pub fn fitting_columns(width: u16) -> (r: (usize, u32))
    ensures
        r.0 == shown_from(0, width as int),
        r.1 == column_x(r.0 as int),
        r.0 <= 10,
{
    let mut k: usize = 0;
    let mut x: u32 = 0;
    while k < 10 && x + COLUMN_WIDTHS[k] as u32 <= width as u32
        invariant
            k <= 10,
            x == column_x(k as int),
            x <= k * 14,
            shown_from(0, width as int) == shown_from(k as int, width as int),
        decreases 10 - k,
    {
        x = x + COLUMN_WIDTHS[k] as u32 + 1;
        k = k + 1;
    }
    (k, x)
}

/// One cell laid out: where it starts, and its text.
pub struct Cell {
    pub x: u32,
    pub text: String,
}

/// What cell `k` of a row shows: its text padded (or cut) to the column,
/// on the right for numbers.
pub open spec fn cell_text(t: Seq<char>, k: int) -> Seq<char> {
    let w = COLUMN_WIDTHS[k] as nat;
    if COLUMN_RIGHT[k] { spaces(pad_fill(t, w)) + spec_truncate(t, w) } else { spec_truncate(t, w) + spaces(pad_fill(t, w)) }
}

/// A row (the column titles, or a process's values) laid out in `width`:
/// the columns that fit, then the command cut to what is left, if any.
pub fn row_cells(texts: &Vec<String>, command: &str, width: u16) -> (r: Vec<Cell>)
    requires
        texts@.len() == 10,
    ensures
        ({
            let n = shown_from(0, width as int);
            let cmd_x = column_x(n);
            &&& r@.len() == if cmd_x < width { n + 1 } else { n }
            &&& forall|k: int| 0 <= k < n ==> (#[trigger] r@[k]).x == column_x(k)
                && r@[k].text@ == cell_text(texts@[k]@, k)
            &&& cmd_x < width ==> r@[n].x == cmd_x && r@[n].text@ == spec_truncate(command@, (width - cmd_x) as nat)
        }),
{
    let (n, cmd_x) = fitting_columns(width);
    let mut out: Vec<Cell> = Vec::new();
    let mut k: usize = 0;
    let mut x: u32 = 0;
    while k < n
        invariant
            n <= 10,
            texts@.len() == 10,
            k <= n,
            x == column_x(k as int),
            x <= k * 14,
            out@.len() == k,
            forall|j: int| 0 <= j < k ==> (#[trigger] out@[j]).x == column_x(j)
                && out@[j].text@ == cell_text(texts@[j]@, j),
        decreases n - k,
    {
        let w = COLUMN_WIDTHS[k] as usize;
        let t = if COLUMN_RIGHT[k] { pad_left(texts[k].as_str(), w) } else { pad(texts[k].as_str(), w) };
        out.push(Cell { x, text: t });
        x = x + COLUMN_WIDTHS[k] as u32 + 1;
        k = k + 1;
    }
    if cmd_x < width as u32 {
        let rest = (width as u32 - cmd_x) as usize;
        out.push(Cell { x: cmd_x, text: truncate(command, rest) });
    }
    out
}

/// The scroll indicator: `first–last / total` when the list is longer
/// than what shows.
pub open spec fn spec_scroll_label(scroll: nat, visible: nat, total: nat) -> Option<Seq<char>> {
    if total > visible {
        let last = if scroll + visible < total { scroll + visible } else { total };
        Some(dec(scroll + 1) + "–"@ + dec(last) + " / "@ + dec(total))
    } else {
        None
    }
}

pub fn scroll_label(scroll: usize, visible: usize, total: usize) -> (r: Option<String>)
    requires
        scroll < usize::MAX,
    ensures
        match r {
            Some(s) => spec_scroll_label(scroll as nat, visible as nat, total as nat) == Some(s@),
            None => spec_scroll_label(scroll as nat, visible as nat, total as nat) is None,
        },
{
    if total > visible {
        let last = if scroll <= total && visible < total - scroll { scroll + visible } else { total };
        let mut s = decimal(scroll + 1);
        s.append("–");
        s.append(decimal(last).as_str());
        s.append(" / ");
        s.append(decimal(total).as_str());
        Some(s)
    } else {
        None
    }
}

/// A process state and how many are in it, as `R3`.
pub open spec fn state_text(st: (char, u64)) -> Seq<char> {
    seq![st.0] + dec(st.1 as nat)
}

/// The subtitle: how many are shown of how many, the threads, and the four
/// most common states (in the order `order` ranks them).
pub open spec fn spec_subtitle(shown: nat, total: nat, threads: nat, states: Seq<(char, u64)>, order: Seq<usize>) -> Seq<char> {
    let k = if order.len() > 4 { 4 } else { order.len() };
    dec(shown) + "/"@ + dec(total) + " 顯示 · "@ + dec(threads) + " 執行緒 · "@
        + joined(Seq::new(k, |i: int| state_text(states[order[i] as int])), " "@)
}

pub open spec fn counts_of(states: Seq<(char, u64)>) -> Seq<u64> {
    Seq::new(states.len(), |i: int| states[i].1)
}

/// The page's subtitle; the states are ranked by how many processes are in
/// each, most first, equal counts in the order given.
pub fn subtitle(shown: usize, total: usize, threads: usize, states: &Vec<(char, u64)>) -> (r: String)
    ensures
        r@ == spec_subtitle(shown as nat, total as nat, threads as nat, states@, usage_order(counts_of(states@), states@.len())),
{
    let mut counts: Vec<u64> = Vec::new();
    let mut i: usize = 0;
    while i < states.len()
        invariant
            i <= states@.len(),
            counts@ == counts_of(states@).take(i as int),
        decreases states@.len() - i,
    {
        counts.push(states[i].1);
        i = i + 1;
        assert(counts@ =~= counts_of(states@).take(i as int));
    }
    assert(counts@ =~= counts_of(states@));
    let order = by_usage(counts.as_slice());
    let mut s = decimal(shown);
    s.append("/");
    s.append(decimal(total).as_str());
    s.append(" 顯示 · ");
    s.append(decimal(threads).as_str());
    s.append(" 執行緒 · ");
    let ghost head = s@;
    let k = if order.len() > 4 { 4 } else { order.len() };
    let ghost items = Seq::new(k as nat, |m: int| state_text(states@[order@[m] as int]));
    let mut m: usize = 0;
    while m < k
        invariant
            k <= order@.len(),
            order@.len() == states@.len(),
            forall|q: int| 0 <= q < order@.len() ==> #[trigger] order@[q] < states@.len(),
            items == Seq::new(k as nat, |q: int| state_text(states@[order@[q] as int])),
            m <= k,
            s@ == head + joined(items.take(m as int), " "@),
        decreases k - m,
    {
        if m > 0 {
            s.append(" ");
        }
        let st = states[order[m]];
        let ghost mid = s@;
        push_char(&mut s, st.0);
        s.append(decimal_u64(st.1).as_str());
        assert(s@ =~= mid + (seq![st.0] + dec(st.1 as nat)));
        proof {
            let prev = items.take(m as int);
            let next = items.take(m as int + 1);
            assert(next.drop_last() =~= prev);
            assert(next.last() == items[m as int]);
            assert(items[m as int] =~= seq![st.0] + dec(st.1 as nat));
            if m > 0 {
                assert(joined(next, " "@) == joined(prev, " "@) + " "@ + next.last());
                assert(s@ =~= head + joined(next, " "@));
            } else {
                assert(prev.len() == 0);
                assert(next.len() == 1);
                assert(joined(next, " "@) == next[0]);
                assert(s@ =~= head + joined(next, " "@));
            }
        }
        m = m + 1;
    }
    assert(items.take(k as int) =~= items);
    assert(s@ == spec_subtitle(shown as nat, total as nat, threads as nat, states@, order@));
    s
}

} // verus!
