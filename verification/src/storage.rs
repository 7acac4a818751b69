//! The administrator's storage page: who uses the disk. The list of users
//! with their home, usage, files and share; a waffle of the biggest users
//! below it when there is room; a user's detail under both when one is
//! opened. A scan that could not finish says so on its row (`partial`): a
//! number from an incomplete scan must not pass for the whole truth.

use vstd::prelude::*;
use crate::chars::owned;
use crate::layout::{on_grid, split_top, window, clamp_spec, Rect};
use crate::visual::{level, Decoration};

verus! {

/// One user's usage, from the privileged helper.
pub struct UserUsage {
    pub user: String,
    pub home: String,
    pub bytes: u64,
    pub entries: u64,
    /// Whether the scan of the home got through everything.
    pub complete: bool,
}

/// The top `t` rows of `area` and the rest below them.
pub open spec fn top_part(area: Rect, t: int) -> (Rect, Rect) {
    (Rect { height: t as u16, ..area }, Rect { y: (area.y + t) as u16, height: (area.height - t) as u16, ..area })
}

/// Whether the page draws the users' waffle: from the Minimal decoration
/// on, for two users or more, in an area of 14 rows or more.
pub open spec fn wants_waffle(area: Rect, n_users: nat, deco: Decoration) -> bool {
    level(deco) >= 1 && n_users >= 2 && area.height >= 14
}

/// The list, the waffle (five rows under the list, when wanted and the list
/// keeps more than eight rows) and the detail (the lower half, when a user
/// is opened and the area has more than ten rows; else an empty strip).
pub open spec fn spec_storage_split(area: Rect, n_users: nat, detail: bool, deco: Decoration) -> (Rect, Option<Rect>, Rect) {
    let (list, det) = if detail && area.height > 10 {
        top_part(area, (area.height / 2) as int)
    } else {
        (area, Rect { height: 0, ..area })
    };
    if wants_waffle(area, n_users, deco) && list.height > 8 {
        let (l, w) = top_part(list, list.height - 5);
        (l, Some(w), det)
    } else {
        (list, None, det)
    }
}

/// The page's areas.
pub fn storage_split(area: Rect, n_users: usize, detail: bool, deco: Decoration) -> (r: (Rect, Option<Rect>, Rect))
    requires
        on_grid(area),
    ensures
        r == spec_storage_split(area, n_users as nat, detail, deco),
{
    let want = deco.at_least(Decoration::Minimal) && n_users >= 2 && area.height >= 14;
    let (list, det) = if detail && area.height > 10 {
        split_top(area, area.height / 2)
    } else {
        (area, Rect { x: area.x, y: area.y, width: area.width, height: 0 })
    };
    if want && list.height > 8 {
        let (l, w) = split_top(list, list.height - 5);
        (l, Some(w), det)
    } else {
        (list, None, det)
    }
}

/// The table's columns: title, width, right-aligned.
pub const COLUMNS: [(&'static str, u16, bool); 6] = [
    ("USER", 14, false),
    ("HOME", 22, false),
    ("USED", 11, true),
    ("FILES", 9, true),
    ("SHARE", 18, false),
    ("", 10, false),
];

/// One user's row.
pub struct StorageRow {
    pub y: u16,
    /// Which user it is.
    pub index: usize,
    pub selected: bool,
    pub user: String,
    pub home: String,
    /// Where the share bar starts, when there is room for it.
    pub bar_x: Option<u16>,
    /// Where `partial` goes: only for a scan that did not finish, and only
    /// when the word fits after the bar and its percentage.
    pub partial_x: Option<u16>,
}

/// What row `i` of the list, showing user `k`, holds: its row under the
/// header, whether it is the selected one, the user's name and home; the
/// bar 60 columns in when it and its 12 cells fit inside the area; the
/// `partial` mark 19 columns after the bar when the scan did not finish
/// and the mark's 8 columns still fit.
pub open spec fn row_is(r: StorageRow, u: UserUsage, k: int, i: int, selected: usize, area: Rect) -> bool {
    &&& r.y == area.y + 1 + i
    &&& r.index == k
    &&& r.selected == (k == selected)
    &&& r.user@ == u.user@
    &&& r.home@ == u.home@
    &&& r.bar_x == if 72 < area.width { Some((area.x + 60) as u16) } else { None::<u16> }
    &&& r.partial_x == if !u.complete && 87 < area.width { Some((area.x + 79) as u16) } else { None::<u16> }
}

/// The first user in view: the selection kept in the middle, the window
/// never past the end.
pub open spec fn first_in_view(selected: usize, n: nat, visible: int) -> int {
    clamp_spec(if selected >= visible / 2 { selected - visible / 2 } else { 0 }, n as int, visible)
}

/// The rows of the list in `area` (its first row is the header).
pub fn storage_rows(users: &Vec<UserUsage>, selected: usize, area: Rect) -> (r: Vec<StorageRow>)
    requires
        on_grid(area),
    ensures
        ({
            let visible = if area.height >= 1 { area.height - 1 } else { 0 };
            let start = first_in_view(selected, users@.len(), visible);
            let end = if start + visible < users@.len() { start + visible } else { users@.len() as int };
            &&& r@.len() == end - start
            &&& forall|i: int| 0 <= i < r@.len() ==> row_is(#[trigger] r@[i], users@[start + i], start + i, i, selected, area)
        }),
{
    let visible = if area.height >= 1 { area.height - 1 } else { 0 };
    let (start, end) = window(selected, users.len(), visible as usize);
    assert(start <= end);
    let mut out: Vec<StorageRow> = Vec::new();
    let mut k: usize = start;
    while k < end
        invariant
            on_grid(area),
            visible == if area.height >= 1 { area.height - 1 } else { 0 },
            start <= k <= end,
            end <= users@.len(),
            end - start <= visible,
            start == first_in_view(selected, users@.len(), visible as int),
            end == if start + visible < users@.len() { start + visible } else { users@.len() as int },
            out@.len() == k - start,
            forall|i: int| 0 <= i < out@.len() ==> row_is(#[trigger] out@[i], users@[start + i], start + i, i, selected, area),
        decreases end - k,
    {
        let u = &users[k];
        let i = (k - start) as u16;
        let bar_x = if 72 < area.width { Some(area.x + 60) } else { None };
        let partial_x = if !u.complete && 87 < area.width { Some(area.x + 79) } else { None };
        let row = StorageRow {
            y: area.y + 1 + i,
            index: k,
            selected: k == selected,
            user: owned(u.user.as_str()),
            home: owned(u.home.as_str()),
            bar_x,
            partial_x,
        };
        let ghost prev = out@;
        out.push(row);
        proof {
            assert forall|j: int| 0 <= j < out@.len() implies row_is(#[trigger] out@[j], users@[start + j], start + j, j, selected, area) by {
                if j < prev.len() {
                    assert(out@[j] == prev[j]);
                }
            }
        }
        k = k + 1;
    }
    out
}

/// The bytes all users use together.
pub open spec fn total_of(users: Seq<UserUsage>) -> int
    decreases users.len(),
{
    if users.len() == 0 { 0 } else { total_of(users.drop_last()) + users.last().bytes }
}

/// The bytes all users use together, which each row's share is of.
pub fn storage_total(users: &Vec<UserUsage>) -> (r: u128)
    ensures
        r == total_of(users@),
{
    let n = users.len();
    assert(n <= u64::MAX);
    let mut t: u128 = 0;
    let mut i: usize = 0;
    while i < users.len()
        invariant
            i <= users@.len(),
            t == total_of(users@.take(i as int)),
            t <= i * (u64::MAX as int),
            users@.len() <= u64::MAX,
        decreases users@.len() - i,
    {
        proof {
            assert(users@.take(i as int + 1).drop_last() =~= users@.take(i as int));
            assert((i + 1) * (u64::MAX as int) == i * (u64::MAX as int) + u64::MAX) by (nonlinear_arith);
            assert((i + 1) * (u64::MAX as int) <= (u64::MAX as int) * (u64::MAX as int)) by (nonlinear_arith)
                requires i + 1 <= u64::MAX;
        }
        t = t + users[i].bytes as u128;
        i = i + 1;
    }
    assert(users@.take(i as int) =~= users@);
    t
}

} // verus!
