//! The administrator page when it cannot be shown: it says it is locked and
//! how to unlock it, or why it cannot be had. It never shows empty or made-up
//! data in place of what needs root.

use vstd::prelude::*;
use crate::chars::owned;
use vstd::string::StringExecFns;
use crate::format::{dec, decimal_u64, spec_truncate, truncate};
use crate::layout::window;
use crate::visual::{level, Decoration};
use crate::visual::motif::{PREFIX, SIGNATURE};

verus! {

/// Where the privileged helper stands.
pub enum Privilege {
    /// Not unlocked yet.
    Locked,
    /// sudo refused; its message.
    Unauthorized(String),
    /// The helper is not installed; what was looked for.
    HelperMissing(String),
    /// Unlocked: the page shows its data instead.
    Available,
}

/// How a line of the locked page is drawn.
#[derive(Clone, Copy, Debug, PartialEq, Eq)]
pub enum Emphasis {
    /// The warning colour, bold.
    Warning,
    /// The critical colour, bold.
    Critical,
    /// The foreground colour.
    Plain,
    Dim,
    Faint,
}

pub open spec fn line_views(r: Seq<(String, Emphasis)>) -> Seq<(Seq<char>, Emphasis)> {
    Seq::new(r.len(), |i: int| (r[i].0@, r[i].1))
}

/// The lines of the page for each state: locked says how to unlock and
/// what unlocking shows; a refusal and a missing helper say so, what to do,
/// and the message; an unlocked page has none of these lines.
pub open spec fn spec_locked_lines(state: Privilege) -> Seq<(Seq<char>, Emphasis)> {
    match state {
        Privilege::Locked => seq![
            ("管理員擴充功能目前是鎖住的。"@, Emphasis::Warning),
            (""@, Emphasis::Dim),
            ("按 [u] 解鎖。sysview 會暫時把終端機交給 sudo，"@, Emphasis::Plain),
            ("由 sudo 自己處理密碼提示 —— sysview 不會、也無法讀到你的密碼。"@, Emphasis::Plain),
            (""@, Emphasis::Dim),
            ("解鎖後可以看到："@, Emphasis::Dim),
            ("  · 各使用者的家目錄用量與明細"@, Emphasis::Dim),
            ("  · 各使用者的記憶體用量（含 PSS）"@, Emphasis::Dim),
            ("  · 各使用者的 GPU VRAM 佔用"@, Emphasis::Dim),
            ("  · socket → 行程 → 使用者 對應"@, Emphasis::Dim),
            (""@, Emphasis::Dim),
            ("整支 sysview 永遠以你自己的身分執行，"@, Emphasis::Faint),
            ("只有一個極小的 helper（sysview-priv）會經 sudo 取得 root。"@, Emphasis::Faint),
        ],
        Privilege::Unauthorized(msg) => seq![
            ("你沒有執行管理員功能的權限。"@, Emphasis::Critical),
            (""@, Emphasis::Dim),
            ("這不是錯誤 —— 是系統的 sudo 政策正確地拒絕了這個請求。"@, Emphasis::Plain),
            ("若你認為應該有權限，請聯絡管理員檢查 sudoers 設定。"@, Emphasis::Dim),
            (""@, Emphasis::Dim),
            (msg@, Emphasis::Faint),
        ],
        Privilege::HelperMissing(msg) => seq![
            ("找不到 sysview-priv helper。"@, Emphasis::Warning),
            (""@, Emphasis::Dim),
            ("一般使用的所有功能都不受影響，只有管理員擴充需要它。"@, Emphasis::Plain),
            ("執行 ./install.sh 或 sudo make install 即可安裝。"@, Emphasis::Dim),
            (""@, Emphasis::Dim),
            (msg@, Emphasis::Faint),
        ],
        Privilege::Available => Seq::empty(),
    }
}

fn say(out: &mut Vec<(String, Emphasis)>, text: &str, e: Emphasis)
    ensures
        line_views(final(out)@) == line_views(old(out)@).push((text@, e)),
{
    out.push((owned(text), e));
    assert(line_views(out@) =~= line_views(old(out)@).push((text@, e)));
}

/// The lines of the administrator page when it is not unlocked.
pub fn locked_lines(state: &Privilege) -> (r: Vec<(String, Emphasis)>)
    ensures
        line_views(r@) == spec_locked_lines(*state),
{
    let mut out: Vec<(String, Emphasis)> = Vec::new();
    match state {
        Privilege::Locked => {
            say(&mut out, "管理員擴充功能目前是鎖住的。", Emphasis::Warning);
            say(&mut out, "", Emphasis::Dim);
            say(&mut out, "按 [u] 解鎖。sysview 會暫時把終端機交給 sudo，", Emphasis::Plain);
            say(&mut out, "由 sudo 自己處理密碼提示 —— sysview 不會、也無法讀到你的密碼。", Emphasis::Plain);
            say(&mut out, "", Emphasis::Dim);
            say(&mut out, "解鎖後可以看到：", Emphasis::Dim);
            say(&mut out, "  · 各使用者的家目錄用量與明細", Emphasis::Dim);
            say(&mut out, "  · 各使用者的記憶體用量（含 PSS）", Emphasis::Dim);
            say(&mut out, "  · 各使用者的 GPU VRAM 佔用", Emphasis::Dim);
            say(&mut out, "  · socket → 行程 → 使用者 對應", Emphasis::Dim);
            say(&mut out, "", Emphasis::Dim);
            say(&mut out, "整支 sysview 永遠以你自己的身分執行，", Emphasis::Faint);
            say(&mut out, "只有一個極小的 helper（sysview-priv）會經 sudo 取得 root。", Emphasis::Faint);
        },
        Privilege::Unauthorized(msg) => {
            say(&mut out, "你沒有執行管理員功能的權限。", Emphasis::Critical);
            say(&mut out, "", Emphasis::Dim);
            say(&mut out, "這不是錯誤 —— 是系統的 sudo 政策正確地拒絕了這個請求。", Emphasis::Plain);
            say(&mut out, "若你認為應該有權限，請聯絡管理員檢查 sudoers 設定。", Emphasis::Dim);
            say(&mut out, "", Emphasis::Dim);
            say(&mut out, msg.as_str(), Emphasis::Faint);
        },
        Privilege::HelperMissing(msg) => {
            say(&mut out, "找不到 sysview-priv helper。", Emphasis::Warning);
            say(&mut out, "", Emphasis::Dim);
            say(&mut out, "一般使用的所有功能都不受影響，只有管理員擴充需要它。", Emphasis::Plain);
            say(&mut out, "執行 ./install.sh 或 sudo make install 即可安裝。", Emphasis::Dim);
            say(&mut out, "", Emphasis::Dim);
            say(&mut out, msg.as_str(), Emphasis::Faint);
        },
        Privilege::Available => {},
    }
    assert(line_views(out@) =~= spec_locked_lines(*state));
    out
}

/// One line placed on the page: its row, its text cut to the page's width,
/// and its emphasis.
pub struct Placed {
    pub y: u16,
    pub text: String,
    pub emphasis: Emphasis,
}

/// `p` is the line `l` at row `row`, cut to `w` columns.
pub open spec fn placed_as(p: Placed, row: int, l: (Seq<char>, Emphasis), w: nat) -> bool {
    &&& p.y == row
    &&& p.text@ == spec_truncate(l.0, w)
    &&& p.emphasis == l.1
}

/// The locked page's lines placed from the top of the area `(x, y, w, h)`,
/// one per row, each cut to `w` columns; lines that do not fit below are
/// left out.
pub fn locked_rows(state: &Privilege, y: u16, w: u16, h: u16) -> (r: Vec<Placed>)
    requires
        y as int + h as int <= u16::MAX,
    ensures
        r@.len() == if spec_locked_lines(*state).len() < h { spec_locked_lines(*state).len() } else { h as nat },
        forall|i: int| 0 <= i < r@.len() ==> placed_as(#[trigger] r@[i], y as int + i, spec_locked_lines(*state)[i], w as nat),
{
    let lines = locked_lines(state);
    let mut out: Vec<Placed> = Vec::new();
    let mut i: usize = 0;
    while i < lines.len() && i < h as usize
        invariant
            y as int + h as int <= u16::MAX,
            line_views(lines@) == spec_locked_lines(*state),
            i <= lines@.len(),
            i <= h,
            out@.len() == i,
            forall|k: int| 0 <= k < i ==> placed_as(#[trigger] out@[k], y as int + k, spec_locked_lines(*state)[k], w as nat),
        decreases lines@.len() - i,
    {
        assert(line_views(lines@)[i as int] == (lines@[i as int].0@, lines@[i as int].1));
        let t = truncate(lines[i].0.as_str(), w as usize);
        let row = y + i as u16;
        let ghost prev = out@;
        out.push(Placed { y: row, text: t, emphasis: lines[i].1 });
        assert(spec_locked_lines(*state)[i as int] == (lines@[i as int].0@, lines@[i as int].1));
        assert(out@[i as int].y == y + i);
        assert(out@[i as int].text@ == spec_truncate(lines@[i as int].0@, w as nat));
        assert(out@[i as int].emphasis == lines@[i as int].1);
        assert forall|k: int| 0 <= k < i + 1 implies placed_as(#[trigger] out@[k], y as int + k, spec_locked_lines(*state)[k], w as nat) by {
            if k < i {
                assert(out@[k] == prev[k]);
            }
        }
        i = i + 1;
    }
    assert(lines@.len() == spec_locked_lines(*state).len());
    out
}

/// The locked page's identity line at the bottom of the area `(y, w, h)`:
/// the motif's prefix, `PRIVILEGED EXTENSIONS` and its signature, cut to the
/// width; only from the Minimal decoration on and only when it stays clear
/// of the page's lines.
pub open spec fn spec_locked_signature(state: Privilege, y: int, w: nat, h: int, deco: Decoration) -> Option<(int, Seq<char>)> {
    if h > 0 && level(deco) >= 1 && h - 1 > spec_locked_lines(state).len() {
        Some((y + h - 1, spec_truncate(PREFIX@ + " PRIVILEGED EXTENSIONS  "@ + SIGNATURE@, w)))
    } else {
        None
    }
}

pub fn locked_signature(state: &Privilege, y: u16, w: u16, h: u16, deco: Decoration) -> (r: Option<(u16, String)>)
    requires
        y as int + h as int <= u16::MAX,
    ensures
        match r {
            Some((row, t)) => spec_locked_signature(*state, y as int, w as nat, h as int, deco) == Some((row as int, t@)),
            None => spec_locked_signature(*state, y as int, w as nat, h as int, deco) is None,
        },
{
    let n = locked_lines(state).len();
    if h > 0 && deco.at_least(Decoration::Minimal) && ((h - 1) as usize) > n {
        let mut t = owned(PREFIX);
        t.append(" PRIVILEGED EXTENSIONS  ");
        t.append(SIGNATURE);
        Some((y + h - 1, truncate(t.as_str(), w as usize)))
    } else {
        None
    }
}

/// One user's GPU memory, from the privileged helper.
pub struct GpuUser {
    pub user: Option<String>,
    /// The memory, formatted.
    pub vram: String,
    pub processes: u64,
}

/// One process on a GPU, from the privileged helper.
pub struct GpuProcessUse {
    pub pid: u64,
    pub user: Option<String>,
    /// The memory it uses, formatted.
    pub used: String,
    pub name: Option<String>,
}

/// One GPU and the processes on it.
pub struct GpuUse {
    pub index: u64,
    pub processes: Vec<GpuProcessUse>,
}

/// What the helper reports of GPU use.
pub struct GpuReport {
    pub available: bool,
    pub reason: Option<String>,
    pub users: Vec<GpuUser>,
    pub devices: Vec<GpuUse>,
}

pub open spec fn or_unknown(s: Option<String>) -> Seq<char> {
    match s { Some(x) => x@, None => "?"@ }
}

pub open spec fn strs(v: Seq<String>) -> Seq<Seq<char>> {
    Seq::new(v.len(), |j: int| v[j]@)
}

pub open spec fn texts(r: Seq<Vec<String>>) -> Seq<Seq<Seq<char>>> {
    Seq::new(r.len(), |i: int| strs(r[i]@))
}

/// Why the page shows no table: the helper's reason, or that NVML is not
/// available; `None` when the report is available.
pub open spec fn spec_unavailable(r: GpuReport) -> Option<Seq<char>> {
    if r.available { None } else { Some(match r.reason { Some(x) => x@, None => "NVML 不可用"@ }) }
}

pub fn gpu_unavailable(r: &GpuReport) -> (m: Option<String>)
    ensures
        match m { Some(x) => spec_unavailable(*r) == Some(x@), None => spec_unavailable(*r) is None },
{
    if r.available {
        None
    } else {
        match &r.reason {
            Some(x) => Some(owned(x.as_str())),
            None => Some(owned("NVML 不可用")),
        }
    }
}

/// A user row: name, memory, number of processes.
pub open spec fn user_row(u: GpuUser) -> Seq<Seq<char>> {
    seq![or_unknown(u.user), u.vram@, dec(u.processes as nat)]
}

/// The user rows that show when `selected` is picked and `visible` rows fit.
pub open spec fn spec_user_rows(users: Seq<GpuUser>, selected: usize, visible: usize) -> Seq<Seq<Seq<char>>> {
    let start = crate::layout::clamp_spec(if selected >= visible / 2 { selected - visible / 2 } else { 0 }, users.len() as int, visible as int);
    let end = if start + visible < users.len() { start + visible } else { users.len() as int };
    Seq::new((end - start) as nat, |i: int| user_row(users[start + i]))
}

fn user_row_texts(u: &GpuUser) -> (r: Vec<String>)
    ensures
        strs(r@) == user_row(*u),
{
    let mut r: Vec<String> = Vec::new();
    match &u.user {
        Some(x) => r.push(owned(x.as_str())),
        None => r.push(owned("?")),
    }
    r.push(owned(u.vram.as_str()));
    r.push(decimal_u64(u.processes));
    assert(strs(r@) =~= user_row(*u));
    r
}

/// The users' table: the rows in view, the selection kept in the middle.
pub fn gpu_user_rows(users: &Vec<GpuUser>, selected: usize, visible: usize) -> (r: Vec<Vec<String>>)
    ensures
        texts(r@) == spec_user_rows(users@, selected, visible),
{
    let (start, end) = window(selected, users.len(), visible);
    assert(start <= end);
    let mut out: Vec<Vec<String>> = Vec::new();
    let mut i: usize = start;
    while i < end
        invariant
            start <= i <= end,
            end <= users@.len(),
            start == crate::layout::clamp_spec(if selected >= visible / 2 { selected - visible / 2 } else { 0 }, users@.len() as int, visible as int),
            end == if start + visible < users@.len() { start + visible } else { users@.len() as int },
            texts(out@) == Seq::new((i - start) as nat, |k: int| user_row(users@[start + k])),
        decreases end - i,
    {
        let row = user_row_texts(&users[i]);
        let ghost prev = out@;
        let ghost rv = strs(row@);
        out.push(row);
        proof {
            assert(texts(out@) =~= texts(prev).push(rv));
            assert(Seq::new((i + 1 - start) as nat, |k: int| user_row(users@[start + k]))
                =~= Seq::new((i - start) as nat, |k: int| user_row(users@[start + k])).push(user_row(users@[i as int])));
        }
        i = i + 1;
    }
    assert(texts(out@) =~= spec_user_rows(users@, selected, visible));
    out
}

/// A process row: the GPU's index, pid, user, memory and name.
pub open spec fn process_row(index: u64, p: GpuProcessUse) -> Seq<Seq<char>> {
    seq![dec(index as nat), dec(p.pid as nat), or_unknown(p.user), p.used@, or_unknown(p.name)]
}

/// Every device's processes, device by device.
pub open spec fn all_process_rows(devs: Seq<GpuUse>) -> Seq<Seq<Seq<char>>>
    decreases devs.len(),
{
    if devs.len() == 0 {
        Seq::empty()
    } else {
        all_process_rows(devs.drop_last())
            + Seq::new(devs.last().processes@.len(), |i: int| process_row(devs.last().index, devs.last().processes@[i]))
    }
}

/// The processes' table: device by device, as many rows as fit.
pub fn gpu_process_rows(devs: &Vec<GpuUse>, max_rows: usize) -> (r: Vec<Vec<String>>)
    ensures
        texts(r@) == if all_process_rows(devs@).len() <= max_rows { all_process_rows(devs@) } else { all_process_rows(devs@).take(max_rows as int) },
{
    let mut out: Vec<Vec<String>> = Vec::new();
    let mut d: usize = 0;
    while d < devs.len()
        invariant
            d <= devs@.len(),
            texts(out@) == all_process_rows(devs@.take(d as int)),
        decreases devs@.len() - d,
    {
        let dev = &devs[d];
        let ghost base = texts(out@);
        let mut k: usize = 0;
        while k < dev.processes.len()
            invariant
                d < devs@.len(),
                *dev == devs@[d as int],
                k <= dev.processes@.len(),
                texts(out@) == base + Seq::new(k as nat, |i: int| process_row(dev.index, dev.processes@[i])),
            decreases dev.processes@.len() - k,
        {
            let p = &dev.processes[k];
            let mut row: Vec<String> = Vec::new();
            row.push(decimal_u64(dev.index));
            row.push(decimal_u64(p.pid));
            match &p.user {
                Some(x) => row.push(owned(x.as_str())),
                None => row.push(owned("?")),
            }
            row.push(owned(p.used.as_str()));
            match &p.name {
                Some(x) => row.push(owned(x.as_str())),
                None => row.push(owned("?")),
            }
            assert(strs(row@) =~= process_row(dev.index, *p));
            let ghost prev = out@;
            let ghost rv = strs(row@);
            out.push(row);
            proof {
                assert(texts(out@) =~= texts(prev).push(rv));
                assert(Seq::new(k as nat + 1, |i: int| process_row(dev.index, dev.processes@[i]))
                    =~= Seq::new(k as nat, |i: int| process_row(dev.index, dev.processes@[i])).push(process_row(dev.index, dev.processes@[k as int])));
            }
            k = k + 1;
        }
        proof {
            assert(devs@.take(d as int + 1).drop_last() =~= devs@.take(d as int));
            assert(devs@.take(d as int + 1).last() == devs@[d as int]);
        }
        d = d + 1;
    }
    assert(devs@.take(d as int) =~= devs@);
    let ghost all = texts(out@);
    out.truncate(max_rows);
    assert(texts(out@) =~= if all.len() <= max_rows { all } else { all.take(max_rows as int) });
    out
}

} // verus!
